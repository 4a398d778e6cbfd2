//! Proving-period arithmetic and parameter checks of the miner actor.

use vstd::prelude::*;
use vstd::arithmetic::power::pow;
use crate::address::Address;
use crate::error::{ActorError, USR_SERIALIZATION};
use crate::evm_u256::{be_nat, lemma_be_append, lemma_be_bound, lemma_pow256_8, U256};
use crate::policy::{ChainEpoch, Policy};

verus! {

/// Remainder of `a / b` rounded toward zero, as Rust's `%` computes it on signed integers.
pub open spec fn trunc_rem(a: int, b: int) -> int {
    if a >= 0 { a % b } else { -((-a) % b) }
}

/// Quotient of `a / b` rounded toward zero, as Rust's `/` computes it on signed integers.
pub open spec fn trunc_div(a: int, b: int) -> int {
    if a >= 0 { a / b } else { -((-a) / b) }
}

/// How far `current_epoch` lies into the proving period that starts at `offset` modulo
/// the period length.
pub open spec fn period_progress(current_epoch: int, offset: int, period: int) -> int {
    let curr_modulus = trunc_rem(current_epoch, period);
    if curr_modulus >= offset {
        curr_modulus - offset
    } else {
        period - (offset - curr_modulus)
    }
}

/// The period start `offset` past a multiple of the period length that the count of
/// `period_progress` steps back to from `current_epoch`.
pub open spec fn period_start_before(current_epoch: int, offset: int, period: int) -> int {
    current_epoch - period_progress(current_epoch, offset, period)
}

/// The proving period start that `current_proving_period_start` gives: the first epoch
/// after `current_epoch` that lies `offset` past a multiple of the period length.
pub open spec fn proving_period_start_spec(current_epoch: int, offset: int, period: int) -> int {
    period_start_before(current_epoch, offset, period) + period
}

/// Rust's `%` on an `i64` and a positive `i64`, rounding toward zero.
fn rem_toward_zero(a: i64, b: i64) -> (res: i64)
    requires
        b > 0,
    ensures
        res == trunc_rem(a as int, b as int),
{
    if a >= 0 {
        a % b
    } else {
        let pos: i64 = -(a + 1);
        let m: i64 = pos % b;
        assert((-(a as int)) % (b as int) == if m + 1 == b { 0 } else { m + 1 }) by (nonlinear_arith)
            requires
                pos == -(a + 1),
                m == pos % b,
                b > 0,
                pos >= 0,
        {
            vstd::arithmetic::div_mod::lemma_fundamental_div_mod(pos as int, b as int);
            let q = pos / b;
            if m + 1 == b {
                assert(-(a as int) == (q + 1) * b);
                vstd::arithmetic::div_mod::lemma_mod_multiples_basic(q + 1, b as int);
            } else {
                assert(-(a as int) == q * b + (m + 1));
                vstd::arithmetic::div_mod::lemma_mod_multiples_vanish(q, m + 1, b as int);
                vstd::arithmetic::div_mod::lemma_small_mod((m + 1) as nat, b as nat);
            }
        }
        if m + 1 == b { 0 } else { -(m + 1) }
    }
}

/// The proving period start for a miner whose periods start at `offset` modulo the period
/// length: the first such start after `current_epoch`. A miner is exempt from Window PoSt
/// until its first full proving period starts.
pub fn current_proving_period_start(policy: &Policy, current_epoch: ChainEpoch, offset: ChainEpoch) -> (res: ChainEpoch)
    requires
        policy.wpost_proving_period > 0,
        0 <= offset < policy.wpost_proving_period,
        proving_period_start_spec(current_epoch as int, offset as int, policy.wpost_proving_period as int) <= i64::MAX,
    ensures
        res == proving_period_start_spec(current_epoch as int, offset as int, policy.wpost_proving_period as int),
        res > current_epoch,
        (res - offset) % (policy.wpost_proving_period as int) == 0,
        current_epoch >= 0 ==> res - policy.wpost_proving_period <= current_epoch,
{
    let period = policy.wpost_proving_period;
    let curr_modulus = rem_toward_zero(current_epoch, period);
    assert(-(period as int) < curr_modulus < period) by {
        if current_epoch < 0 {
            assert(0 <= (-(current_epoch as int)) % (period as int) < period);
        }
    }
    let period_progress: i128 = if curr_modulus >= offset {
        curr_modulus as i128 - offset as i128
    } else {
        period as i128 - (offset as i128 - curr_modulus as i128)
    };
    proof {
        lemma_proving_period_start_aligned(current_epoch as int, offset as int, period as int);
    }
    let start: i128 = current_epoch as i128 + (period as i128 - period_progress);
    start as i64
}

/// The index of the deadline that `current_epoch` falls in, counting challenge windows
/// from `period_start`.
pub fn current_deadline_index(policy: &Policy, current_epoch: ChainEpoch, period_start: ChainEpoch) -> (res: u64)
    requires
        policy.wpost_challenge_window > 0,
        i64::MIN <= current_epoch - period_start <= i64::MAX,
    ensures
        res == trunc_div(current_epoch - period_start, policy.wpost_challenge_window as int) as u64,
{
    let diff: i64 = current_epoch - period_start;
    let w = policy.wpost_challenge_window;
    let q: i128 = if diff >= 0 {
        (diff / w) as i128
    } else {
        let wide: i128 = -(diff as i128);
        let qq: i128 = wide / (w as i128);
        assert(0 <= qq <= wide) by (nonlinear_arith)
            requires wide >= 0, w > 0, qq == wide / (w as i128);
        -qq
    };
    #[verifier::truncate]
    (q as u64)
}

proof fn lemma_period_start_before(current_epoch: int, offset: int, period: int)
    requires
        period > 0,
        0 <= offset < period,
    ensures
        (period_start_before(current_epoch, offset, period) - offset) % period == 0,
        period_start_before(current_epoch, offset, period) > current_epoch - period,
        current_epoch >= 0 ==> period_start_before(current_epoch, offset, period) <= current_epoch,
{
    let cm = trunc_rem(current_epoch, period);
    let start = period_start_before(current_epoch, offset, period);
    let k: int = if current_epoch >= 0 { current_epoch / period } else { -((-current_epoch) / period) };
    assert(current_epoch - cm == k * period) by {
        if current_epoch >= 0 {
            vstd::arithmetic::div_mod::lemma_fundamental_div_mod(current_epoch, period);
        } else {
            vstd::arithmetic::div_mod::lemma_fundamental_div_mod(-current_epoch, period);
        }
        assert(k * period == if current_epoch >= 0 { (current_epoch / period) * period } else { -(((-current_epoch) / period) * period) }) by (nonlinear_arith)
            requires k == if current_epoch >= 0 { current_epoch / period } else { -((-current_epoch) / period) };
    }
    if cm >= offset {
        assert(start - offset == k * period);
        vstd::arithmetic::div_mod::lemma_mod_multiples_basic(k, period);
    } else {
        assert(start - offset == (k - 1) * period) by (nonlinear_arith)
            requires start - offset == current_epoch - cm - period, current_epoch - cm == k * period;
        vstd::arithmetic::div_mod::lemma_mod_multiples_basic(k - 1, period);
    }
    if current_epoch >= 0 {
        assert(0 <= cm < period);
    } else {
        assert(-period < cm <= 0) by {
            assert(0 <= (-current_epoch) % period < period);
        }
    }
}

/// The proving period start is the first epoch after the current one that lies `offset`
/// past a multiple of the period length: it is after the current epoch, aligned, and (for
/// a non-negative current epoch) no more than one period after it.
pub proof fn lemma_proving_period_start_aligned(current_epoch: int, offset: int, period: int)
    requires
        period > 0,
        0 <= offset < period,
    ensures
        proving_period_start_spec(current_epoch, offset, period) > current_epoch,
        (proving_period_start_spec(current_epoch, offset, period) - offset) % period == 0,
        current_epoch >= 0 ==> proving_period_start_spec(current_epoch, offset, period) - period <= current_epoch,
{
    lemma_period_start_before(current_epoch, offset, period);
    let b = period_start_before(current_epoch, offset, period);
    vstd::arithmetic::div_mod::lemma_fundamental_div_mod(b - offset, period);
    vstd::arithmetic::div_mod::lemma_mod_multiples_vanish(1, b - offset, period);
}

/// Names the DAG-CBOR encoding that `fvm_ipld_encoding` gives the address with these
/// bytes, `None` where `fvm_shared` does not accept the bytes as an address.
pub uninterp spec fn address_cbor_spec(bytes: Seq<u8>) -> Option<Seq<u8>>;

/// Parses the address with `fvm_shared::address::Address::from_bytes` and encodes it with
/// `fvm_ipld_encoding::to_vec`. The contract ties the result to the address bytes through
/// `address_cbor_spec`; which byte strings parse as addresses, and the encoding itself,
/// are left unsaid.
#[verifier::external_body]
fn address_cbor(addr: &Address) -> (res: Option<Vec<u8>>)
    ensures
        res is Some <==> address_cbor_spec(addr@) is Some,
        res is Some ==> res->0@ == address_cbor_spec(addr@)->0,
{
    let mut bytes = vec![addr.protocol];
    bytes.extend_from_slice(&addr.payload);
    let parsed = fvm_shared::address::Address::from_bytes(&bytes).ok()?;
    fvm_ipld_encoding::to_vec(&parsed).ok()
}

/// The eight big-endian bytes of `v`.
fn u64_to_be_bytes(v: u64) -> (res: Vec<u8>)
    ensures
        res@.len() == 8,
        be_nat(res@) == v,
{
    let word = U256::from_u64(v).to_big_endian();
    let mut out: Vec<u8> = Vec::new();
    let mut i: usize = 24;
    while i < 32
        invariant
            24 <= i <= 32,
            out@ == word@.subrange(24, i as int),
        decreases 32 - i,
    {
        out.push(word[i]);
        assert(word@.subrange(24, (i + 1) as int) =~= word@.subrange(24, i as int).push(word@[i as int]));
        i = i + 1;
    }
    proof {
        assert(word@ =~= word@.subrange(0, 24) + word@.subrange(24, 32));
        lemma_be_append(word@.subrange(0, 24), word@.subrange(24, 32));
        lemma_be_bound(word@.subrange(24, 32));
        lemma_pow256_8();
        let hi = be_nat(word@.subrange(0, 24));
        let lo = be_nat(word@.subrange(24, 32));
        assert(hi * 0x1_0000_0000_0000_0000 + lo == v);
        assert(hi == 0) by (nonlinear_arith)
            requires
                hi * 0x1_0000_0000_0000_0000 + lo == v,
                v < 0x1_0000_0000_0000_0000,
                lo >= 0,
                hi >= 0,
        ;
    }
    out
}

/// The value of the first eight bytes of `bytes`, read big-endian.
fn be_u64_prefix(bytes: &[u8]) -> (res: u64)
    requires
        bytes@.len() >= 8,
    ensures
        res == be_nat(bytes@.subrange(0, 8)),
{
    let mut acc: u64 = 0;
    let mut i: usize = 0;
    proof {
        vstd::arithmetic::power::lemma_pow0(256);
        assert(bytes@.subrange(0, 0) =~= Seq::<u8>::empty());
    }
    while i < 8
        invariant
            i <= 8,
            bytes@.len() >= 8,
            acc == be_nat(bytes@.subrange(0, i as int)),
            acc < pow(256, i as nat),
        decreases 8 - i,
    {
        proof {
            assert(bytes@.subrange(0, (i + 1) as int).drop_last() =~= bytes@.subrange(0, i as int));
            vstd::arithmetic::power::lemma_pow_adds(256, i as nat, 1);
            vstd::arithmetic::power::lemma_pow1(256);
            lemma_pow256_8();
            vstd::arithmetic::power::lemma_pow_increases(256, (i + 1) as nat, 8);
            assert(acc * 256 + bytes@[i as int] < pow(256, (i + 1) as nat)) by (nonlinear_arith)
                requires
                    acc < pow(256, i as nat),
                    bytes@[i as int] < 256,
                    pow(256, (i + 1) as nat) == pow(256, i as nat) * 256,
            ;
        }
        acc = acc * 256 + bytes[i] as u64;
        i = i + 1;
    }
    acc
}

/// Whether `preimage` is the encoded address followed by the eight big-endian bytes of
/// the epoch.
pub open spec fn offset_preimage(preimage: Seq<u8>, encoded_address: Seq<u8>, current_epoch: ChainEpoch) -> bool {
    &&& preimage.len() == encoded_address.len() + 8
    &&& preimage.subrange(0, encoded_address.len() as int) == encoded_address
    &&& be_nat(preimage.subrange(encoded_address.len() as int, preimage.len() as int)) == current_epoch as u64
}

/// The bytes hashed to choose a proving period offset: the encoded address, then the
/// current epoch as eight big-endian bytes.
pub fn proving_period_offset_preimage(encoded_address: &[u8], current_epoch: ChainEpoch) -> (res: Vec<u8>)
    ensures
        offset_preimage(res@, encoded_address@, current_epoch),
{
    let mut out: Vec<u8> = Vec::new();
    let mut i: usize = 0;
    while i < encoded_address.len()
        invariant
            i <= encoded_address@.len(),
            out@ == encoded_address@.subrange(0, i as int),
        decreases encoded_address@.len() - i,
    {
        out.push(encoded_address[i]);
        assert(encoded_address@.subrange(0, (i + 1) as int) =~= encoded_address@.subrange(0, i as int).push(encoded_address@[i as int]));
        i = i + 1;
    }
    let epoch_bytes = u64_to_be_bytes(current_epoch as u64);
    let ghost head = out@;
    let mut j: usize = 0;
    while j < 8
        invariant
            j <= 8,
            epoch_bytes@.len() == 8,
            out@ == head + epoch_bytes@.subrange(0, j as int),
        decreases 8 - j,
    {
        out.push(epoch_bytes[j]);
        assert(epoch_bytes@.subrange(0, (j + 1) as int) =~= epoch_bytes@.subrange(0, j as int).push(epoch_bytes@[j as int]));
        j = j + 1;
    }
    assert(encoded_address@.subrange(0, encoded_address@.len() as int) =~= encoded_address@);
    assert(epoch_bytes@.subrange(0, 8) =~= epoch_bytes@);
    assert(out@.subrange(0, encoded_address@.len() as int) =~= encoded_address@);
    assert(out@.subrange(encoded_address@.len() as int, out@.len() as int) =~= epoch_bytes@);
    out
}

/// The proving period offset a digest selects: its first eight bytes, read big-endian, modulo
/// the proving period length (taken as unsigned).
pub open spec fn offset_from_digest_spec(policy: Policy, digest: Seq<u8>) -> ChainEpoch {
    ((be_nat(digest.subrange(0, 8)) % ((policy.wpost_proving_period as u64) as nat)) as u64) as ChainEpoch
}

/// The proving period offset a digest selects.
pub fn offset_from_digest(policy: &Policy, digest: &[u8; 32]) -> (res: ChainEpoch)
    requires
        policy.wpost_proving_period as u64 != 0,
    ensures
        res == offset_from_digest_spec(*policy, digest@),
{
    let mut offset: u64 = be_u64_prefix(digest);
    offset = offset % (policy.wpost_proving_period as u64);
    offset as ChainEpoch
}

/// Chooses a miner's proving period offset from the hash of its encoded address and the
/// current epoch, with `blake2b` computing the digest. An address that cannot be encoded is a
/// serialization error.
pub fn assign_proving_period_offset<F: FnOnce(&[u8]) -> [u8; 32]>(policy: &Policy, addr: &Address, current_epoch: ChainEpoch, blake2b: F) -> (res: Result<ChainEpoch, ActorError>)
    requires
        policy.wpost_proving_period as u64 != 0,
        forall|input: &[u8]| blake2b.requires((input,)),
    ensures
        res is Err <==> address_cbor_spec(addr@) is None,
        res is Err ==> res->Err_0.exit_code == USR_SERIALIZATION,
        res is Ok ==> exists|input: &[u8], digest: [u8; 32]| {
            &&& offset_preimage(input@, address_cbor_spec(addr@)->0, current_epoch)
            &&& blake2b.ensures((input,), digest)
            &&& res->Ok_0 == offset_from_digest_spec(*policy, digest@)
        },
{
    let encoded = match address_cbor(addr) {
        None => {
            return Err(ActorError::serialization());
        },
        Some(bytes) => bytes,
    };
    let preimage = proving_period_offset_preimage(encoded.as_slice(), current_epoch);
    let input = preimage.as_slice();
    let digest = blake2b(input);
    let offset = offset_from_digest(policy, &digest);
    assert(blake2b.ensures((input,), digest));
    Ok(offset)
}

/// An epoch within a proving period has a deadline index, counted from the period's
/// start in challenge windows, within the period's deadlines.
pub proof fn lemma_current_deadline_in_period(current_epoch: int, period_start: int, window: int, deadlines: int)
    requires
        window > 0,
        deadlines > 0,
        period_start <= current_epoch < period_start + window * deadlines,
    ensures
        0 <= trunc_div(current_epoch - period_start, window) < deadlines,
{
    let period = window * deadlines;
    let diff = current_epoch - period_start;
    assert(0 <= diff < period);
    vstd::arithmetic::div_mod::lemma_div_is_ordered(0, diff, window);
    assert(diff / window < deadlines) by {
        vstd::arithmetic::div_mod::lemma_div_is_ordered(diff, period - 1, window);
        assert(period - 1 == (deadlines - 1) * window + (window - 1)) by (nonlinear_arith)
            requires
                period == window * deadlines,
        ;
        vstd::arithmetic::div_mod::lemma_fundamental_div_mod_converse(period - 1, window, deadlines - 1, window - 1);
    }
}

} // verus!
