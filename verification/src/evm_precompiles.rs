//! The EVM precompiles' own logic: signature checks of `ecrecover`, input parsing and
//! output layout of `blake2f`, and the byte layouts of `identity` and `ripemd160`. The
//! hashing and curve operations themselves are the runtime's.

use vstd::prelude::*;
use crate::evm_u256::{be_nat, lemma_be_append, lemma_be_bound, lemma_pow256_8, U256};
use crate::evm_modexp::{input_word, padded, read_padded};
use vstd::arithmetic::power::pow;

verus! {

/// Why a precompile refuses its input.
#[derive(Clone, Copy, Debug, PartialEq, Eq, Structural)]
pub enum PrecompileError {
    /// The input has the wrong length or a malformed field.
    IncorrectInputSize,
    /// The input is well formed but its values are not acceptable.
    InvalidInput,
}

/// The order `n` of the secp256k1 group, as a word.
pub open spec fn secp256k1_n_spec() -> U256 {
    U256 { bytes: [
        0xff, 0xff, 0xff, 0xff, 0xff, 0xff, 0xff, 0xff, 0xff, 0xff, 0xff, 0xff, 0xff, 0xff, 0xff, 0xfe,
        0xba, 0xae, 0xdc, 0xe6, 0xaf, 0x48, 0xa0, 0x3b, 0xbf, 0xd2, 0x5e, 0x8c, 0xd0, 0x36, 0x41, 0x41,
    ] }
}

/// The order `n` of the secp256k1 group.
pub fn secp256k1_n() -> (res: U256)
    ensures
        res == secp256k1_n_spec(),
{
    U256 { bytes: [
        0xff, 0xff, 0xff, 0xff, 0xff, 0xff, 0xff, 0xff, 0xff, 0xff, 0xff, 0xff, 0xff, 0xff, 0xff, 0xfe,
        0xba, 0xae, 0xdc, 0xe6, 0xaf, 0x48, 0xa0, 0x3b, 0xbf, 0xd2, 0x5e, 0x8c, 0xd0, 0x36, 0x41, 0x41,
    ] }
}

/// Whether `x` lies in `1..n`, the range of valid signature scalars.
pub fn in_secp256k1_range(x: &U256) -> (res: bool)
    ensures
        res == (1 <= x.value() < secp256k1_n_spec().value()),
{
    let one = U256::from_u64(1);
    let n = secp256k1_n();
    !x.lt(&one) && x.lt(&n)
}

/// Whether a recovery byte and signature scalars are acceptable: the byte is 27 or 28 and
/// both scalars lie in `1..n`.
pub open spec fn signature_ok(recovery_byte: u8, r: U256, s: U256) -> bool {
    &&& (recovery_byte == 27 || recovery_byte == 28)
    &&& 1 <= r.value() < secp256k1_n_spec().value()
    &&& 1 <= s.value() < secp256k1_n_spec().value()
}

/// The 65-byte signature: `r` and `s` big-endian, then the recovery id.
pub open spec fn signature_bytes(recovery_byte: u8, r: U256, s: U256) -> Seq<u8> {
    r.bytes@ + s.bytes@ + seq![(recovery_byte - 27) as u8]
}

/// Builds the signature to recover a public key from, refusing a recovery byte other
/// than 27 or 28 and scalars outside `1..n`.
pub fn ec_recover_signature(recovery_byte: u8, r: &U256, s: &U256) -> (res: Result<[u8; 65], PrecompileError>)
    ensures
        res is Ok <==> signature_ok(recovery_byte, *r, *s),
        res is Err ==> res->Err_0 == PrecompileError::InvalidInput,
        res is Ok ==> res->Ok_0@ == signature_bytes(recovery_byte, *r, *s),
{
    let v = match recovery_byte.checked_sub(27) {
        None => {
            return Err(PrecompileError::InvalidInput);
        },
        Some(v) => v,
    };
    if v > 1 || !in_secp256k1_range(r) || !in_secp256k1_range(s) {
        return Err(PrecompileError::InvalidInput);
    }
    let rb = r.to_big_endian();
    let sb = s.to_big_endian();
    let mut sig = [0u8; 65];
    let mut i: usize = 0;
    while i < 32
        invariant
            i <= 32,
            sig@.len() == 65,
            rb@ == r.bytes@,
            sb@ == s.bytes@,
            forall|j: int| 0 <= j < i ==> sig@[j] == rb@[j] && sig@[32 + j] == sb@[j],
        decreases 32 - i,
    {
        sig[i] = rb[i];
        sig[32 + i] = sb[i];
        i = i + 1;
    }
    sig[64] = v;
    assert(sig@ =~= signature_bytes(recovery_byte, *r, *s));
    Ok(sig)
}

/// The Ethereum address word of a public key's Keccak-256 digest: the digest with its
/// first 12 bytes zeroed.
pub fn address_word_from_digest(digest: [u8; 32]) -> (res: [u8; 32])
    ensures
        res@ == Seq::new(12, |i: int| 0u8) + digest@.subrange(12, 32),
{
    let mut address = digest;
    let mut i: usize = 0;
    while i < 12
        invariant
            i <= 12,
            address@.len() == 32,
            forall|j: int| 0 <= j < i ==> address@[j] == 0,
            forall|j: int| 12 <= j < 32 ==> address@[j] == digest@[j],
        decreases 12 - i,
    {
        address[i] = 0;
        i = i + 1;
    }
    assert(address@ =~= Seq::new(12, |i: int| 0u8) + digest@.subrange(12, 32));
    address
}

/// `ecrecover` on parsed input: checks the signature, recovers the public key with
/// `recover`, and returns the address word of its Keccak-256 digest (computed by `keccak`
/// over the key without its prefix byte). A refused signature or a failed recovery is an
/// invalid input.
pub fn ec_recover_internal<R: Fn(&[u8; 32], &[u8; 65]) -> Option<[u8; 65]>, H: Fn(&[u8]) -> [u8; 32]>(recover: &R, keccak: &H, hash: &[u8; 32], recovery_byte: u8, r: &U256, s: &U256) -> (res: Result<[u8; 32], PrecompileError>)
    requires
        forall|h: &[u8; 32], sig: &[u8; 65]| recover.requires((h, sig)),
        forall|input: &[u8]| keccak.requires((input,)),
    ensures
        !signature_ok(recovery_byte, *r, *s) ==> res == Err::<[u8; 32], PrecompileError>(PrecompileError::InvalidInput),
        signature_ok(recovery_byte, *r, *s) ==> exists|sig: [u8; 65], pubkey: Option<[u8; 65]>| {
            &&& sig@ == signature_bytes(recovery_byte, *r, *s)
            &&& recover.ensures((hash, &sig), pubkey)
            &&& pubkey is None ==> res == Err::<[u8; 32], PrecompileError>(PrecompileError::InvalidInput)
            &&& pubkey is Some ==> exists|input: &[u8], digest: [u8; 32]| {
                &&& input@ == pubkey->0@.subrange(1, 65)
                &&& keccak.ensures((input,), digest)
                &&& res is Ok
                &&& res->Ok_0@ == Seq::new(12, |i: int| 0u8) + digest@.subrange(12, 32)
            }
        },
{
    let sig = ec_recover_signature(recovery_byte, r, s)?;
    let pubkey = recover(hash, &sig);
    assert(recover.ensures((hash, &sig), pubkey));
    match pubkey {
        None => Err(PrecompileError::InvalidInput),
        Some(key) => {
            let ks = key.as_slice();
            let input = &ks[1..65];
            let digest = keccak(input);
            assert(keccak.ensures((input,), digest));
            Ok(address_word_from_digest(digest))
        },
    }
}

/// The message hash an `ecrecover` input holds: its first 32 bytes, zero-padded.
pub open spec fn ecr_hash(input: Seq<u8>) -> Seq<u8> {
    padded(input, 0, 32)
}

/// The recovery word of an `ecrecover` input: its second 32 bytes, zero-padded.
pub open spec fn ecr_recovery_word(input: Seq<u8>) -> nat {
    input_word(input, 1)
}

/// The signature scalars `r` and `s` of an `ecrecover` input: its third and fourth 32
/// bytes, zero-padded.
pub open spec fn ecr_r(input: Seq<u8>) -> Seq<u8> {
    padded(input, 64, 32)
}

pub open spec fn ecr_s(input: Seq<u8>) -> Seq<u8> {
    padded(input, 96, 32)
}

/// Whether an `ecrecover` input holds an acceptable signature: a recovery word of 27 or
/// 28 and both scalars in `1..n`.
pub open spec fn ecr_signature_ok(input: Seq<u8>) -> bool {
    &&& (ecr_recovery_word(input) == 27 || ecr_recovery_word(input) == 28)
    &&& 1 <= be_nat(ecr_r(input)) < secp256k1_n_spec().value()
    &&& 1 <= be_nat(ecr_s(input)) < secp256k1_n_spec().value()
}

/// The 65-byte signature of an `ecrecover` input: `r`, `s`, then the recovery id.
pub open spec fn ecr_signature(input: Seq<u8>) -> Seq<u8> {
    ecr_r(input) + ecr_s(input) + seq![(ecr_recovery_word(input) - 27) as u8]
}

/// The parsed fields of an `ecrecover` input.
pub struct EcRecoverInput {
    pub hash: [u8; 32],
    pub recovery_word: U256,
    pub r: U256,
    pub s: U256,
}

fn word_of(bytes: &Vec<u8>) -> (res: U256)
    requires
        bytes@.len() == 32,
    ensures
        res.bytes@ == bytes@,
{
    let w = U256::from_big_endian(bytes.as_slice());
    assert(Seq::new((32 - bytes@.len()) as nat, |i: int| 0u8) + bytes@ =~= bytes@);
    w
}

/// Reads an `ecrecover` input: four 32-byte words (hash, recovery word, `r`, `s`), with
/// zeros where the input has ended.
pub fn parse_ec_recover_input(input: &[u8]) -> (res: EcRecoverInput)
    ensures
        res.hash@ == ecr_hash(input@),
        res.recovery_word.value() == ecr_recovery_word(input@),
        res.r.bytes@ == ecr_r(input@),
        res.s.bytes@ == ecr_s(input@),
{
    let h = read_padded(input, 0, 32);
    let mut hash = [0u8; 32];
    let mut i: usize = 0;
    while i < 32
        invariant
            i <= 32,
            h@.len() == 32,
            hash@.len() == 32,
            forall|j: int| 0 <= j < i ==> hash@[j] == h@[j],
        decreases 32 - i,
    {
        hash[i] = h[i];
        i = i + 1;
    }
    assert(hash@ =~= h@);
    let rw = read_padded(input, 32, 32);
    let r = read_padded(input, 64, 32);
    let s = read_padded(input, 96, 32);
    EcRecoverInput { hash, recovery_word: word_of(&rw), r: word_of(&r), s: word_of(&s) }
}

/// The `ecrecover` precompile, which never fails: it reads the input (see
/// `parse_ec_recover_input`), and returns the address word that `ec_recover_internal` gives
/// for it, or an empty output wherever the input is refused: a recovery word that is no
/// byte, a refused signature, or a failed recovery.
pub fn ec_recover<R: Fn(&[u8; 32], &[u8; 65]) -> Option<[u8; 65]>, H: Fn(&[u8]) -> [u8; 32]>(recover: &R, keccak: &H, input: &[u8]) -> (res: Vec<u8>)
    requires
        forall|h: &[u8; 32], sig: &[u8; 65]| recover.requires((h, sig)),
        forall|x: &[u8]| keccak.requires((x,)),
    ensures
        !ecr_signature_ok(input@) ==> res@.len() == 0,
        ecr_signature_ok(input@) ==> exists|hash: [u8; 32], sig: [u8; 65], pubkey: Option<[u8; 65]>| {
            &&& hash@ == ecr_hash(input@)
            &&& sig@ == ecr_signature(input@)
            &&& recover.ensures((&hash, &sig), pubkey)
            &&& pubkey is None ==> res@.len() == 0
            &&& pubkey is Some ==> exists|x: &[u8], digest: [u8; 32]| {
                &&& x@ == pubkey->0@.subrange(1, 65)
                &&& keccak.ensures((x,), digest)
                &&& res@ == Seq::new(12, |i: int| 0u8) + digest@.subrange(12, 32)
            }
        },
{
    let parsed = parse_ec_recover_input(input);
    let recovery_byte: u8 = match parsed.recovery_word.to_u32() {
        Some(v) => {
            if v > 255 {
                return Vec::new();
            }
            v as u8
        },
        None => {
            return Vec::new();
        },
    };
    assert(signature_ok(recovery_byte, parsed.r, parsed.s) == ecr_signature_ok(input@));
    assert(signature_bytes(recovery_byte, parsed.r, parsed.s) =~= ecr_signature(input@));
    let hash = parsed.hash;
    match ec_recover_internal(recover, keccak, &hash, recovery_byte, &parsed.r, &parsed.s) {
        Ok(address) => {
            let mut out: Vec<u8> = Vec::new();
            out.extend_from_slice(&address);
            assert(out@ =~= address@);
            out
        },
        Err(_) => Vec::new(),
    }
}

/// The `identity` precompile: a copy of the input.
pub fn identity(input: &[u8]) -> (res: Vec<u8>)
    ensures
        res@ == input@,
{
    let mut out: Vec<u8> = Vec::new();
    let mut i: usize = 0;
    while i < input.len()
        invariant
            i <= input@.len(),
            out@ == input@.subrange(0, i as int),
        decreases input@.len() - i,
    {
        out.push(input[i]);
        assert(input@.subrange(0, (i + 1) as int) =~= input@.subrange(0, i as int).push(input@[i as int]));
        i = i + 1;
    }
    assert(input@.subrange(0, input@.len() as int) =~= input@);
    out
}

/// The `ripemd160` precompile: the RIPEMD-160 digest of the input (computed by `hash`),
/// left-padded with 12 zero bytes to a word.
pub fn ripemd160<H: Fn(&[u8]) -> Vec<u8>>(hash: &H, input: &[u8]) -> (res: Vec<u8>)
    requires
        hash.requires((input,)),
    ensures
        exists|digest: Vec<u8>| hash.ensures((input,), digest) && res@ == Seq::new(12, |i: int| 0u8) + digest@,
{
    let mut out: Vec<u8> = Vec::new();
    let mut i: usize = 0;
    while i < 12
        invariant
            i <= 12,
            out@ == Seq::new(i as nat, |j: int| 0u8),
        decreases 12 - i,
    {
        out.push(0);
        assert(out@ =~= Seq::new((i + 1) as nat, |j: int| 0u8));
        i = i + 1;
    }
    let digest = hash(input);
    let ghost head = out@;
    let mut k: usize = 0;
    while k < digest.len()
        invariant
            k <= digest@.len(),
            out@ == head + digest@.subrange(0, k as int),
        decreases digest@.len() - k,
    {
        out.push(digest[k]);
        assert(digest@.subrange(0, (k + 1) as int) =~= digest@.subrange(0, k as int).push(digest@[k as int]));
        k = k + 1;
    }
    assert(digest@.subrange(0, digest@.len() as int) =~= digest@);
    out
}

/// The value of bytes read little-endian.
pub open spec fn le_nat(s: Seq<u8>) -> nat {
    be_nat(s.reverse())
}

/// The input of the `blake2f` compression: rounds, state, message block, offset counters
/// and the final-block flag.
#[derive(Clone, Copy, Debug)]
pub struct Blake2fParams {
    pub rounds: u32,
    pub h: [u64; 8],
    pub m: [u64; 16],
    pub t: [u64; 2],
    pub f: bool,
}

/// Reads the little-endian `u64` at byte `start` of `bytes`.
fn le_u64_at(bytes: &[u8], start: usize) -> (res: u64)
    requires
        start + 8 <= bytes@.len(),
    ensures
        res == le_nat(bytes@.subrange(start as int, start + 8)),
{
    let ghost w = bytes@.subrange(start as int, start + 8);
    let n = bytes.len();
    let mut acc: u64 = 0;
    let mut i: usize = 0;
    proof {
        vstd::arithmetic::power::lemma_pow0(256);
        assert(w.reverse().subrange(0, 0) =~= Seq::<u8>::empty());
    }
    while i < 8
        invariant
            i <= 8,
            start + 8 <= bytes@.len(),
            n == bytes@.len(),
            w == bytes@.subrange(start as int, start + 8),
            acc == be_nat(w.reverse().subrange(0, i as int)),
            acc < pow(256, i as nat),
        decreases 8 - i,
    {
        let b = bytes[start + (7 - i)];
        proof {
            assert(w.reverse()[i as int] == b);
            assert(w.reverse().subrange(0, (i + 1) as int).drop_last() =~= w.reverse().subrange(0, i as int));
            vstd::arithmetic::power::lemma_pow_adds(256, i as nat, 1);
            vstd::arithmetic::power::lemma_pow1(256);
            lemma_pow256_8();
            vstd::arithmetic::power::lemma_pow_increases(256, (i + 1) as nat, 8);
            assert(acc * 256 + b < pow(256, (i + 1) as nat)) by (nonlinear_arith)
                requires
                    acc < pow(256, i as nat),
                    b < 256,
                    pow(256, (i + 1) as nat) == pow(256, i as nat) * 256,
            ;
        }
        acc = acc * 256 + b as u64;
        i = i + 1;
    }
    assert(w.reverse().subrange(0, 8) =~= w.reverse());
    acc
}

/// Whether `p` is what the `blake2f` input `input` (213 bytes) encodes: the rounds as a
/// big-endian `u32`, then 8, 16 and 2 little-endian `u64` words, then the flag byte.
pub open spec fn blake2f_encodes(input: Seq<u8>, p: Blake2fParams) -> bool {
    &&& p.rounds == be_nat(input.subrange(0, 4))
    &&& forall|i: int| 0 <= i < 8 ==> p.h@[i] == le_nat(#[trigger] input.subrange(4 + 8 * i, 12 + 8 * i))
    &&& forall|i: int| 0 <= i < 16 ==> p.m@[i] == le_nat(#[trigger] input.subrange(68 + 8 * i, 76 + 8 * i))
    &&& forall|i: int| 0 <= i < 2 ==> p.t@[i] == le_nat(#[trigger] input.subrange(196 + 8 * i, 204 + 8 * i))
    &&& p.f == (input[212] == 1)
}

/// Parses the `blake2f` input: it must be 213 bytes long and end in a flag byte of 0 or 1.
pub fn blake2f_parse(input: &[u8]) -> (res: Result<Blake2fParams, PrecompileError>)
    ensures
        res is Ok <==> (input@.len() == 213 && (input@[212] == 0 || input@[212] == 1)),
        res is Err ==> res->Err_0 == PrecompileError::IncorrectInputSize,
        res is Ok ==> blake2f_encodes(input@, res->Ok_0),
{
    if input.len() != 213 {
        return Err(PrecompileError::IncorrectInputSize);
    }
    let f = match input[212] {
        0 => false,
        1 => true,
        _ => {
            return Err(PrecompileError::IncorrectInputSize);
        },
    };
    let rounds: u32 = (((input[0] as u32 * 256 + input[1] as u32) * 256 + input[2] as u32) * 256) + input[3] as u32;
    proof {
        let r = input@.subrange(0, 4);
        assert(r.drop_last().drop_last().drop_last().drop_last() =~= Seq::<u8>::empty());
        assert(r.drop_last().drop_last().drop_last() =~= seq![input@[0]]);
        assert(r.drop_last().drop_last() =~= seq![input@[0], input@[1]]);
        assert(r.drop_last() =~= seq![input@[0], input@[1], input@[2]]);
        assert(be_nat(Seq::<u8>::empty()) == 0);
        assert(be_nat(seq![input@[0]]) == input@[0]);
        assert(be_nat(seq![input@[0], input@[1]]) == input@[0] * 256 + input@[1]);
        assert(be_nat(seq![input@[0], input@[1], input@[2]]) == (input@[0] * 256 + input@[1]) * 256 + input@[2]);
        assert(be_nat(r) == rounds);
    }
    let mut h = [0u64; 8];
    let mut i: usize = 0;
    while i < 8
        invariant
            i <= 8,
            input@.len() == 213,
            forall|j: int| 0 <= j < i ==> h@[j] == le_nat(#[trigger] input@.subrange(4 + 8 * j, 12 + 8 * j)),
        decreases 8 - i,
    {
        h[i] = le_u64_at(input, 4 + 8 * i);
        i = i + 1;
    }
    let mut m = [0u64; 16];
    let mut i: usize = 0;
    while i < 16
        invariant
            i <= 16,
            input@.len() == 213,
            forall|j: int| 0 <= j < i ==> m@[j] == le_nat(#[trigger] input@.subrange(68 + 8 * j, 76 + 8 * j)),
        decreases 16 - i,
    {
        m[i] = le_u64_at(input, 68 + 8 * i);
        i = i + 1;
    }
    let mut t = [0u64; 2];
    let mut i: usize = 0;
    while i < 2
        invariant
            i <= 2,
            input@.len() == 213,
            forall|j: int| 0 <= j < i ==> t@[j] == le_nat(#[trigger] input@.subrange(196 + 8 * j, 204 + 8 * j)),
        decreases 2 - i,
    {
        t[i] = le_u64_at(input, 196 + 8 * i);
        i = i + 1;
    }
    Ok(Blake2fParams { rounds, h, m, t, f })
}

/// The `blake2f` output: the eight state words, little-endian, one after another.
pub fn blake2f_output(h: &[u64; 8]) -> (res: Vec<u8>)
    ensures
        res@.len() == 64,
        forall|i: int| 0 <= i < 8 ==> le_nat(#[trigger] res@.subrange(8 * i, 8 * i + 8)) == h@[i],
{
    let mut out: Vec<u8> = Vec::new();
    let mut i: usize = 0;
    while i < 8
        invariant
            i <= 8,
            out@.len() == 8 * i,
            forall|j: int| 0 <= j < i ==> le_nat(#[trigger] out@.subrange(8 * j, 8 * j + 8)) == h@[j],
        decreases 8 - i,
    {
        let word = U256::from_u64(h[i]).to_big_endian();
        let ghost before = out@;
        let mut k: usize = 0;
        while k < 8
            invariant
                k <= 8,
                out@.len() == 8 * i + k,
                out@.subrange(0, 8 * i as int) == before,
                before.len() == 8 * i,
                forall|q: int| 8 * i <= q < 8 * i + k ==> #[trigger] out@[q] == word@[31 - (q - 8 * i)],
            decreases 8 - k,
        {
            out.push(word[31 - k]);
            assert(out@.subrange(0, 8 * i as int) =~= before);
            k = k + 1;
        }
        proof {
            let chunk = out@.subrange(8 * i as int, 8 * i + 8);
            assert(chunk.reverse() =~= word@.subrange(24, 32));
            assert(word@ =~= word@.subrange(0, 24) + word@.subrange(24, 32));
            lemma_be_append(word@.subrange(0, 24), word@.subrange(24, 32));
            lemma_be_bound(word@.subrange(24, 32));
            lemma_pow256_8();
            let hi = be_nat(word@.subrange(0, 24));
            let lo = be_nat(word@.subrange(24, 32));
            assert(hi == 0) by (nonlinear_arith)
                requires
                    hi * 0x1_0000_0000_0000_0000 + lo == h@[i as int],
                    h@[i as int] < 0x1_0000_0000_0000_0000,
                    lo >= 0,
                    hi >= 0,
            ;
            assert forall|j: int| 0 <= j < i + 1 implies le_nat(#[trigger] out@.subrange(8 * j, 8 * j + 8)) == h@[j] by {
                if j < i {
                    assert(out@.subrange(8 * j, 8 * j + 8) =~= before.subrange(8 * j, 8 * j + 8));
                }
            }
        }
        i = i + 1;
    }
    out
}

} // verus!
