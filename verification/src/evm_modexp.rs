//! The `modexp` precompile (EIP-198): modular exponentiation of big-endian numbers whose
//! lengths the input declares.

use vstd::prelude::*;
use vstd::arithmetic::power::pow;
use fvm_shared::bigint::BigUint;
use crate::evm_precompiles::PrecompileError;
use crate::evm_u256::{be_nat, lemma_be_append, lemma_be_zero, U256};

verus! {

/// The `len` bytes of `input` from `start`, with zeros where the input has ended.
pub open spec fn padded(input: Seq<u8>, start: int, len: nat) -> Seq<u8> {
    Seq::new(len, |i: int| if 0 <= start + i < input.len() { input[start + i] } else { 0u8 })
}

/// The value of the `k`-th 32-byte word of the input, zero-padded.
pub open spec fn input_word(input: Seq<u8>, k: int) -> nat {
    be_nat(padded(input, 32 * k, 32))
}

/// `n` zero bytes.
pub open spec fn zeros(n: nat) -> Seq<u8> {
    Seq::new(n, |i: int| 0u8)
}

/// Reads `len` bytes of `input` from `start`, zero-padded past its end.
pub fn read_padded(input: &[u8], start: u64, len: u64) -> (res: Vec<u8>)
    ensures
        res@ == padded(input@, start as int, len as nat),
{
    let mut out: Vec<u8> = Vec::new();
    let mut i: u64 = 0;
    while i < len
        invariant
            i <= len,
            out@ =~= padded(input@, start as int, i as nat),
        decreases len - i,
    {
        let pos: u128 = start as u128 + i as u128;
        let b: u8 = if pos < input.len() as u128 { input[pos as usize] } else { 0 };
        out.push(b);
        i = i + 1;
        assert(out@ =~= padded(input@, start as int, i as nat));
    }
    out
}

/// Calls `BigUint::from_bytes_be` on the three byte strings, `BigUint::modpow`, and
/// `BigUint::to_bytes_be` on the result (from `num_bigint`, as `fvm_shared::bigint`).
/// `modpow` gives `base^exponent mod modulus` and panics on a zero modulus, which the
/// `requires` leaves out; `to_bytes_be` gives the shortest big-endian bytes, `[0]` for zero.
#[verifier::external_body]
fn modpow_be(base: &[u8], exponent: &[u8], modulus: &[u8]) -> (res: Vec<u8>)
    requires
        be_nat(modulus@) > 0,
    ensures
        be_nat(res@) == pow(be_nat(base@) as int, be_nat(exponent@)) % (be_nat(modulus@) as int),
        res@.len() >= 1,
        res@.len() == 1 || res@[0] != 0,
{
    let m = BigUint::from_bytes_be(modulus);
    BigUint::from_bytes_be(base).modpow(&BigUint::from_bytes_be(exponent), &m).to_bytes_be()
}

/// Whether the big-endian number `bytes` is 0 or 1.
fn at_most_one(bytes: &[u8]) -> (res: bool)
    ensures
        res == (be_nat(bytes@) <= 1),
{
    let n = bytes.len();
    if n == 0 {
        return true;
    }
    let mut i: usize = 0;
    while i < n - 1
        invariant
            n == bytes@.len(),
            n >= 1,
            i <= n - 1,
            forall|j: int| 0 <= j < i ==> bytes@[j] == 0,
        decreases n - 1 - i,
    {
        if bytes[i] != 0 {
            proof {
                let head = bytes@.drop_last();
                assert(head[i as int] != 0);
                lemma_be_zero(head);
                assert(be_nat(bytes@) == be_nat(head) * 256 + bytes@.last());
            }
            return false;
        }
        i = i + 1;
    }
    proof {
        let head = bytes@.drop_last();
        assert forall|j: int| 0 <= j < head.len() implies head[j] == 0 by {
            assert(head[j] == bytes@[j]);
        }
        lemma_be_zero(head);
    }
    bytes[n - 1] <= 1
}

/// `n` zero bytes.
fn zero_bytes(n: u64) -> (res: Vec<u8>)
    ensures
        res@ == zeros(n as nat),
{
    let mut out: Vec<u8> = Vec::new();
    let mut i: u64 = 0;
    while i < n
        invariant
            i <= n,
            out@ =~= zeros(i as nat),
        decreases n - i,
    {
        out.push(0);
        i = i + 1;
        assert(out@ =~= zeros(i as nat));
    }
    out
}

/// Reads the `k`-th length word of the input as a `u32`; a word above `u32::MAX` is an
/// invalid input.
fn read_length(input: &[u8], k: u64) -> (res: Result<u32, PrecompileError>)
    requires
        k <= 2,
    ensures
        res is Ok <==> input_word(input@, k as int) <= u32::MAX,
        res matches Ok(v) ==> v == input_word(input@, k as int),
        res is Err ==> res->Err_0 == PrecompileError::InvalidInput,
{
    let word = read_padded(input, 32 * k, 32);
    let w = U256::from_big_endian(word.as_slice());
    proof {
        lemma_be_append(Seq::new(0, |i: int| 0u8), word@);
        lemma_be_zero(Seq::new(0, |i: int| 0u8));
        assert(Seq::new((32 - word@.len()) as nat, |i: int| 0u8) + word@ =~= word@);
    }
    match w.to_u32() {
        Some(v) => Ok(v),
        None => Err(PrecompileError::InvalidInput),
    }
}

/// The output of `modexp` once the lengths are read: the base, exponent and modulus come
/// after the three length words, one after the other.
pub open spec fn modexp_output(input: Seq<u8>, out: Seq<u8>) -> bool {
    let base_len = input_word(input, 0);
    let exp_len = input_word(input, 1);
    let mod_len = input_word(input, 2);
    let base = padded(input, 96, base_len);
    let exponent = padded(input, (96 + base_len) as int, exp_len);
    let modulus = padded(input, (96 + base_len + exp_len) as int, mod_len);
    if base_len == 0 && mod_len == 0 {
        out.len() == 0
    } else if be_nat(modulus) <= 1 {
        out == zeros(mod_len)
    } else {
        &&& be_nat(out) == pow(be_nat(base) as int, be_nat(exponent)) % (be_nat(modulus) as int)
        &&& out.len() >= mod_len
        &&& out.len() > mod_len ==> out[0] != 0
    }
}

/// The `modexp` precompile: reads three 32-byte length words (zero-padded; a length above
/// `u32::MAX` is an invalid input), then the base, exponent and modulus of those lengths,
/// and returns `base^exponent mod modulus` big-endian, left-padded to the modulus length.
/// With empty base and modulus the output is empty; with a modulus of 0 or 1 it is
/// `mod_len` zeros.
pub fn modexp(input: &[u8]) -> (res: Result<Vec<u8>, PrecompileError>)
    ensures
        res is Err <==> (input_word(input@, 0) > u32::MAX || input_word(input@, 1) > u32::MAX
            || input_word(input@, 2) > u32::MAX),
        res is Err ==> res->Err_0 == PrecompileError::InvalidInput,
        res matches Ok(out) ==> modexp_output(input@, out@),
{
    let base_len = read_length(input, 0)?;
    let exponent_len = read_length(input, 1)?;
    let mod_len = read_length(input, 2)?;
    if base_len == 0 && mod_len == 0 {
        return Ok(Vec::new());
    }
    let base = read_padded(input, 96, base_len as u64);
    let exponent = read_padded(input, 96 + base_len as u64, exponent_len as u64);
    let modulus = read_padded(input, 96 + base_len as u64 + exponent_len as u64, mod_len as u64);
    if at_most_one(modulus.as_slice()) {
        return Ok(zero_bytes(mod_len as u64));
    }
    let output = modpow_be(base.as_slice(), exponent.as_slice(), modulus.as_slice());
    if output.len() < mod_len as usize {
        let mut ret = zero_bytes(mod_len as u64 - output.len() as u64);
        let ghost pad = ret@;
        let mut k: usize = 0;
        while k < output.len()
            invariant
                k <= output@.len(),
                ret@ == pad + output@.subrange(0, k as int),
            decreases output@.len() - k,
        {
            ret.push(output[k]);
            k = k + 1;
            assert(ret@ =~= pad + output@.subrange(0, k as int));
        }
        proof {
            assert(output@.subrange(0, output@.len() as int) =~= output@);
            lemma_be_append(pad, output@);
            lemma_be_zero(pad);
        }
        Ok(ret)
    } else {
        Ok(output)
    }
}

} // verus!
