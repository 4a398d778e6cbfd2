//! Unsigned LEB128 ("varint") encoding, as used for ID addresses and HAMT sector keys.

use vstd::prelude::*;

verus! {

/// The unsigned LEB128 encoding of `n`: seven bits per byte, least significant group
/// first, with the high bit set on every byte but the last.
pub open spec fn leb128(n: nat) -> Seq<u8>
    decreases n,
{
    if n < 128 {
        seq![n as u8]
    } else {
        seq![((n % 128) + 128) as u8] + leb128(n / 128)
    }
}

/// Calls `unsigned_varint::encode::u64`, which writes the LEB128 groups of `n` into a
/// buffer and returns the written prefix. The contract claims the bytes are exactly
/// `leb128(n)`.
#[verifier::external_body]
fn encode_u64(n: u64) -> (res: Vec<u8>)
    ensures
        res@ == leb128(n as nat),
{
    let mut buffer = unsigned_varint::encode::u64_buffer();
    unsigned_varint::encode::u64(n, &mut buffer).to_vec()
}

/// The HAMT key of a sector number: its unsigned varint encoding.
pub fn sector_key(sector: u64) -> (res: Vec<u8>)
    ensures
        res@ == leb128(sector as nat),
{
    encode_u64(sector)
}


/// The value of the LEB128 number at the start of `s`, reading at most `n` bytes; `None`
/// when the number does not end within them.
pub open spec fn leb128_prefix(s: Seq<u8>, n: nat) -> Option<nat>
    decreases n,
{
    if n == 0 || s.len() == 0 {
        None
    } else if s[0] < 128 {
        Some(s[0] as nat)
    } else {
        match leb128_prefix(s.drop_first(), (n - 1) as nat) {
            Some(v) => Some(((s[0] - 128) + 128 * v) as nat),
            None => None,
        }
    }
}

/// `128^n`.
pub open spec fn leb_bound(n: nat) -> nat
    decreases n,
{
    if n == 0 { 1 } else { 128 * leb_bound((n - 1) as nat) }
}

proof fn lemma_leb_bound(n: nat)
    requires
        n <= 9,
    ensures
        leb_bound(n) <= 0x8000_0000_0000_0000,
        n >= 1 ==> leb_bound((n - 1) as nat) <= 0x100_0000_0000_0000,
    decreases n,
{
    if n > 0 {
        lemma_leb_bound((n - 1) as nat);
    }
    if n == 9 {
        reveal_with_fuel(leb_bound, 10);
    }
    if n <= 8 {
        reveal_with_fuel(leb_bound, 10);
        assert(leb_bound(n) <= leb_bound(8)) by {
            lemma_leb_bound_mono(n, 8);
        }
    }
}

proof fn lemma_leb_bound_mono(a: nat, b: nat)
    requires
        a <= b,
    ensures
        leb_bound(a) <= leb_bound(b),
    decreases b - a,
{
    if a < b {
        lemma_leb_bound_mono(a, (b - 1) as nat);
        assert(leb_bound(b) == 128 * leb_bound((b - 1) as nat));
    }
}

proof fn lemma_leb_prefix_bound(s: Seq<u8>, n: nat)
    ensures
        leb128_prefix(s, n) matches Some(v) ==> v < leb_bound(n),
    decreases n,
{
    if n > 0 {
        lemma_leb_bound_pos((n - 1) as nat);
        let b = leb_bound((n - 1) as nat);
        assert(leb_bound(n) == 128 * b);
        if s.len() > 0 && s[0] >= 128 {
            lemma_leb_prefix_bound(s.drop_first(), (n - 1) as nat);
            if let Some(v) = leb128_prefix(s.drop_first(), (n - 1) as nat) {
                let x = s[0] - 128;
                assert(x + 128 * v < 128 * b) by (nonlinear_arith)
                    requires 0 <= x < 128, 0 <= v < b;
            }
        } else if s.len() > 0 {
            assert(128 <= 128 * b) by (nonlinear_arith) requires b >= 1;
        }
    }
}

proof fn lemma_leb_bound_pos(n: nat)
    ensures
        leb_bound(n) >= 1,
    decreases n,
{
    if n > 0 {
        lemma_leb_bound_pos((n - 1) as nat);
    }
}

/// Reads the LEB128 number at `start` in `s`, using at most `n` (up to nine) bytes.
pub fn leb128_decode(s: &[u8], start: usize, n: u64) -> (res: Option<u64>)
    requires
        n <= 9,
        start <= s@.len(),
    ensures
        match leb128_prefix(s@.skip(start as int), n as nat) {
            Some(v) => res == Some(v as u64),
            None => res is None,
        },
    decreases n,
{
    if n == 0 || start >= s.len() {
        return None;
    }
    let b = s[start];
    assert(s@.skip(start as int)[0] == b);
    if b < 128 {
        return Some(b as u64);
    }
    assert(s@.skip(start as int).drop_first() =~= s@.skip(start + 1));
    match leb128_decode(s, start + 1, n - 1) {
        Some(v) => {
            proof {
                lemma_leb_prefix_bound(s@.skip(start + 1), (n - 1) as nat);
                lemma_leb_bound(n as nat);
            }
            Some((b - 128) as u64 + 128 * v)
        },
        None => None,
    }
}

} // verus!
