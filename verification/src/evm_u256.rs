//! 256-bit EVM words, held as their 32 big-endian bytes.

use vstd::prelude::*;
use vstd::arithmetic::power::pow;

verus! {

/// Bytes in an EVM word.
pub const EVM_WORD_SIZE: usize = 32;

/// The number whose big-endian bytes are `s`.
pub open spec fn be_nat(s: Seq<u8>) -> nat
    decreases s.len(),
{
    if s.len() == 0 {
        0
    } else {
        (be_nat(s.drop_last()) * 256 + s.last()) as nat
    }
}

/// `be_nat` of a concatenation.
pub proof fn lemma_be_append(a: Seq<u8>, b: Seq<u8>)
    ensures
        be_nat(a + b) == be_nat(a) * pow(256, b.len()) + be_nat(b),
    decreases b.len(),
{
    if b.len() == 0 {
        assert(a + b =~= a);
        vstd::arithmetic::power::lemma_pow0(256);
    } else {
        lemma_be_append(a, b.drop_last());
        assert((a + b).drop_last() =~= a + b.drop_last());
        assert((a + b).last() == b.last());
        vstd::arithmetic::power::lemma_pow_adds(256, (b.len() - 1) as nat, 1);
        vstd::arithmetic::power::lemma_pow1(256);
        let p = pow(256, (b.len() - 1) as nat);
        assert(be_nat(a + b) == (be_nat(a) * p + be_nat(b.drop_last())) * 256 + b.last());
        assert((be_nat(a) * p + be_nat(b.drop_last())) * 256 + b.last()
            == be_nat(a) * (p * 256) + (be_nat(b.drop_last()) * 256 + b.last())) by (nonlinear_arith);
    }
}

/// `be_nat(s) < 256^len(s)`.
pub proof fn lemma_be_bound(s: Seq<u8>)
    ensures
        be_nat(s) < pow(256, s.len()),
    decreases s.len(),
{
    if s.len() == 0 {
        vstd::arithmetic::power::lemma_pow0(256);
    } else {
        lemma_be_bound(s.drop_last());
        vstd::arithmetic::power::lemma_pow_adds(256, (s.len() - 1) as nat, 1);
        vstd::arithmetic::power::lemma_pow1(256);
        let p = pow(256, (s.len() - 1) as nat);
        assert(be_nat(s.drop_last()) * 256 + s.last() < p * 256) by (nonlinear_arith)
            requires be_nat(s.drop_last()) < p, s.last() < 256;
    }
}

/// `be_nat(s) == 0` exactly when every byte is zero.
pub proof fn lemma_be_zero(s: Seq<u8>)
    ensures
        (be_nat(s) == 0) == (forall|i: int| 0 <= i < s.len() ==> s[i] == 0),
    decreases s.len(),
{
    if s.len() > 0 {
        lemma_be_zero(s.drop_last());
        if be_nat(s) == 0 {
            assert(s.last() == 0);
            assert forall|i: int| 0 <= i < s.len() implies s[i] == 0 by {
                if i < s.len() - 1 {
                    assert(s.drop_last()[i] == s[i]);
                }
            }
        }
        if forall|i: int| 0 <= i < s.len() ==> s[i] == 0 {
            assert forall|i: int| 0 <= i < s.drop_last().len() implies s.drop_last()[i] == 0 by {
                assert(s.drop_last()[i] == s[i]);
            }
            assert(s.last() == s[s.len() - 1]);
        }
    }
}

/// The last byte is the value modulo 256.
pub proof fn lemma_be_last(s: Seq<u8>)
    requires
        s.len() > 0,
    ensures
        be_nat(s) % 256 == s.last(),
{
    vstd::arithmetic::div_mod::lemma_fundamental_div_mod_converse(be_nat(s) as int, 256, be_nat(s.drop_last()) as int, s.last() as int);
}

/// Byte strings of one length with the same value are equal.
pub proof fn lemma_be_injective(a: Seq<u8>, b: Seq<u8>)
    requires
        a.len() == b.len(),
        be_nat(a) == be_nat(b),
    ensures
        a == b,
    decreases a.len(),
{
    if a.len() > 0 {
        lemma_be_last(a);
        lemma_be_last(b);
        assert(a.last() == b.last());
        assert(be_nat(a.drop_last()) == be_nat(b.drop_last()));
        lemma_be_injective(a.drop_last(), b.drop_last());
        assert(a =~= a.drop_last().push(a.last()));
        assert(b =~= b.drop_last().push(b.last()));
    } else {
        assert(a =~= b);
    }
}

/// Of two byte strings of one length that agree before position `k` and differ there, the
/// one with the smaller byte at `k` has the smaller value.
pub proof fn lemma_be_lt(a: Seq<u8>, b: Seq<u8>, k: int)
    requires
        a.len() == b.len(),
        0 <= k < a.len(),
        a.subrange(0, k) == b.subrange(0, k),
        a[k] < b[k],
    ensures
        be_nat(a) < be_nat(b),
{
    let n = a.len() as int;
    let ah = a.subrange(0, k + 1);
    let bh = b.subrange(0, k + 1);
    let at = a.subrange(k + 1, n);
    let bt = b.subrange(k + 1, n);
    assert(a =~= ah + at);
    assert(b =~= bh + bt);
    lemma_be_append(ah, at);
    lemma_be_append(bh, bt);
    lemma_be_bound(at);
    assert(ah.drop_last() =~= a.subrange(0, k));
    assert(bh.drop_last() =~= b.subrange(0, k));
    assert(be_nat(ah) + 1 <= be_nat(bh));
    let p = pow(256, at.len());
    assert(bt.len() == at.len());
    assert(be_nat(a) < be_nat(b)) by (nonlinear_arith)
        requires
            be_nat(a) == be_nat(ah) * p + be_nat(at),
            be_nat(b) == be_nat(bh) * p + be_nat(bt),
            be_nat(at) < p,
            be_nat(ah) + 1 <= be_nat(bh),
            be_nat(bt) >= 0,
    ;
}

pub proof fn lemma_pow256_8()
    ensures
        pow(256, 8) == 0x1_0000_0000_0000_0000,
{
    reveal_with_fuel(pow, 9);
}

/// An unsigned 256-bit integer.
#[derive(Clone, Copy, Debug)]
pub struct U256 {
    /// Big-endian bytes.
    pub bytes: [u8; 32],
}

impl U256 {
    /// The number.
    pub open spec fn value(&self) -> nat {
        be_nat(self.bytes@)
    }

    /// The word whose value has the big-endian bytes `bytes` (at most 32 of them): the bytes
    /// right-aligned, with zeros before them.
    pub fn from_big_endian(bytes: &[u8]) -> (res: U256)
        requires
            bytes@.len() <= 32,
        ensures
            res.bytes@ == Seq::new((32 - bytes@.len()) as nat, |i: int| 0u8) + bytes@,
            res.value() == be_nat(bytes@),
    {
        let pad: usize = 32 - bytes.len();
        let mut out = [0u8; 32];
        let mut i: usize = 0;
        while i < bytes.len()
            invariant
                i <= bytes@.len(),
                bytes@.len() <= 32,
                pad == 32 - bytes@.len(),
                out@.len() == 32,
                forall|j: int| 0 <= j < pad ==> out@[j] == 0,
                forall|j: int| 0 <= j < i ==> out@[pad + j] == bytes@[j],
            decreases bytes@.len() - i,
        {
            out[pad + i] = bytes[i];
            i = i + 1;
        }
        let ghost zeros = Seq::new(pad as nat, |i: int| 0u8);
        assert(out@ =~= zeros + bytes@);
        proof {
            lemma_be_append(zeros, bytes@);
            lemma_be_zero(zeros);
        }
        U256 { bytes: out }
    }

    /// The 32 big-endian bytes.
    pub fn to_big_endian(&self) -> (res: [u8; 32])
        ensures
            res@ == self.bytes@,
            be_nat(res@) == self.value(),
    {
        self.bytes
    }

    /// The word holding `v`.
    pub fn from_u64(v: u64) -> (res: U256)
        ensures
            res.value() == v,
    {
        let mut out = [0u8; 32];
        let mut x = v;
        let mut i: usize = 32;
        proof {
            vstd::arithmetic::power::lemma_pow0(256);
            lemma_pow256_8();
            assert(out@.subrange(32, 32) =~= Seq::<u8>::empty());
        }
        while i > 24
            invariant
                24 <= i <= 32,
                out@.len() == 32,
                forall|j: int| 0 <= j < i ==> out@[j] == 0,
                v == x * pow(256, (32 - i) as nat) + be_nat(out@.subrange(i as int, 32)),
                x < pow(256, (i - 24) as nat),
            decreases i,
        {
            i = i - 1;
            let b = (x % 256) as u8;
            let ghost old_out = out@;
            let ghost old_x = x;
            out[i] = b;
            x = x / 256;
            proof {
                assert(out@.subrange(i as int, 32) =~= seq![b] + old_out.subrange((i + 1) as int, 32));
                lemma_be_append(seq![b], old_out.subrange((i + 1) as int, 32));
                assert(be_nat(seq![b]) == b) by {
                    assert(seq![b].drop_last() =~= Seq::<u8>::empty());
                    assert(be_nat(Seq::<u8>::empty()) == 0);
                    assert(seq![b].last() == b);
                }
                vstd::arithmetic::power::lemma_pow_adds(256, 1, (31 - i) as nat);
                vstd::arithmetic::power::lemma_pow1(256);
                vstd::arithmetic::div_mod::lemma_fundamental_div_mod(old_x as int, 256);
                let p = pow(256, (31 - i) as nat);
                assert(v == old_x * p + be_nat(old_out.subrange((i + 1) as int, 32)));
                assert(old_x * p == (x * 256 + b) * p) by {
                    assert(old_x == 256 * x + b);
                }
                assert((x * 256 + b) * p == x * (256 * p) + b * p) by (nonlinear_arith);
                vstd::arithmetic::power::lemma_pow_adds(256, 1, (i - 24) as nat);
                assert(x < pow(256, (i - 24) as nat)) by (nonlinear_arith)
                    requires old_x < 256 * pow(256, (i - 24) as nat), x == old_x / 256 {
                    vstd::arithmetic::div_mod::lemma_div_is_ordered(old_x as int, 256 * pow(256, (i - 24) as nat) - 1, 256);
                    vstd::arithmetic::div_mod::lemma_fundamental_div_mod_converse(256 * pow(256, (i - 24) as nat) - 1, 256, pow(256, (i - 24) as nat) - 1, 255);
                }
            }
        }
        proof {
            vstd::arithmetic::power::lemma_pow0(256);
            assert(x == 0);
            assert(out@ =~= out@.subrange(0, 24) + out@.subrange(24, 32));
            lemma_be_append(out@.subrange(0, 24), out@.subrange(24, 32));
            lemma_be_zero(out@.subrange(0, 24));
        }
        U256 { bytes: out }
    }

    /// The value of the low 8 bytes, `value % 2^64`.
    pub fn low_u64(&self) -> (res: u64)
        ensures
            res == self.value() % 0x1_0000_0000_0000_0000,
    {
        let mut acc: u64 = 0;
        let mut i: usize = 24;
        proof {
            vstd::arithmetic::power::lemma_pow0(256);
            assert(self.bytes@.subrange(24, 24) =~= Seq::<u8>::empty());
        }
        while i < 32
            invariant
                24 <= i <= 32,
                acc == be_nat(self.bytes@.subrange(24, i as int)),
                acc < pow(256, (i - 24) as nat),
            decreases 32 - i,
        {
            proof {
                assert(self.bytes@.subrange(24, (i + 1) as int).drop_last() =~= self.bytes@.subrange(24, i as int));
                vstd::arithmetic::power::lemma_pow_adds(256, (i - 24) as nat, 1);
                vstd::arithmetic::power::lemma_pow1(256);
                lemma_pow256_8();
                vstd::arithmetic::power::lemma_pow_increases(256, (i + 1 - 24) as nat, 8);
                assert(acc * 256 + self.bytes@[i as int] < pow(256, (i + 1 - 24) as nat)) by (nonlinear_arith)
                    requires acc < pow(256, (i - 24) as nat), self.bytes@[i as int] < 256,
                        pow(256, (i + 1 - 24) as nat) == pow(256, (i - 24) as nat) * 256;
            }
            acc = acc * 256 + self.bytes[i] as u64;
            i = i + 1;
        }
        proof {
            assert(self.bytes@ =~= self.bytes@.subrange(0, 24) + self.bytes@.subrange(24, 32));
            lemma_be_append(self.bytes@.subrange(0, 24), self.bytes@.subrange(24, 32));
            lemma_pow256_8();
            lemma_be_bound(self.bytes@.subrange(24, 32));
            vstd::arithmetic::div_mod::lemma_fundamental_div_mod_converse(self.value() as int, 0x1_0000_0000_0000_0000,
                be_nat(self.bytes@.subrange(0, 24)) as int, acc as int);
        }
        acc
    }

    /// Whether the value is below 2^64.
    pub fn fits_u64(&self) -> (res: bool)
        ensures
            res == (self.value() < 0x1_0000_0000_0000_0000),
    {
        let mut i: usize = 0;
        while i < 24
            invariant
                i <= 24,
                forall|j: int| 0 <= j < i ==> self.bytes@[j] == 0,
            decreases 24 - i,
        {
            if self.bytes[i] != 0 {
                proof { self.lemma_high_zero(); }
                return false;
            }
            i = i + 1;
        }
        proof { self.lemma_high_zero(); }
        true
    }

    proof fn lemma_high_zero(&self)
        ensures
            (self.value() < 0x1_0000_0000_0000_0000) == (forall|j: int| 0 <= j < 24 ==> self.bytes@[j] == 0),
    {
        let hi = self.bytes@.subrange(0, 24);
        let lo = self.bytes@.subrange(24, 32);
        assert(self.bytes@ =~= hi + lo);
        lemma_be_append(hi, lo);
        lemma_pow256_8();
        lemma_be_bound(lo);
        lemma_be_zero(hi);
        if forall|j: int| 0 <= j < 24 ==> self.bytes@[j] == 0 {
            assert forall|j: int| 0 <= j < hi.len() implies hi[j] == 0 by {
                assert(hi[j] == self.bytes@[j]);
            }
        } else {
            let j = choose|j: int| 0 <= j < 24 && self.bytes@[j] != 0;
            assert(hi[j] != 0);
            assert(be_nat(hi) >= 1);
            assert(be_nat(hi) * 0x1_0000_0000_0000_0000 >= 0x1_0000_0000_0000_0000) by (nonlinear_arith)
                requires be_nat(hi) >= 1;
        }
    }

    /// `value % 2^32`.
    pub fn low_u32(&self) -> (res: u32)
        ensures
            res == self.value() % 0x1_0000_0000,
    {
        let low = self.low_u64();
        proof {
            vstd::arithmetic::div_mod::lemma_mod_mod(self.value() as int, 0x1_0000_0000, 0x1_0000_0000);
        }
        (low % 0x1_0000_0000) as u32
    }

    /// The value as a `u32`, if it fits.
    pub fn to_u32(&self) -> (res: Option<u32>)
        ensures
            res is Some <==> self.value() < 0x1_0000_0000,
            res matches Some(v) ==> v == self.value(),
    {
        if self.fits_u64() {
            let low = self.low_u64();
            if low <= 0xffff_ffff {
                return Some(low as u32);
            }
        }
        None
    }

    /// Whether the value is below that of `other`.
    pub fn lt(&self, other: &U256) -> (res: bool)
        ensures
            res == (self.value() < other.value()),
    {
        let mut i: usize = 0;
        while i < 32
            invariant
                i <= 32,
                self.bytes@.subrange(0, i as int) == other.bytes@.subrange(0, i as int),
            decreases 32 - i,
        {
            if self.bytes[i] != other.bytes[i] {
                proof {
                    if self.bytes@[i as int] < other.bytes@[i as int] {
                        lemma_be_lt(self.bytes@, other.bytes@, i as int);
                    } else {
                        lemma_be_lt(other.bytes@, self.bytes@, i as int);
                    }
                }
                return self.bytes[i] < other.bytes[i];
            }
            assert(self.bytes@.subrange(0, (i + 1) as int) =~= self.bytes@.subrange(0, i as int).push(self.bytes@[i as int]));
            assert(other.bytes@.subrange(0, (i + 1) as int) =~= other.bytes@.subrange(0, i as int).push(other.bytes@[i as int]));
            i = i + 1;
        }
        assert(self.bytes@ =~= self.bytes@.subrange(0, 32));
        assert(other.bytes@ =~= other.bytes@.subrange(0, 32));
        false
    }

    /// Whether the value is below `b`.
    pub fn lt_u64(&self, b: u64) -> (res: bool)
        ensures
            res == (self.value() < b),
    {
        self.fits_u64() && self.low_u64() < b
    }
}

/// A word is determined by its value: two words of equal value are the same word.
pub proof fn lemma_u256_value_determines_word(x: U256, y: U256)
    requires
        x.value() == y.value(),
    ensures
        x == y,
{
    lemma_be_injective(x.bytes@, y.bytes@);
    assert(x.bytes@ =~= y.bytes@);
    assert(x.bytes == y.bytes);
}

} // verus!
