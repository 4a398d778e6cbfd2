//! The RLE+ bitfield of `fvm_ipld_bitfield`, which the actors use as a set of sector
//! numbers and deadline indices, with the operations the library calls on it.

use vstd::prelude::*;
use fvm_ipld_bitfield::BitField;

verus! {

#[verifier::external_type_specification]
#[verifier::external_body]
pub struct ExBitField(fvm_ipld_bitfield::BitField);

/// The set of bits that a bitfield holds.
pub uninterp spec fn bits_of(b: BitField) -> Set<u64>;

/// Calls `BitField::new`, which makes a bitfield with no bits set.
#[verifier::external_body]
pub(crate) fn bitfield_new() -> (res: BitField)
    ensures
        bits_of(res) == Set::<u64>::empty(),
{
    BitField::new()
}

/// Calls `BitField::get`, which tells whether bit `n` is set.
#[verifier::external_body]
pub(crate) fn bitfield_get(b: &BitField, n: u64) -> (res: bool)
    ensures
        res == bits_of(*b).contains(n),
{
    b.get(n)
}

/// Calls `BitField::set`, which sets bit `n` and leaves the others. It panics on
/// `u64::MAX`, which the precondition leaves out.
#[verifier::external_body]
pub(crate) fn bitfield_set(b: &mut BitField, n: u64)
    requires
        n != u64::MAX,
    ensures
        bits_of(*final(b)) == bits_of(*old(b)).insert(n),
{
    b.set(n)
}

/// Calls `BitField::is_empty`, which tells whether no bit is set.
#[verifier::external_body]
pub(crate) fn bitfield_is_empty(b: &BitField) -> (res: bool)
    ensures
        res == (bits_of(*b) == Set::<u64>::empty()),
{
    b.is_empty()
}

/// Calls `|` on two bitfields (`BitOr`), which gives the bits set in either.
#[verifier::external_body]
pub(crate) fn bitfield_union(a: &BitField, b: &BitField) -> (res: BitField)
    ensures
        bits_of(res) == bits_of(*a).union(bits_of(*b)),
{
    a | b
}

/// Calls `&` on two bitfields (`BitAnd`), which gives the bits set in both.
#[verifier::external_body]
pub(crate) fn bitfield_intersection(a: &BitField, b: &BitField) -> (res: BitField)
    ensures
        bits_of(res) == bits_of(*a).intersect(bits_of(*b)),
{
    a & b
}

/// Calls `BitField::contains_all`, which tells whether every bit set in `other` is set in
/// `b`.
#[verifier::external_body]
pub(crate) fn bitfield_contains_all(b: &BitField, other: &BitField) -> (res: bool)
    ensures
        res == bits_of(*other).subset_of(bits_of(*b)),
{
    b.contains_all(other)
}

/// Calls `BitField::clone`, which copies the set bits.
#[verifier::external_body]
pub(crate) fn bitfield_clone(b: &BitField) -> (res: BitField)
    ensures
        bits_of(res) == bits_of(*b),
{
    b.clone()
}

} // verus!
