//! Filecoin addresses, held as their protocol byte and raw payload.

use vstd::prelude::*;
use crate::varint::leb128;

verus! {

/// Protocol byte of an ID address.
pub const PROTOCOL_ID: u8 = 0;
/// Protocol byte of a delegated (f4) address.
pub const PROTOCOL_DELEGATED: u8 = 4;

/// An address: the protocol byte and the payload that follows it in the byte encoding.
#[derive(Debug)]
pub struct Address {
    pub protocol: u8,
    pub payload: Vec<u8>,
}

impl View for Address {
    type V = Seq<u8>;

    /// The address's byte encoding (protocol byte, then payload); addresses are keyed by it.
    open spec fn view(&self) -> Seq<u8> {
        seq![self.protocol] + self.payload@
    }
}

/// The byte encoding of the ID address for `id`.
pub open spec fn id_address(id: u64) -> Seq<u8> {
    seq![PROTOCOL_ID] + leb128(id as nat)
}

/// Calls `fvm_shared::address::Payload::to_raw_bytes` on the payload of
/// `Address::new_id(id)`: the raw payload of an ID address is the LEB128 encoding of the id.
#[verifier::external_body]
fn id_payload_bytes(id: u64) -> (res: Vec<u8>)
    ensures
        res@ == leb128(id as nat),
{
    fvm_shared::address::Address::new_id(id).into_payload().to_raw_bytes()
}

/// Byte-wise equality of two byte strings.
pub fn bytes_eq(a: &[u8], b: &[u8]) -> (res: bool)
    ensures
        res == (a@ == b@),
{
    if a.len() != b.len() {
        return false;
    }
    let mut i: usize = 0;
    while i < a.len()
        invariant
            i <= a.len(),
            a.len() == b.len(),
            forall|j: int| 0 <= j < i ==> a@[j] == b@[j],
        decreases a.len() - i,
    {
        if a[i] != b[i] {
            return false;
        }
        i = i + 1;
    }
    assert(a@ =~= b@);
    true
}

impl Clone for Address {
    fn clone(&self) -> (res: Self)
        ensures
            res@ == self@,
            res.protocol == self.protocol,
            res.payload@ == self.payload@,
    {
        let payload = self.payload.clone();
        assert(payload@ =~= self.payload@);
        Address { protocol: self.protocol, payload }
    }
}

impl Address {
    /// The ID address of actor `id`.
    pub fn new_id(id: u64) -> (res: Address)
        ensures
            res@ == id_address(id),
            res.protocol == PROTOCOL_ID,
    {
        Address { protocol: PROTOCOL_ID, payload: id_payload_bytes(id) }
    }

    /// The protocol byte.
    pub fn protocol(&self) -> (res: u8)
        ensures
            res == self.protocol,
            res == self@[0],
    {
        self.protocol
    }

    /// Whether two addresses have the same byte encoding.
    pub fn same_as(&self, other: &Address) -> (res: bool)
        ensures
            res == (self@ == other@),
    {
        let eq = self.protocol == other.protocol && bytes_eq(self.payload.as_slice(), other.payload.as_slice());
        proof {
            if self.protocol == other.protocol && self.payload@ == other.payload@ {
                assert(self@ =~= other@);
            }
            if self@ == other@ {
                assert(self@[0] == other@[0]);
                assert(self.payload@ =~= self@.drop_first());
                assert(other.payload@ =~= other@.drop_first());
            }
        }
        eq
    }

    /// The address's byte encoding.
    pub fn to_bytes(&self) -> (res: Vec<u8>)
        ensures
            res@ == self@,
    {
        let mut res = Vec::new();
        res.push(self.protocol);
        let mut i: usize = 0;
        while i < self.payload.len()
            invariant
                i <= self.payload.len(),
                res@ == seq![self.protocol] + self.payload@.take(i as int),
            decreases self.payload.len() - i,
        {
            res.push(self.payload[i]);
            assert(self.payload@.take((i + 1) as int) =~= self.payload@.take(i as int).push(self.payload@[i as int]));
            i = i + 1;
        }
        assert(self.payload@.take(self.payload@.len() as int) =~= self.payload@);
        res
    }
}

/// Whether `addr` is among `list` (by byte encoding).
pub fn contains_address(list: &[Address], addr: &Address) -> (res: bool)
    ensures
        res == exists|i: int| 0 <= i < list@.len() && (#[trigger] list@[i])@ == addr@,
{
    let mut i: usize = 0;
    while i < list.len()
        invariant
            i <= list.len(),
            forall|j: int| 0 <= j < i ==> (#[trigger] list@[j])@ != addr@,
        decreases list.len() - i,
    {
        if list[i].same_as(addr) {
            return true;
        }
        i = i + 1;
    }
    false
}

} // verus!
