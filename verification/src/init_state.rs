//! The init actor's address registry: robust addresses mapped to allocated actor IDs.

use vstd::prelude::*;
use crate::addr_map::AddrMap;
use crate::address::{id_address, Address, PROTOCOL_ID};

verus! {

/// First ID available after the built-in singleton actors.
pub const FIRST_NON_SINGLETON_ADDR: u64 = 100;

/// Init actor state.
#[derive(Debug)]
pub struct State {
    /// Robust address (by byte encoding) to actor ID.
    pub address_map: AddrMap<u64>,
    pub next_id: u64,
    pub network_name: String,
}

/// What `resolve_address` returns for an address, as a byte encoding.
pub open spec fn resolve_spec(address_map: Map<Seq<u8>, u64>, addr: Seq<u8>) -> Option<Seq<u8>> {
    if addr[0] == PROTOCOL_ID {
        Some(addr)
    } else if address_map.dom().contains(addr) {
        Some(id_address(address_map[addr]))
    } else {
        None
    }
}

impl State {
    /// A registry over the given address map, allocating from the first non-singleton ID.
    pub fn new(address_map: AddrMap<u64>, network_name: String) -> (res: State)
        ensures
            res.address_map == address_map,
            res.next_id == FIRST_NON_SINGLETON_ADDR,
            res.network_name == network_name,
    {
        State { address_map, next_id: FIRST_NON_SINGLETON_ADDR, network_name }
    }

    /// Allocates the next ID, maps `addr` to it and returns the new ID address.
    pub fn map_address_to_new_id(&mut self, addr: &Address) -> (res: Address)
        requires
            old(self).address_map.wf(),
            old(self).next_id < u64::MAX,
        ensures
            final(self).address_map.wf(),
            final(self).next_id == old(self).next_id + 1,
            final(self).address_map.map() == old(self).address_map.map().insert(addr@, old(self).next_id),
            res@ == id_address(old(self).next_id),
            final(self).network_name == old(self).network_name,
    {
        let id = self.next_id;
        self.next_id = self.next_id + 1;
        self.address_map.set(addr, id);
        Address::new_id(id)
    }

    /// Resolves an address to an ID address: ID addresses pass through unchanged, others
    /// are looked up in the map; `None` when not found.
    pub fn resolve_address(&self, addr: &Address) -> (res: Option<Address>)
        requires
            self.address_map.wf(),
        ensures
            res is Some <==> resolve_spec(self.address_map.map(), addr@) is Some,
            res matches Some(a) ==> resolve_spec(self.address_map.map(), addr@) == Some(a@),
    {
        if addr.protocol() == PROTOCOL_ID {
            return Some(addr.clone());
        }
        match self.address_map.get(addr) {
            Some(id) => Some(Address::new_id(id)),
            None => None,
        }
    }
}

/// A robust address mapped to a new ID resolves to that ID address.
pub proof fn lemma_resolve_after_map(address_map: Map<Seq<u8>, u64>, addr: Seq<u8>, id: u64)
    requires
        addr.len() > 0,
        addr[0] != PROTOCOL_ID,
    ensures
        resolve_spec(address_map.insert(addr, id), addr) == Some(id_address(id)),
{
}

/// Mapping one address leaves the resolution of every other address unchanged.
pub proof fn lemma_map_preserves_other_resolutions(address_map: Map<Seq<u8>, u64>, addr: Seq<u8>, other: Seq<u8>, id: u64)
    requires
        other != addr,
    ensures
        resolve_spec(address_map.insert(addr, id), other) == resolve_spec(address_map, other),
{
}

} // verus!
