//! The verified registry's verifiers, allocations and claims.

use vstd::prelude::*;
use crate::addr_map::AddrMap;
use crate::address::Address;
use crate::error::ActorError;
use crate::id_map::IdMap;
use crate::policy::ChainEpoch;

verus! {

/// Amount of data cap, in bytes.
pub type DataCap = i128;

/// A pending allocation of data cap from a client to a provider.
#[derive(Debug)]
pub struct Allocation {
    /// The verified client which allocated the data cap.
    pub client: u64,
    /// The provider (miner actor) which may claim the allocation.
    pub provider: u64,
    /// Identifier (CID bytes) of the data to be committed.
    pub data: Vec<u8>,
    /// The padded size of the data.
    pub size: u64,
    /// Minimum duration the provider must store the piece.
    pub term_min: ChainEpoch,
    /// Maximum duration the provider can earn quality-adjusted power for the piece.
    pub term_max: ChainEpoch,
    /// Latest epoch by which the provider must commit the data.
    pub expiration: ChainEpoch,
}

/// An allocation claimed by a provider.
#[derive(Debug)]
pub struct Claim {
    pub provider: u64,
    pub client: u64,
    pub data: Vec<u8>,
    pub size: u64,
    pub term_min: ChainEpoch,
    pub term_max: ChainEpoch,
    /// Epoch at which the piece was committed.
    pub term_start: ChainEpoch,
    /// Sector in which the data is committed.
    pub sector: u64,
}

/// A two-level map: outer key (actor ID), then inner key (allocation or claim ID).
pub type MapMap<V> = IdMap<u64, IdMap<u64, V>>;

/// Every inner map is well formed.
pub open spec fn map_map_wf<V>(m: &MapMap<V>) -> bool {
    &&& m.wf()
    &&& forall|k: u64| #[trigger] m.map().dom().contains(k) ==> m.map()[k].wf()
}

/// The entry under `(outer, inner)`, if any.
pub open spec fn map_map_get<V>(m: &MapMap<V>, outer: u64, inner: u64) -> Option<V> {
    if m.map().dom().contains(outer) && m.map()[outer].map().dom().contains(inner) {
        Some(m.map()[outer].map()[inner])
    } else {
        None
    }
}

/// Stores `value` under `(outer, inner)`, creating the inner map if needed.
fn map_map_put<V>(m: &mut MapMap<V>, outer: u64, inner: u64, value: V)
    requires
        map_map_wf(old(m)),
    ensures
        map_map_wf(final(m)),
        forall|o: u64, i: u64| #[trigger] map_map_get(final(m), o, i) == if o == outer && i == inner {
            Some(value)
        } else {
            map_map_get(old(m), o, i)
        },
{
    let inner_map = m.delete(outer);
    let mut inner_map = match inner_map {
        Some(im) => im,
        None => IdMap::new(),
    };
    let ghost before_inner = inner_map.map();
    inner_map.set(inner, value);
    m.set(outer, inner_map);
    proof {
        assert forall|k: u64| #[trigger] m.map().dom().contains(k) implies m.map()[k].wf() by {
            if k != outer {
                assert(old(m).map().dom().contains(k));
            }
        }
        assert forall|o: u64, i: u64| #[trigger] map_map_get(m, o, i) == if o == outer && i == inner {
            Some(value)
        } else {
            map_map_get(old(m), o, i)
        } by {
            if o == outer {
                if old(m).map().dom().contains(outer) {
                    assert(before_inner == old(m).map()[outer].map());
                } else {
                    assert(before_inner == Map::<u64, V>::empty());
                }
            }
        }
    }
}

/// The entry under `(outer, inner)`, if any.
fn map_map_lookup<V>(m: &MapMap<V>, outer: u64, inner: u64) -> (res: Option<&V>)
    requires
        map_map_wf(m),
    ensures
        res is Some <==> map_map_get(m, outer, inner) is Some,
        res matches Some(v) ==> Some(*v) == map_map_get(m, outer, inner),
{
    match m.get(outer) {
        Some(im) => im.get(inner),
        None => None,
    }
}

/// Verified registry state.
#[derive(Debug)]
pub struct State {
    pub root_key: Address,
    /// Verifier address to data cap allowance.
    pub verifiers: AddrMap<DataCap>,
    /// Client ID, then allocation ID, to allocation.
    pub allocations: MapMap<Allocation>,
    /// Next allocation identifier to use; 0 is reserved for "no allocation".
    pub next_allocation_id: u64,
    /// Provider ID, then claim ID, to claim.
    pub claims: MapMap<Claim>,
}

/// The allocation IDs `first, first + 1, ..., first + count - 1`.
pub open spec fn consecutive_ids(first: u64, count: nat) -> Seq<u64> {
    Seq::new(count, |i: int| (first + i) as u64)
}

impl State {
    /// The registry's well-formedness.
    pub open spec fn wf(&self) -> bool {
        &&& self.verifiers.wf()
        &&& map_map_wf(&self.allocations)
        &&& map_map_wf(&self.claims)
    }

    /// An empty registry governed by `root_key`.
    pub fn new(root_key: Address) -> (res: State)
        ensures
            res.wf(),
            res.root_key@ == root_key@,
            res.verifiers.map() == Map::<Seq<u8>, DataCap>::empty(),
            forall|o: u64, i: u64| map_map_get(&res.allocations, o, i) is None,
            forall|o: u64, i: u64| map_map_get(&res.claims, o, i) is None,
            res.next_allocation_id == 1,
    {
        State {
            root_key,
            verifiers: AddrMap::new(),
            allocations: IdMap::new(),
            next_allocation_id: 1,
            claims: IdMap::new(),
        }
    }

    /// Adds a verifier with cap `cap`, replacing any existing cap.
    pub fn put_verifier(&mut self, verifier: &Address, cap: DataCap)
        requires
            old(self).wf(),
        ensures
            final(self).wf(),
            final(self).verifiers.map() == old(self).verifiers.map().insert(verifier@, cap),
            final(self).next_allocation_id == old(self).next_allocation_id,
    {
        self.verifiers.set(verifier, cap);
    }

    /// Removes a verifier; fails with an illegal-argument error if it is not present.
    pub fn remove_verifier(&mut self, verifier: &Address) -> (res: Result<(), ActorError>)
        requires
            old(self).wf(),
        ensures
            final(self).wf(),
            res is Ok <==> old(self).verifiers.map().dom().contains(verifier@),
            res is Err ==> res == Err::<(), ActorError>(ActorError::illegal_argument_spec()),
            final(self).verifiers.map() == old(self).verifiers.map().remove(verifier@),
            final(self).next_allocation_id == old(self).next_allocation_id,
    {
        match self.verifiers.delete(verifier) {
            Some(_) => Ok(()),
            None => Err(ActorError::illegal_argument()),
        }
    }

    /// The cap of a verifier, if it is one.
    pub fn get_verifier_cap(&self, verifier: &Address) -> (res: Option<DataCap>)
        requires
            self.wf(),
        ensures
            res == (if self.verifiers.map().dom().contains(verifier@) {
                Some(self.verifiers.map()[verifier@])
            } else {
                None::<DataCap>
            }),
    {
        self.verifiers.get(verifier)
    }

    /// Inserts allocations made by `client` under consecutive IDs from
    /// `next_allocation_id`, advances that counter, and returns the IDs used.
    pub fn insert_allocations(&mut self, client: u64, new_allocs: Vec<Allocation>) -> (res: Result<Vec<u64>, ActorError>)
        requires
            old(self).wf(),
            old(self).next_allocation_id + new_allocs@.len() <= u64::MAX,
        ensures
            final(self).wf(),
            res matches Ok(ids) && ids@ == consecutive_ids(old(self).next_allocation_id, new_allocs@.len()),
            final(self).next_allocation_id == old(self).next_allocation_id + new_allocs@.len(),
            forall|o: u64, i: u64| #[trigger] map_map_get(&final(self).allocations, o, i) == if o == client
                && old(self).next_allocation_id <= i < old(self).next_allocation_id + new_allocs@.len() {
                Some(new_allocs@[i - old(self).next_allocation_id])
            } else {
                map_map_get(&old(self).allocations, o, i)
            },
            final(self).verifiers.map() == old(self).verifiers.map(),
            forall|o: u64, i: u64| #[trigger] map_map_get(&final(self).claims, o, i) == map_map_get(&old(self).claims, o, i),
            final(self).root_key@ == old(self).root_key@,
    {
        let ghost allocs = new_allocs@;
        let first_id = self.next_allocation_id;
        let mut ids: Vec<u64> = Vec::new();
        let mut count: u64 = 0;
        let mut new_allocs = new_allocs;
        let n = new_allocs.len();
        while count < n as u64
            invariant
                self.wf(),
                self.root_key@ == old(self).root_key@,
                n == allocs.len(),
                first_id == old(self).next_allocation_id,
                self.next_allocation_id == first_id,
                first_id + n <= u64::MAX,
                count <= n,
                new_allocs@ == allocs.skip(count as int),
                ids@ == consecutive_ids(first_id, count as nat),
                forall|o: u64, i: u64| #[trigger] map_map_get(&self.allocations, o, i) == if o == client
                    && first_id <= i < first_id + count {
                    Some(allocs[i - first_id])
                } else {
                    map_map_get(&old(self).allocations, o, i)
                },
                self.verifiers.map() == old(self).verifiers.map(),
                forall|o: u64, i: u64| #[trigger] map_map_get(&self.claims, o, i) == map_map_get(&old(self).claims, o, i),
            decreases n - count,
        {
            let a = new_allocs.remove(0);
            assert(a == allocs[count as int]);
            assert(new_allocs@ =~= allocs.skip(count + 1));
            let id = first_id + count;
            map_map_put(&mut self.allocations, client, id, a);
            ids.push(id);
            count = count + 1;
            assert(ids@ =~= consecutive_ids(first_id, count as nat));
        }
        self.next_allocation_id = first_id + count;
        Ok(ids)
    }

    /// Stores claims, each under its provider and claim ID, replacing existing ones.
    pub fn put_claims(&mut self, claims: Vec<(u64, Claim)>) -> (res: Result<(), ActorError>)
        requires
            old(self).wf(),
        ensures
            final(self).wf(),
            res is Ok,
            forall|o: u64, i: u64| #[trigger] map_map_get(&final(self).claims, o, i) == claims_after(
                map_map_get(&old(self).claims, o, i), claims@, o, i),
            final(self).verifiers.map() == old(self).verifiers.map(),
            final(self).next_allocation_id == old(self).next_allocation_id,
            forall|o: u64, i: u64| #[trigger] map_map_get(&final(self).allocations, o, i) == map_map_get(&old(self).allocations, o, i),
            final(self).root_key@ == old(self).root_key@,
    {
        let ghost cs = claims@;
        let mut claims = claims;
        let n = claims.len();
        let mut k: usize = 0;
        while k < n
            invariant
                self.wf(),
                self.root_key@ == old(self).root_key@,
                n == cs.len(),
                k <= n,
                claims@ == cs.skip(k as int),
                forall|o: u64, i: u64| #[trigger] map_map_get(&self.claims, o, i) == claims_after(
                    map_map_get(&old(self).claims, o, i), cs.take(k as int), o, i),
                self.verifiers.map() == old(self).verifiers.map(),
                self.next_allocation_id == old(self).next_allocation_id,
                forall|o: u64, i: u64| #[trigger] map_map_get(&self.allocations, o, i) == map_map_get(&old(self).allocations, o, i),
            decreases n - k,
        {
            let (id, claim) = claims.remove(0);
            assert((id, claim) == cs[k as int]);
            assert(claims@ =~= cs.skip(k + 1));
            let provider = claim.provider;
            map_map_put(&mut self.claims, provider, id, claim);
            proof {
                assert(cs.take((k + 1) as int).drop_last() =~= cs.take(k as int));
                assert(cs.take((k + 1) as int).last() == cs[k as int]);
            }
            k = k + 1;
        }
        assert(cs.take(n as int) =~= cs);
        Ok(())
    }
}

/// The claim under `(provider, id)` after storing `claims` in order over `prior`: the
/// last claim in the list with that provider and ID, else `prior`.
pub open spec fn claims_after(prior: Option<Claim>, claims: Seq<(u64, Claim)>, provider: u64, id: u64) -> Option<Claim>
    decreases claims.len(),
{
    if claims.len() == 0 {
        prior
    } else if claims.last().1.provider == provider && claims.last().0 == id {
        Some(claims.last().1)
    } else {
        claims_after(prior, claims.drop_last(), provider, id)
    }
}

/// Allocation IDs are never handed out twice: two successive insertions, the second
/// starting where the first left the counter, return disjoint ID lists, and every ID
/// of the second is larger than every ID of the first.
pub proof fn lemma_allocation_ids_fresh(first: u64, n1: nat, n2: nat, ids1: Seq<u64>, ids2: Seq<u64>)
    requires
        first + n1 + n2 <= u64::MAX,
        ids1 == consecutive_ids(first, n1),
        ids2 == consecutive_ids((first + n1) as u64, n2),
    ensures
        forall|i: int, j: int| 0 <= i < ids1.len() && 0 <= j < ids2.len() ==> #[trigger] ids1[i] < #[trigger] ids2[j],
        forall|x: u64| ids1.contains(x) ==> !ids2.contains(x),
{
    assert forall|x: u64| ids1.contains(x) implies !ids2.contains(x) by {
        let i = choose|i: int| 0 <= i < ids1.len() && ids1[i] == x;
        if ids2.contains(x) {
            let j = choose|j: int| 0 <= j < ids2.len() && ids2[j] == x;
            assert(ids1[i] < ids2[j]);
        }
    }
}

/// The allocation made by `client` under `id`, if any.
pub fn get_allocation(allocations: &MapMap<Allocation>, client: u64, id: u64) -> (res: Option<&Allocation>)
    requires
        map_map_wf(allocations),
    ensures
        res is Some <==> map_map_get(allocations, client, id) is Some,
        res matches Some(a) ==> Some(*a) == map_map_get(allocations, client, id),
{
    map_map_lookup(allocations, client, id)
}

/// The claim held by `provider` under `id`, if any.
pub fn get_claim(claims: &MapMap<Claim>, provider: u64, id: u64) -> (res: Option<&Claim>)
    requires
        map_map_wf(claims),
    ensures
        res is Some <==> map_map_get(claims, provider, id) is Some,
        res matches Some(c) ==> Some(*c) == map_map_get(claims, provider, id),
{
    map_map_lookup(claims, provider, id)
}

/// Key of a pair of addresses: the encoding of the first followed by that of the second.
#[derive(Debug)]
pub struct AddrPairKey {
    pub first: Address,
    pub second: Address,
}

impl AddrPairKey {
    pub fn new(first: Address, second: Address) -> (res: AddrPairKey)
        ensures
            res.first@ == first@,
            res.second@ == second@,
    {
        AddrPairKey { first, second }
    }

    /// The byte key: `first` then `second`.
    pub fn to_bytes(&self) -> (res: Vec<u8>)
        ensures
            res@ == self.first@ + self.second@,
    {
        let mut first = self.first.to_bytes();
        let mut second = self.second.to_bytes();
        first.append(&mut second);
        first
    }
}

} // verus!
