//! Declarations that extend sector expirations, and the checks on the verified claims of
//! the sectors they extend.

use vstd::prelude::*;
use fvm_ipld_bitfield::BitField;
use crate::bitfield::{bits_of, bitfield_clone, bitfield_set, bitfield_union};
use crate::error::{ActorError, USR_FORBIDDEN, USR_ILLEGAL_ARGUMENT};
use crate::id_map::IdMap;
use crate::policy::{ChainEpoch, Policy};
use crate::verifreg_state::Claim;

verus! {

/// A declaration to extend the expiration of sectors without verified claims.
#[derive(Debug)]
pub struct ExpirationExtension {
    pub deadline: u64,
    pub partition: u64,
    pub sectors: BitField,
    pub new_expiration: ChainEpoch,
}

/// A sector with verified claims: the claims to keep and the claims to drop.
#[derive(Debug)]
pub struct SectorClaim {
    pub sector_number: u64,
    pub maintain_claims: Vec<u64>,
    pub drop_claims: Vec<u64>,
}

/// A declaration to extend sector expirations, with the claims of sectors that have them.
#[derive(Debug)]
pub struct ExpirationExtension2 {
    pub deadline: u64,
    pub partition: u64,
    /// Sectors without verified claims.
    pub sectors: BitField,
    pub sectors_with_claims: Vec<SectorClaim>,
    pub new_expiration: ChainEpoch,
}

/// A declaration whose deadline has been checked, naming all the sectors it extends.
#[derive(Debug)]
pub struct ValidatedExpirationExtension {
    pub deadline: u64,
    pub partition: u64,
    pub sectors: BitField,
    pub new_expiration: ChainEpoch,
}

/// The numbers of the sectors with claims.
pub open spec fn claim_sector_numbers(scs: Seq<SectorClaim>) -> Set<u64> {
    Set::new(|n: u64| exists|i: int| 0 <= i < scs.len() && scs[i].sector_number == n)
}

impl ValidatedExpirationExtension {
    /// The declaration's sectors: those without claims together with those with claims.
    /// (A sector number of `u64::MAX` cannot be set in a bitfield: it is left out.)
    pub fn from(e2: ExpirationExtension2) -> (res: ValidatedExpirationExtension)
        requires
            forall|i: int| 0 <= i < e2.sectors_with_claims@.len() ==> (#[trigger] e2.sectors_with_claims@[i]).sector_number != u64::MAX,
        ensures
            res.deadline == e2.deadline,
            res.partition == e2.partition,
            res.new_expiration == e2.new_expiration,
            bits_of(res.sectors) == claim_sector_numbers(e2.sectors_with_claims@).union(bits_of(e2.sectors)),
    {
        let ghost scs = e2.sectors_with_claims@;
        let mut sectors = crate::bitfield::bitfield_new();
        let mut i: usize = 0;
        while i < e2.sectors_with_claims.len()
            invariant
                i <= scs.len(),
                scs == e2.sectors_with_claims@,
                forall|k: int| 0 <= k < scs.len() ==> (#[trigger] scs[k]).sector_number != u64::MAX,
                bits_of(sectors) == claim_sector_numbers(scs.subrange(0, i as int)),
            decreases scs.len() - i,
        {
            let n = e2.sectors_with_claims[i].sector_number;
            bitfield_set(&mut sectors, n);
            assert(bits_of(sectors) =~= claim_sector_numbers(scs.subrange(0, i + 1))) by {
                assert forall|m: u64| claim_sector_numbers(scs.subrange(0, i + 1)).contains(m) implies bits_of(sectors).contains(m) by {
                    let j = choose|j: int| 0 <= j < i + 1 && (#[trigger] scs.subrange(0, i + 1)[j]).sector_number == m;
                    if j < i {
                        assert(scs.subrange(0, i as int)[j] == scs.subrange(0, i + 1)[j]);
                        assert(claim_sector_numbers(scs.subrange(0, i as int)).contains(m));
                    }
                }
                assert forall|m: u64| bits_of(sectors).contains(m) implies claim_sector_numbers(scs.subrange(0, i + 1)).contains(m) by {
                    if m == n {
                        assert(scs.subrange(0, i + 1)[i as int].sector_number == m);
                    } else {
                        let j = choose|j: int| 0 <= j < i && (#[trigger] scs.subrange(0, i as int)[j]).sector_number == m;
                        assert(scs.subrange(0, i + 1)[j] == scs.subrange(0, i as int)[j]);
                    }
                }
            }
            i = i + 1;
        }
        assert(scs.subrange(0, scs.len() as int) =~= scs);
        let all = bitfield_union(&sectors, &e2.sectors);
        ValidatedExpirationExtension {
            deadline: e2.deadline,
            partition: e2.partition,
            sectors: all,
            new_expiration: e2.new_expiration,
        }
    }
}

/// Checks that legacy declarations name deadlines within the proving period and turns them
/// into validated declarations; a deadline out of range is an illegal argument.
pub fn validate_legacy_extension_declarations(extensions: &[ExpirationExtension], policy: &Policy) -> (res: Result<Vec<ValidatedExpirationExtension>, ActorError>)
    ensures
        res is Ok <==> forall|i: int| 0 <= i < extensions@.len() ==> (#[trigger] extensions@[i]).deadline < policy.wpost_period_deadlines,
        res is Err ==> res->Err_0.exit_code == USR_ILLEGAL_ARGUMENT,
        res is Ok ==> {
            let v = res->Ok_0;
            &&& v@.len() == extensions@.len()
            &&& forall|i: int| #![trigger v@[i]] 0 <= i < extensions@.len() ==> {
                &&& v@[i].deadline == extensions@[i].deadline
                &&& v@[i].partition == extensions@[i].partition
                &&& v@[i].new_expiration == extensions@[i].new_expiration
                &&& bits_of(v@[i].sectors) == bits_of(extensions@[i].sectors)
            }
        },
{
    let mut out: Vec<ValidatedExpirationExtension> = Vec::new();
    let mut i: usize = 0;
    while i < extensions.len()
        invariant
            i <= extensions@.len(),
            out@.len() == i,
            forall|j: int| 0 <= j < i ==> (#[trigger] extensions@[j]).deadline < policy.wpost_period_deadlines,
            forall|j: int| #![trigger out@[j]] 0 <= j < i ==> {
                &&& out@[j].deadline == extensions@[j].deadline
                &&& out@[j].partition == extensions@[j].partition
                &&& out@[j].new_expiration == extensions@[j].new_expiration
                &&& bits_of(out@[j].sectors) == bits_of(extensions@[j].sectors)
            },
        decreases extensions@.len() - i,
    {
        let decl = &extensions[i];
        if decl.deadline >= policy.wpost_period_deadlines {
            return Err(ActorError::illegal_argument());
        }
        out.push(ValidatedExpirationExtension {
            deadline: decl.deadline,
            partition: decl.partition,
            sectors: bitfield_clone(&decl.sectors),
            new_expiration: decl.new_expiration,
        });
        i = i + 1;
    }
    Ok(out)
}

/// The error, if any, of claim `c` at position `i` of a sector's claims, the claims before
/// `first_drop` being maintained: another provider or another sector is an illegal
/// argument, and a maintained claim whose term ends before the new expiration is forbidden.
pub open spec fn claim_error(c: Claim, i: int, first_drop: int, sector_number: u64, new_expiration: int, miner_id: u64) -> Option<u32> {
    if c.provider != miner_id {
        Some(USR_ILLEGAL_ARGUMENT)
    } else if c.sector != sector_number {
        Some(USR_ILLEGAL_ARGUMENT)
    } else if i < first_drop && new_expiration > c.term_start + c.term_max {
        Some(USR_FORBIDDEN)
    } else {
        None
    }
}

/// The total size of the claims before position `n` (all of them when `n` is past the end).
pub open spec fn claim_space(cs: Seq<Claim>, n: int) -> int
    decreases cs.len(),
{
    if cs.len() == 0 {
        0
    } else {
        claim_space(cs.drop_last(), n) + if cs.len() - 1 < n { cs.last().size as int } else { 0 }
    }
}

proof fn lemma_claim_space_monotone(cs: Seq<Claim>, n: int, m: int)
    requires
        n <= m,
    ensures
        0 <= claim_space(cs, n) <= claim_space(cs, m),
    decreases cs.len(),
{
    if cs.len() > 0 {
        lemma_claim_space_monotone(cs.drop_last(), n, m);
    }
}

/// The (checked, maintained) claim space already recorded for a sector.
pub open spec fn recorded_space(m: Map<u64, (u64, u64)>, sector_number: u64) -> (int, int) {
    if m.dom().contains(sector_number) {
        (m[sector_number].0 as int, m[sector_number].1 as int)
    } else {
        (0, 0)
    }
}

/// Checks the claims of one sector named in an extension declaration against the sector,
/// the miner `miner_id` and the new expiration, and adds their space to the sector's entry
/// of `space_by_sector`: all of it to the checked space, that of the claims before
/// `maintain_count` (the maintained ones) to the maintained space. The first failing claim
/// gives the error and leaves the map as it was; a sector with no claims adds no entry.
pub fn accumulate_sector_claims(sector_number: u64, maintain_count: usize, new_expiration: ChainEpoch, miner_id: u64, claims: &[Claim], space_by_sector: &mut IdMap<u64, (u64, u64)>) -> (res: Result<(), ActorError>)
    requires
        old(space_by_sector).wf(),
        recorded_space(old(space_by_sector).map(), sector_number).0 + claim_space(claims@, claims@.len() as int) <= u64::MAX,
        recorded_space(old(space_by_sector).map(), sector_number).1 + claim_space(claims@, maintain_count as int) <= u64::MAX,
    ensures
        final(space_by_sector).wf(),
        match res {
            Ok(()) => {
                &&& forall|i: int| 0 <= i < claims@.len() ==>
                    (#[trigger] claim_error(claims@[i], i, maintain_count as int, sector_number, new_expiration as int, miner_id)) is None
                &&& claims@.len() == 0 ==> final(space_by_sector).map() == old(space_by_sector).map()
                &&& claims@.len() > 0 ==> final(space_by_sector).map() == old(space_by_sector).map().insert(sector_number, (
                    (recorded_space(old(space_by_sector).map(), sector_number).0 + claim_space(claims@, claims@.len() as int)) as u64,
                    (recorded_space(old(space_by_sector).map(), sector_number).1 + claim_space(claims@, maintain_count as int)) as u64,
                ))
            },
            Err(e) => {
                &&& final(space_by_sector).map() == old(space_by_sector).map()
                &&& exists|i: int| {
                    &&& 0 <= i < claims@.len()
                    &&& claim_error(claims@[i], i, maintain_count as int, sector_number, new_expiration as int, miner_id) == Some(e.exit_code)
                    &&& forall|j: int| 0 <= j < i ==>
                        (#[trigger] claim_error(claims@[j], j, maintain_count as int, sector_number, new_expiration as int, miner_id)) is None
                }
            },
        },
{
    let ghost cs = claims@;
    let ghost first_drop = maintain_count as int;
    let mut check: u128 = 0;
    let mut maintain: u128 = 0;
    let mut i: usize = 0;
    while i < claims.len()
        invariant
            i <= cs.len(),
            cs == claims@,
            first_drop == maintain_count,
            *space_by_sector == *old(space_by_sector),
            space_by_sector.wf(),
            forall|j: int| 0 <= j < i ==>
                (#[trigger] claim_error(cs[j], j, first_drop, sector_number, new_expiration as int, miner_id)) is None,
            check == claim_space(cs.subrange(0, i as int), i as int),
            maintain == claim_space(cs.subrange(0, i as int), first_drop),
            check <= i * 0x1_0000_0000_0000_0000,
            maintain <= check,
        decreases cs.len() - i,
    {
        let c = &claims[i];
        if c.provider != miner_id {
            assert(claim_error(cs[i as int], i as int, first_drop, sector_number, new_expiration as int, miner_id) == Some(USR_ILLEGAL_ARGUMENT));
            return Err(ActorError::illegal_argument());
        }
        if c.sector != sector_number {
            assert(claim_error(cs[i as int], i as int, first_drop, sector_number, new_expiration as int, miner_id) == Some(USR_ILLEGAL_ARGUMENT));
            return Err(ActorError::illegal_argument());
        }
        let mut maintain_delta: u128 = 0;
        if i < maintain_count {
            if new_expiration as i128 > c.term_start as i128 + c.term_max as i128 {
                assert(claim_error(cs[i as int], i as int, first_drop, sector_number, new_expiration as int, miner_id) == Some(USR_FORBIDDEN));
                return Err(ActorError::forbidden());
            }
            maintain_delta = c.size as u128;
        }
        assert(cs.subrange(0, i + 1).drop_last() =~= cs.subrange(0, i as int));
        proof {
            lemma_claim_space_prefix(cs.subrange(0, i as int), i as int, i + 1);
        }
        assert(i < 0x1_0000_0000_0000_0000);
        assert((i + 1) * 0x1_0000_0000_0000_0000 == i * 0x1_0000_0000_0000_0000 + 0x1_0000_0000_0000_0000) by (nonlinear_arith);
        assert(i * 0x1_0000_0000_0000_0000 <= 0xffff_ffff_ffff_ffff * 0x1_0000_0000_0000_0000) by (nonlinear_arith)
            requires
                i < 0x1_0000_0000_0000_0000,
        ;
        check = check + c.size as u128;
        maintain = maintain + maintain_delta;
        assert(claim_error(cs[i as int], i as int, first_drop, sector_number, new_expiration as int, miner_id) is None);
        i = i + 1;
    }
    assert(cs.subrange(0, cs.len() as int) =~= cs);
    proof {
        lemma_claim_space_prefix(cs, cs.len() as int, cs.len() as int);
    }
    if claims.len() > 0 {
        let (old_check, old_maintain) = match space_by_sector.get(sector_number) {
            Some(v) => *v,
            None => (0u64, 0u64),
        };
        proof {
            lemma_claim_space_monotone(cs, 0, cs.len() as int);
            lemma_claim_space_monotone(cs, 0, first_drop);
        }
        let new_check = (old_check as u128 + check) as u64;
        let new_maintain = (old_maintain as u128 + maintain) as u64;
        space_by_sector.set(sector_number, (new_check, new_maintain));
    }
    Ok(())
}

/// Counting claims before `n` and before `m` agrees when both lie at or past the end.
proof fn lemma_claim_space_prefix(cs: Seq<Claim>, n: int, m: int)
    requires
        cs.len() <= n,
        cs.len() <= m,
    ensures
        claim_space(cs, n) == claim_space(cs, m),
    decreases cs.len(),
{
    if cs.len() > 0 {
        lemma_claim_space_prefix(cs.drop_last(), n, m);
    }
}

} // verus!
