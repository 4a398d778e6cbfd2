//! What the miner actor asks of the verified registry when it activates sector data, and
//! the unverified space it records: the allocation claims of each sector's verified pieces
//! or deals, and the total size of the rest.

use vstd::prelude::*;
use crate::batch::{BatchReturn, FailCode};
use crate::error::{ActorError, USR_ILLEGAL_ARGUMENT};
use crate::address::bytes_eq;
use crate::miner_sectors::copy_bytes;
use crate::policy::ChainEpoch;

verus! {

/// Allocation ID of a deal made without a verified allocation.
pub const NO_ALLOCATION_ID: u64 = 0;

/// A deal the market actor activated in a sector.
#[derive(Clone, Debug)]
pub struct ActivatedDeal {
    pub client: u64,
    pub allocation_id: u64,
    /// The encoded piece CID.
    pub data: Vec<u8>,
    /// The padded piece size.
    pub size: u64,
}

/// A piece declared for a sector, with the (client, allocation ID) key of its verified
/// allocation, if it has one.
#[derive(Clone, Debug)]
pub struct PieceActivation {
    pub data: Vec<u8>,
    pub size: u64,
    pub verified_allocation_key: Option<(u64, u64)>,
}

/// A request to claim one allocation for a piece.
#[derive(Clone, Debug)]
pub struct AllocationClaim {
    pub client: u64,
    pub allocation_id: u64,
    pub data: Vec<u8>,
    pub size: u64,
}

/// The allocation claims of one sector.
#[derive(Clone, Debug)]
pub struct SectorAllocationClaims {
    pub sector: u64,
    pub expiry: ChainEpoch,
    pub claims: Vec<AllocationClaim>,
}

/// A claim as plain values: client, allocation ID, data, size.
pub open spec fn claim_view(c: AllocationClaim) -> (u64, u64, Seq<u8>, u64) {
    (c.client, c.allocation_id, c.data@, c.size)
}

/// Claims as plain values, in order.
pub open spec fn claims_view(cs: Seq<AllocationClaim>) -> Seq<(u64, u64, Seq<u8>, u64)> {
    cs.map_values(|c: AllocationClaim| claim_view(c))
}

/// The claims for the deals that carry an allocation, in order.
pub open spec fn deal_claims(ds: Seq<ActivatedDeal>) -> Seq<(u64, u64, Seq<u8>, u64)>
    decreases ds.len(),
{
    if ds.len() == 0 {
        Seq::empty()
    } else if ds.last().allocation_id != NO_ALLOCATION_ID {
        deal_claims(ds.drop_last()).push((ds.last().client, ds.last().allocation_id, ds.last().data@, ds.last().size))
    } else {
        deal_claims(ds.drop_last())
    }
}

/// The total size of the deals without an allocation.
pub open spec fn unverified_deal_space_spec(ds: Seq<ActivatedDeal>) -> nat
    decreases ds.len(),
{
    if ds.len() == 0 {
        0
    } else {
        unverified_deal_space_spec(ds.drop_last()) + if ds.last().allocation_id == NO_ALLOCATION_ID {
            ds.last().size as nat
        } else {
            0nat
        }
    }
}

/// The claims for the pieces that carry an allocation key, in order.
pub open spec fn piece_claims(ps: Seq<PieceActivation>) -> Seq<(u64, u64, Seq<u8>, u64)>
    decreases ps.len(),
{
    if ps.len() == 0 {
        Seq::empty()
    } else {
        match ps.last().verified_allocation_key {
            Some(key) => piece_claims(ps.drop_last()).push((key.0, key.1, ps.last().data@, ps.last().size)),
            None => piece_claims(ps.drop_last()),
        }
    }
}

/// The total size of the pieces without an allocation key.
pub open spec fn unverified_piece_space_spec(ps: Seq<PieceActivation>) -> nat
    decreases ps.len(),
{
    if ps.len() == 0 {
        0
    } else {
        unverified_piece_space_spec(ps.drop_last()) + if ps.last().verified_allocation_key is None {
            ps.last().size as nat
        } else {
            0nat
        }
    }
}

/// The allocation claims of a sector for the activated deals that carry an allocation,
/// in the order of the deals.
pub fn deal_allocation_claims(sector: u64, expiry: ChainEpoch, activated: &[ActivatedDeal]) -> (res: SectorAllocationClaims)
    ensures
        res.sector == sector,
        res.expiry == expiry,
        claims_view(res.claims@) == deal_claims(activated@),
{
    let mut claims: Vec<AllocationClaim> = Vec::new();
    let mut i: usize = 0;
    while i < activated.len()
        invariant
            i <= activated@.len(),
            claims_view(claims@) == deal_claims(activated@.subrange(0, i as int)),
        decreases activated@.len() - i,
    {
        let d = &activated[i];
        assert(activated@.subrange(0, i + 1).drop_last() =~= activated@.subrange(0, i as int));
        if d.allocation_id != NO_ALLOCATION_ID {
            let c = AllocationClaim { client: d.client, allocation_id: d.allocation_id, data: copy_bytes(&d.data), size: d.size };
            claims.push(c);
            assert(claims_view(claims@) =~= deal_claims(activated@.subrange(0, i + 1)));
        }
        i = i + 1;
    }
    assert(activated@.subrange(0, activated@.len() as int) =~= activated@);
    SectorAllocationClaims { sector, expiry, claims }
}

/// The allocation claims of a sector for the pieces that carry an allocation key, in the
/// order of the pieces.
pub fn piece_allocation_claims(sector: u64, expiry: ChainEpoch, pieces: &[PieceActivation]) -> (res: SectorAllocationClaims)
    ensures
        res.sector == sector,
        res.expiry == expiry,
        claims_view(res.claims@) == piece_claims(pieces@),
{
    let mut claims: Vec<AllocationClaim> = Vec::new();
    let mut i: usize = 0;
    while i < pieces.len()
        invariant
            i <= pieces@.len(),
            claims_view(claims@) == piece_claims(pieces@.subrange(0, i as int)),
        decreases pieces@.len() - i,
    {
        let p = &pieces[i];
        assert(pieces@.subrange(0, i + 1).drop_last() =~= pieces@.subrange(0, i as int));
        match p.verified_allocation_key {
            Some(key) => {
                let c = AllocationClaim { client: key.0, allocation_id: key.1, data: copy_bytes(&p.data), size: p.size };
                claims.push(c);
                assert(claims_view(claims@) =~= piece_claims(pieces@.subrange(0, i + 1)));
            },
            None => {},
        }
        i = i + 1;
    }
    assert(pieces@.subrange(0, pieces@.len() as int) =~= pieces@);
    SectorAllocationClaims { sector, expiry, claims }
}

/// The total size of the activated deals that carry no allocation.
pub fn unverified_deal_space(activated: &[ActivatedDeal]) -> (res: u128)
    ensures
        res == unverified_deal_space_spec(activated@),
{
    let mut total: u128 = 0;
    let n = activated.len();
    let mut i: usize = 0;
    while i < n
        invariant
            n == activated@.len(),
            i <= n,
            total == unverified_deal_space_spec(activated@.subrange(0, i as int)),
            total <= i * 0xffff_ffff_ffff_ffffint,
        decreases activated@.len() - i,
    {
        assert(activated@.subrange(0, i + 1).drop_last() =~= activated@.subrange(0, i as int));
        if activated[i].allocation_id == NO_ALLOCATION_ID {
            total = total + activated[i].size as u128;
        }
        i = i + 1;
    }
    assert(activated@.subrange(0, activated@.len() as int) =~= activated@);
    total
}

/// The total size of the pieces that carry no allocation key.
pub fn unverified_piece_space(pieces: &[PieceActivation]) -> (res: u128)
    ensures
        res == unverified_piece_space_spec(pieces@),
{
    let mut total: u128 = 0;
    let n = pieces.len();
    let mut i: usize = 0;
    while i < n
        invariant
            n == pieces@.len(),
            i <= n,
            total == unverified_piece_space_spec(pieces@.subrange(0, i as int)),
            total <= i * 0xffff_ffff_ffff_ffffint,
        decreases pieces@.len() - i,
    {
        assert(pieces@.subrange(0, i + 1).drop_last() =~= pieces@.subrange(0, i as int));
        if pieces[i].verified_allocation_key.is_none() {
            total = total + pieces[i].size as u128;
        }
        i = i + 1;
    }
    assert(pieces@.subrange(0, pieces@.len() as int) =~= pieces@);
    total
}

/// Whether no sector has a claim to make, in which case the verified registry is not asked.
pub fn no_claims(sectors: &[SectorAllocationClaims]) -> (res: bool)
    ensures
        res == forall|i: int| 0 <= i < sectors@.len() ==> (#[trigger] sectors@[i]).claims@.len() == 0,
{
    let mut i: usize = 0;
    while i < sectors.len()
        invariant
            i <= sectors@.len(),
            forall|j: int| 0 <= j < i ==> (#[trigger] sectors@[j]).claims@.len() == 0,
        decreases sectors@.len() - i,
    {
        if sectors[i].claims.len() != 0 {
            return false;
        }
        i = i + 1;
    }
    true
}


/// What the activation of a sector's market deals reads of the sector.
#[derive(Clone, Copy, Debug)]
pub struct DealActivationFacts {
    pub sector_number: u64,
    pub sector_expiry: ChainEpoch,
    /// Number of deals the sector names.
    pub deal_count: usize,
}

/// Whether the market actor must be asked to activate deals: some sector names deals.
/// When none does, every sector succeeds with nothing activated.
pub fn market_activation_needed(infos: &[DealActivationFacts]) -> (res: bool)
    ensures
        res == exists|i: int| 0 <= i < infos@.len() && (#[trigger] infos@[i]).deal_count != 0,
{
    let mut i: usize = 0;
    while i < infos.len()
        invariant
            i <= infos@.len(),
            forall|j: int| 0 <= j < i ==> (#[trigger] infos@[j]).deal_count == 0,
        decreases infos@.len() - i,
    {
        if infos[i].deal_count != 0 {
            assert(infos@[i as int].deal_count != 0);
            return true;
        }
        i = i + 1;
    }
    false
}

/// Whether item `i` of a batch failed: a failure entry names it.
pub open spec fn item_failed(fails: Seq<FailCode>, i: int) -> bool {
    exists|k: int| 0 <= k < fails.len() && fails[k].idx == i
}

/// Whether each of the first `n` items of a batch succeeded.
pub fn success_flags(batch: &BatchReturn, n: usize) -> (res: Vec<bool>)
    ensures
        res@.len() == n,
        forall|i: int| 0 <= i < n ==> res@[i] == !item_failed(batch.fail_codes@, i),
{
    let mut flags: Vec<bool> = Vec::new();
    let mut i: usize = 0;
    while i < n
        invariant
            i <= n,
            flags@.len() == i,
            forall|j: int| 0 <= j < i ==> flags@[j] == !item_failed(batch.fail_codes@, j),
        decreases n - i,
    {
        let mut failed = false;
        let mut k: usize = 0;
        while k < batch.fail_codes.len()
            invariant
                k <= batch.fail_codes@.len(),
                failed == exists|m: int| 0 <= m < k && batch.fail_codes@[m].idx == i,
            decreases batch.fail_codes@.len() - k,
        {
            if batch.fail_codes[k].idx as usize == i {
                failed = true;
            }
            k = k + 1;
        }
        flags.push(!failed);
        i = i + 1;
    }
    flags
}

/// The sectors whose flag is set, in order.
pub open spec fn flagged(infos: Seq<DealActivationFacts>, flags: Seq<bool>) -> Seq<DealActivationFacts>
    decreases infos.len(),
{
    if infos.len() == 0 || flags.len() < infos.len() {
        Seq::empty()
    } else if flags[infos.len() - 1] {
        flagged(infos.drop_last(), flags).push(infos.last())
    } else {
        flagged(infos.drop_last(), flags)
    }
}

/// Plans the verified-registry claims of a deal activation. `results` is the market
/// actor's outcome per sector and `activations` the deals it activated, one list per
/// sector that succeeded. No success at all is an illegal argument. Otherwise each
/// successful sector, in order, is paired with the next list of activated deals, and its
/// claims are those of its deals that carry an allocation (see `deal_allocation_claims`).
pub fn plan_deal_activation_claims(infos: &[DealActivationFacts], results: &BatchReturn, activations: &[Vec<ActivatedDeal>]) -> (res: Result<Vec<SectorAllocationClaims>, ActorError>)
    ensures
        results.success_count == 0 ==> res is Err && res->Err_0.exit_code == USR_ILLEGAL_ARGUMENT,
        results.success_count != 0 ==> res is Ok && {
            let flags = Seq::new(infos@.len(), |i: int| !item_failed(results.fail_codes@, i));
            let ok = flagged(infos@, flags);
            let claims = res->Ok_0;
            &&& claims@.len() == if ok.len() < activations@.len() { ok.len() } else { activations@.len() as nat }
            &&& forall|j: int| 0 <= j < claims@.len() ==> {
                &&& (#[trigger] claims@[j]).sector == ok[j].sector_number
                &&& claims@[j].expiry == ok[j].sector_expiry
                &&& claims_view(claims@[j].claims@) == deal_claims(activations@[j]@)
            }
        },
{
    if results.success_count == 0 {
        return Err(ActorError::illegal_argument());
    }
    let flags = success_flags(results, infos.len());
    let ghost fl = Seq::new(infos@.len(), |i: int| !item_failed(results.fail_codes@, i));
    assert(flags@ =~= fl);
    let mut plan: Vec<SectorAllocationClaims> = Vec::new();
    let mut i: usize = 0;
    let mut next: usize = 0;
    assert(flagged(infos@.subrange(0, 0), fl) =~= Seq::<DealActivationFacts>::empty());
    while i < infos.len() && next < activations.len()
        invariant
            i <= infos@.len(),
            flags@ == fl,
            fl.len() == infos@.len(),
            next <= activations@.len(),
            next == flagged(infos@.subrange(0, i as int), fl).len(),
            plan@.len() == next,
            forall|j: int| 0 <= j < next ==> {
                &&& (#[trigger] plan@[j]).sector == flagged(infos@.subrange(0, i as int), fl)[j].sector_number
                &&& plan@[j].expiry == flagged(infos@.subrange(0, i as int), fl)[j].sector_expiry
                &&& claims_view(plan@[j].claims@) == deal_claims(activations@[j]@)
            },
        decreases infos@.len() - i,
    {
        let ghost before = flagged(infos@.subrange(0, i as int), fl);
        assert(infos@.subrange(0, i + 1).drop_last() =~= infos@.subrange(0, i as int));
        if flags[i] {
            let info = infos[i];
            let c = deal_allocation_claims(info.sector_number, info.sector_expiry, activations[next].as_slice());
            plan.push(c);
            next = next + 1;
        }
        i = i + 1;
        proof {
            lemma_flagged_prefix(infos@, fl, i as int);
        }
    }
    proof {
        lemma_flagged_prefix_len(infos@, fl, i as int);
        if next < activations@.len() {
            assert(infos@.subrange(0, i as int) =~= infos@);
        }
    }
    Ok(plan)
}

proof fn lemma_flagged_prefix(infos: Seq<DealActivationFacts>, fl: Seq<bool>, n: int)
    requires
        1 <= n <= infos.len(),
        fl.len() == infos.len(),
    ensures
        flagged(infos.subrange(0, n), fl) == if fl[n - 1] {
            flagged(infos.subrange(0, n - 1), fl).push(infos[n - 1])
        } else {
            flagged(infos.subrange(0, n - 1), fl)
        },
{
    assert(infos.subrange(0, n).drop_last() =~= infos.subrange(0, n - 1));
}

proof fn lemma_flagged_prefix_len(infos: Seq<DealActivationFacts>, fl: Seq<bool>, n: int)
    requires
        0 <= n <= infos.len(),
        fl.len() == infos.len(),
    ensures
        flagged(infos.subrange(0, n), fl).len() <= flagged(infos, fl).len(),
        forall|j: int| 0 <= j < flagged(infos.subrange(0, n), fl).len() ==>
            #[trigger] flagged(infos.subrange(0, n), fl)[j] == flagged(infos, fl)[j],
    decreases infos.len() - n,
{
    if n < infos.len() {
        lemma_flagged_prefix_len(infos, fl, n + 1);
        lemma_flagged_prefix(infos, fl, n + 1);
        let a = flagged(infos.subrange(0, n), fl);
        let b = flagged(infos.subrange(0, n + 1), fl);
        assert forall|j: int| 0 <= j < a.len() implies #[trigger] a[j] == flagged(infos, fl)[j] by {
            assert(a[j] == b[j]);
            assert(b[j] == flagged(infos, fl)[j]);
        }
    } else {
        assert(infos.subrange(0, n) =~= infos);
    }
}


/// What the market activated in one sector: the deals, and the unsealed CID it computed
/// when asked.
#[derive(Debug)]
pub struct SectorDealActivation {
    pub activated: Vec<ActivatedDeal>,
    pub unsealed_cid: Option<Vec<u8>>,
}

/// The data a sector's activation brought: unverified and verified space, the unsealed CID
/// if one was computed, and the pieces (CID and size).
#[derive(Debug)]
pub struct DataActivationOutput {
    pub unverified_space: u128,
    pub verified_space: u128,
    pub unsealed_cid: Option<Vec<u8>>,
    pub pieces: Vec<(Vec<u8>, u64)>,
}

/// Pieces as plain values.
pub open spec fn pieces_view(p: Seq<(Vec<u8>, u64)>) -> Seq<(Seq<u8>, u64)> {
    p.map_values(|x: (Vec<u8>, u64)| (x.0@, x.1))
}

/// The pieces of activated deals, in order.
pub open spec fn deal_pieces(ds: Seq<ActivatedDeal>) -> Seq<(Seq<u8>, u64)> {
    ds.map_values(|d: ActivatedDeal| (d.data@, d.size))
}

/// The pieces of declared pieces, in order.
pub open spec fn declared_pieces(ps: Seq<PieceActivation>) -> Seq<(Seq<u8>, u64)> {
    ps.map_values(|p: PieceActivation| (p.data@, p.size))
}

fn copy_opt(c: &Option<Vec<u8>>) -> (res: Option<Vec<u8>>)
    ensures
        match (res, *c) {
            (Some(a), Some(b)) => a@ == b@,
            (None, None) => true,
            _ => false,
        },
{
    match c {
        Some(v) => Some(copy_bytes(v)),
        None => None,
    }
}

/// The activation output of a sector whose deals the market activated and for which the
/// registry claimed `claimed_space` of verified space: the pieces of the deals, the space
/// of the deals without an allocation, the claimed space, and the market's unsealed CID.
pub fn deal_activation_output(activation: &SectorDealActivation, claimed_space: u128) -> (res: DataActivationOutput)
    ensures
        res.unverified_space == unverified_deal_space_spec(activation.activated@),
        res.verified_space == claimed_space,
        pieces_view(res.pieces@) == deal_pieces(activation.activated@),
        match (res.unsealed_cid, activation.unsealed_cid) {
            (Some(a), Some(b)) => a@ == b@,
            (None, None) => true,
            _ => false,
        },
{
    let ds = activation.activated.as_slice();
    let mut pieces: Vec<(Vec<u8>, u64)> = Vec::new();
    let mut i: usize = 0;
    while i < ds.len()
        invariant
            ds@ == activation.activated@,
            i <= ds@.len(),
            pieces@.len() == i,
            pieces_view(pieces@) == deal_pieces(ds@).subrange(0, i as int),
        decreases ds@.len() - i,
    {
        let c = copy_bytes(&ds[i].data);
        let ghost before = pieces@;
        pieces.push((c, ds[i].size));
        assert forall|j: int| 0 <= j < i + 1 implies #[trigger] pieces_view(pieces@)[j] == deal_pieces(ds@).subrange(0, i + 1)[j] by {
            if j < i {
                assert(pieces@[j] == before[j]);
                assert(pieces_view(before)[j] == deal_pieces(ds@).subrange(0, i as int)[j]);
            }
        }
        assert(pieces_view(pieces@) =~= deal_pieces(ds@).subrange(0, i + 1));
        i = i + 1;
    }
    assert(deal_pieces(ds@).subrange(0, ds@.len() as int) =~= deal_pieces(ds@));
    DataActivationOutput {
        unverified_space: unverified_deal_space(ds),
        verified_space: claimed_space,
        unsealed_cid: copy_opt(&activation.unsealed_cid),
        pieces,
    }
}

/// Whether `res` is the activation output `deal_activation_output` gives for `activation`
/// and `claimed_space`.
pub open spec fn is_deal_output(res: DataActivationOutput, activation: SectorDealActivation, claimed_space: u128) -> bool {
    &&& res.unverified_space == unverified_deal_space_spec(activation.activated@)
    &&& res.verified_space == claimed_space
    &&& pieces_view(res.pieces@) == deal_pieces(activation.activated@)
    &&& match (res.unsealed_cid, activation.unsealed_cid) {
        (Some(a), Some(b)) => a@ == b@,
        (None, None) => true,
        _ => false,
    }
}

/// The activation outputs of the sectors whose deals the market activated, paired in order
/// with the verified space the registry claimed for each; pairing stops at the shorter list.
pub fn deal_activation_outputs(activations: &[SectorDealActivation], claimed_spaces: &[u128]) -> (res: Vec<DataActivationOutput>)
    ensures
        res@.len() == if activations@.len() <= claimed_spaces@.len() { activations@.len() } else { claimed_spaces@.len() },
        forall|i: int| 0 <= i < res@.len() ==> is_deal_output(#[trigger] res@[i], activations@[i], claimed_spaces@[i]),
{
    let mut out: Vec<DataActivationOutput> = Vec::new();
    let mut i: usize = 0;
    while i < activations.len() && i < claimed_spaces.len()
        invariant
            i <= activations@.len(),
            i <= claimed_spaces@.len(),
            out@.len() == i,
            forall|j: int| 0 <= j < i ==> is_deal_output(#[trigger] out@[j], activations@[j], claimed_spaces@[j]),
        decreases activations@.len() - i,
    {
        let o = deal_activation_output(&activations[i], claimed_spaces[i]);
        out.push(o);
        i = i + 1;
    }
    out
}

/// Checks a CommD declared for a sector against the one computed from its pieces: a
/// mismatch is an illegal argument; with none declared there is nothing to check.
pub fn check_declared_commd(declared: &Option<Vec<u8>>, computed: &[u8]) -> (res: Result<(), ActorError>)
    ensures
        res is Ok <==> match declared {
            Some(d) => d@ == computed@,
            None => true,
        },
        res is Err ==> res->Err_0.exit_code == USR_ILLEGAL_ARGUMENT,
{
    match declared {
        None => Ok(()),
        Some(d) => {
            if bytes_eq(d.as_slice(), computed) {
                Ok(())
            } else {
                Err(ActorError::illegal_argument())
            }
        },
    }
}

/// The activation output of a sector whose pieces were activated and for which the
/// registry claimed `claimed_space` of verified space: the pieces, the space of those
/// without an allocation key, the claimed space, and no unsealed CID.
pub fn piece_activation_output(pieces: &[PieceActivation], claimed_space: u128) -> (res: DataActivationOutput)
    ensures
        res.unverified_space == unverified_piece_space_spec(pieces@),
        res.verified_space == claimed_space,
        pieces_view(res.pieces@) == declared_pieces(pieces@),
        res.unsealed_cid is None,
{
    let mut out: Vec<(Vec<u8>, u64)> = Vec::new();
    let mut i: usize = 0;
    while i < pieces.len()
        invariant
            i <= pieces@.len(),
            out@.len() == i,
            pieces_view(out@) == declared_pieces(pieces@).subrange(0, i as int),
        decreases pieces@.len() - i,
    {
        let c = copy_bytes(&pieces[i].data);
        let ghost before = out@;
        out.push((c, pieces[i].size));
        assert forall|j: int| 0 <= j < i + 1 implies #[trigger] pieces_view(out@)[j] == declared_pieces(pieces@).subrange(0, i + 1)[j] by {
            if j < i {
                assert(out@[j] == before[j]);
                assert(pieces_view(before)[j] == declared_pieces(pieces@).subrange(0, i as int)[j]);
            }
        }
        assert(pieces_view(out@) =~= declared_pieces(pieces@).subrange(0, i + 1));
        i = i + 1;
    }
    assert(declared_pieces(pieces@).subrange(0, pieces@.len() as int) =~= declared_pieces(pieces@));
    DataActivationOutput {
        unverified_space: unverified_piece_space(pieces),
        verified_space: claimed_space,
        unsealed_cid: None,
        pieces: out,
    }
}


/// Law: the unverified space of a list of deals grows by a deal's size when a deal without
/// an allocation is added, and not at all when one with an allocation is added.
pub proof fn lemma_unverified_deal_space_push(ds: Seq<ActivatedDeal>, d: ActivatedDeal)
    ensures
        d.allocation_id == NO_ALLOCATION_ID ==> unverified_deal_space_spec(ds.push(d)) == unverified_deal_space_spec(ds) + d.size,
        d.allocation_id != NO_ALLOCATION_ID ==> unverified_deal_space_spec(ds.push(d)) == unverified_deal_space_spec(ds),
{
    assert(ds.push(d).drop_last() =~= ds);
}

/// Law: the unverified space of two lists of deals together is the sum of their unverified
/// spaces, and a single deal counts its whole size exactly when it has no allocation.
pub proof fn lemma_unverified_deal_space_additive(a: Seq<ActivatedDeal>, b: Seq<ActivatedDeal>)
    ensures
        unverified_deal_space_spec(a + b) == unverified_deal_space_spec(a) + unverified_deal_space_spec(b),
        forall|d: ActivatedDeal| #[trigger] unverified_deal_space_spec(seq![d])
            == if d.allocation_id == NO_ALLOCATION_ID { d.size as nat } else { 0nat },
    decreases b.len(),
{
    assert forall|d: ActivatedDeal| #[trigger] unverified_deal_space_spec(seq![d])
        == if d.allocation_id == NO_ALLOCATION_ID { d.size as nat } else { 0nat } by {
        assert(seq![d].drop_last() =~= Seq::<ActivatedDeal>::empty());
        assert(seq![d].last() == d);
        assert(unverified_deal_space_spec(Seq::<ActivatedDeal>::empty()) == 0);
    }
    if b.len() == 0 {
        assert(a + b =~= a);
    } else {
        lemma_unverified_deal_space_additive(a, b.drop_last());
        assert((a + b).drop_last() =~= a + b.drop_last());
        assert((a + b).last() == b.last());
    }
}

/// Law: the unverified space of a list of pieces grows by a piece's size when a piece
/// without an allocation key is added, and not at all when one with a key is added.
pub proof fn lemma_unverified_piece_space_push(ps: Seq<PieceActivation>, p: PieceActivation)
    ensures
        p.verified_allocation_key is None ==> unverified_piece_space_spec(ps.push(p)) == unverified_piece_space_spec(ps) + p.size,
        p.verified_allocation_key is Some ==> unverified_piece_space_spec(ps.push(p)) == unverified_piece_space_spec(ps),
{
    assert(ps.push(p).drop_last() =~= ps);
}

/// Law: the unverified space of two lists of pieces together is the sum of their unverified
/// spaces.
pub proof fn lemma_unverified_piece_space_additive(a: Seq<PieceActivation>, b: Seq<PieceActivation>)
    ensures
        unverified_piece_space_spec(a + b) == unverified_piece_space_spec(a) + unverified_piece_space_spec(b),
    decreases b.len(),
{
    if b.len() == 0 {
        assert(a + b =~= a);
    } else {
        lemma_unverified_piece_space_additive(a, b.drop_last());
        assert((a + b).drop_last() =~= a + b.drop_last());
        assert((a + b).last() == b.last());
    }
}

} // verus!
