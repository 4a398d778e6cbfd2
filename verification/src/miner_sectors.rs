//! A miner's on-chain sector records and the rules that rewrite them when a sector's
//! expiration is extended or its data is replaced.

use vstd::prelude::*;
use crate::error::{ActorError, USR_FORBIDDEN, USR_ILLEGAL_ARGUMENT};
use crate::id_map::IdMap;
use crate::market::{floor_div, floor_div_i128};
use crate::miner_checks::{extended_expiration_error, validate_extended_expiration, SectorExpiry};
use crate::miner_policy::trunc_div;
use crate::miner_state::fits_i128;
use crate::balance_table::sum_amounts;
use crate::policy::{ChainEpoch, Policy, TokenAmount};

verus! {

/// The on-chain record of a proven sector.
#[derive(Debug)]
pub struct SectorOnChainInfo {
    pub sector_number: u64,
    /// Code of the seal proof type.
    pub seal_proof: i64,
    /// CID of the sealed replica (CommR), as bytes.
    pub sealed_cid: Vec<u8>,
    pub activation: ChainEpoch,
    pub expiration: ChainEpoch,
    /// Integral of the active deals' space over the sector's remaining lifetime.
    pub deal_weight: i128,
    /// The same for verified deals.
    pub verified_deal_weight: i128,
    /// Pledge collected to commit the sector.
    pub initial_pledge: TokenAmount,
    /// Expected one-day projection of reward for the sector.
    pub expected_day_reward: TokenAmount,
    /// Expected projection of reward over the pledge projection period.
    pub expected_storage_pledge: TokenAmount,
    /// Epoch from which the sector's power counts.
    pub power_base_epoch: ChainEpoch,
    /// Day reward of the sector this one replaced, if any.
    pub replaced_day_reward: TokenAmount,
    /// CID of the sector key before a replica update, as bytes.
    pub sector_key_cid: Option<Vec<u8>>,
    /// Whether the sector's quality-adjusted power is computed by the simple rule.
    pub simple_qa_power: bool,
    /// Daily fee the sector pays.
    pub daily_fee: TokenAmount,
}

/// An optional CID as optional bytes.
pub open spec fn cid_view(c: Option<Vec<u8>>) -> Option<Seq<u8>> {
    match c {
        Some(v) => Some(v@),
        None => None,
    }
}

/// The two records agree on every field that extension and replica update leave alone.
pub open spec fn same_identity(a: SectorOnChainInfo, b: SectorOnChainInfo) -> bool {
    &&& a.sector_number == b.sector_number
    &&& a.seal_proof == b.seal_proof
    &&& a.activation == b.activation
    &&& a.daily_fee == b.daily_fee
}

/// The expiration facts of a sector record.
pub open spec fn expiry_of(s: SectorOnChainInfo) -> SectorExpiry {
    SectorExpiry { sector_number: s.sector_number, seal_proof: s.seal_proof, activation: s.activation, expiration: s.expiration }
}

pub(crate) fn copy_bytes(v: &Vec<u8>) -> (res: Vec<u8>)
    ensures
        res@ == v@,
{
    let res = v.clone();
    assert(res@ =~= v@);
    res
}

fn copy_cid(c: &Option<Vec<u8>>) -> (res: Option<Vec<u8>>)
    ensures
        cid_view(res) == cid_view(*c),
{
    match c {
        Some(v) => Some(copy_bytes(v)),
        None => None,
    }
}

/// The sum of the daily fees of a list of sectors.
pub open spec fn daily_fees(s: Seq<SectorOnChainInfo>) -> int
    decreases s.len(),
{
    if s.len() == 0 {
        0
    } else {
        daily_fees(s.drop_last()) + s.last().daily_fee
    }
}

/// The total daily fee of the given sectors.
pub fn daily_fee_for_sectors(sectors: &[SectorOnChainInfo]) -> (res: TokenAmount)
    requires
        forall|k: int| 0 <= k <= sectors@.len() ==> fits_i128(#[trigger] daily_fees(sectors@.take(k))),
    ensures
        res == daily_fees(sectors@),
{
    let mut total: i128 = 0;
    let mut i: usize = 0;
    assert(sectors@.take(0) =~= Seq::<SectorOnChainInfo>::empty());
    while i < sectors.len()
        invariant
            i <= sectors@.len(),
            forall|k: int| 0 <= k <= sectors@.len() ==> fits_i128(#[trigger] daily_fees(sectors@.take(k))),
            total == daily_fees(sectors@.take(i as int)),
        decreases sectors@.len() - i,
    {
        assert(sectors@.take(i + 1).drop_last() =~= sectors@.take(i as int));
        assert(fits_i128(daily_fees(sectors@.take(i + 1))));
        total = total + sectors[i].daily_fee;
        i = i + 1;
    }
    assert(sectors@.take(sectors@.len() as int) =~= sectors@);
    total
}

/// Dividing by a negative number gives the negated quotient by its absolute value.
proof fn lemma_div_neg_divisor(x: int, d: int)
    requires
        d < 0,
    ensures
        x / d == -(x / (-d)),
{
    vstd::arithmetic::div_mod::lemma_fundamental_div_mod(x, -d);
    let q = x / (-d);
    let r = x % (-d);
    assert(x == d * (-q) + r) by (nonlinear_arith)
        requires
            x == (-d) * q + r,
    ;
    assert(x / d == -q) by (nonlinear_arith)
        requires
            x == d * (-q) + r,
            0 <= r < -d,
            d < 0,
    ;
}

/// `n / d` rounded toward zero, as big-integer division computes it.
fn trunc_div_i128(n: i128, d: i128) -> (res: i128)
    requires
        d != 0,
        n > i128::MIN,
        d > i128::MIN,
    ensures
        res == trunc_div(n as int, d as int),
{
    let an: i128 = if n < 0 { -n } else { n };
    let ad: i128 = if d < 0 { -d } else { d };
    let q: i128 = an / ad;
    assert(0 <= q <= an) by (nonlinear_arith)
        requires
            an >= 0,
            ad > 0,
            q == an / ad,
    {
        vstd::arithmetic::div_mod::lemma_div_is_ordered_by_denominator(an as int, 1, ad as int);
    }
    proof {
        if d < 0 {
            lemma_div_neg_divisor(n as int, d as int);
            lemma_div_neg_divisor(-(n as int), d as int);
        }
    }
    if (n < 0) != (d < 0) {
        -q
    } else {
        q
    }
}

/// The deal weight left to a sector at `curr_epoch`: the weight scaled by the remaining
/// part of its lifetime since its power base epoch, rounded down.
pub open spec fn remaining_weight_floor(weight: int, s: SectorOnChainInfo, curr_epoch: int) -> int {
    floor_div(weight * (s.expiration - curr_epoch), s.expiration - s.power_base_epoch)
}

/// Extends a sector whose power is not computed by the simple rule: the expiration moves
/// to `new_expiration`, the power base epoch to `curr_epoch`, and both deal weights keep
/// only the part of the old lifetime that remains (rounded down).
pub fn extend_non_simple_qap_sector(new_expiration: ChainEpoch, curr_epoch: ChainEpoch, sector: &SectorOnChainInfo) -> (res: Result<SectorOnChainInfo, ActorError>)
    requires
        sector.expiration != sector.power_base_epoch,
        fits_i128(sector.deal_weight * (sector.expiration - curr_epoch)),
        fits_i128(sector.verified_deal_weight * (sector.expiration - curr_epoch)),
        sector.deal_weight * (sector.expiration - curr_epoch) > i128::MIN,
        sector.verified_deal_weight * (sector.expiration - curr_epoch) > i128::MIN,
    ensures
        res is Ok,
        ({
            let s = res->Ok_0;
            &&& same_identity(s, *sector)
            &&& s.sealed_cid@ == sector.sealed_cid@
            &&& cid_view(s.sector_key_cid) == cid_view(sector.sector_key_cid)
            &&& s.simple_qa_power == sector.simple_qa_power
            &&& s.initial_pledge == sector.initial_pledge
            &&& s.expected_day_reward == sector.expected_day_reward
            &&& s.expected_storage_pledge == sector.expected_storage_pledge
            &&& s.replaced_day_reward == sector.replaced_day_reward
            &&& s.expiration == new_expiration
            &&& s.power_base_epoch == curr_epoch
            &&& s.deal_weight == remaining_weight_floor(sector.deal_weight as int, *sector, curr_epoch as int)
            &&& s.verified_deal_weight == remaining_weight_floor(sector.verified_deal_weight as int, *sector, curr_epoch as int)
        }),
{
    let remaining: i128 = sector.expiration as i128 - curr_epoch as i128;
    let lifetime: i128 = sector.expiration as i128 - sector.power_base_epoch as i128;
    let new_deal_weight = floor_div_i128(sector.deal_weight * remaining, lifetime);
    let new_verified_deal_weight = floor_div_i128(sector.verified_deal_weight * remaining, lifetime);
    Ok(SectorOnChainInfo {
        sector_number: sector.sector_number,
        seal_proof: sector.seal_proof,
        sealed_cid: copy_bytes(&sector.sealed_cid),
        activation: sector.activation,
        expiration: new_expiration,
        deal_weight: new_deal_weight,
        verified_deal_weight: new_verified_deal_weight,
        initial_pledge: sector.initial_pledge,
        expected_day_reward: sector.expected_day_reward,
        expected_storage_pledge: sector.expected_storage_pledge,
        power_base_epoch: curr_epoch,
        replaced_day_reward: sector.replaced_day_reward,
        sector_key_cid: copy_cid(&sector.sector_key_cid),
        simple_qa_power: sector.simple_qa_power,
        daily_fee: sector.daily_fee,
    })
}

/// Extends a sector by the legacy rule: the extension must be valid
/// (`validate_extended_expiration`), and a simple-power sector with deal weight may not use
/// this rule (forbidden); otherwise the sector is extended as a non-simple one.
pub fn extend_sector_committment_legacy(policy: &Policy, curr_epoch: ChainEpoch, new_expiration: ChainEpoch, sector: &SectorOnChainInfo, can_extend: bool, max_lifetime: Option<i64>) -> (res: Result<SectorOnChainInfo, ActorError>)
    requires
        sector.expiration != sector.power_base_epoch,
        fits_i128(sector.deal_weight * (sector.expiration - curr_epoch)),
        fits_i128(sector.verified_deal_weight * (sector.expiration - curr_epoch)),
        sector.deal_weight * (sector.expiration - curr_epoch) > i128::MIN,
        sector.verified_deal_weight * (sector.expiration - curr_epoch) > i128::MIN,
    ensures
        extended_expiration_error(*policy, curr_epoch as int, new_expiration as int, expiry_of(*sector), can_extend, max_lifetime) matches Some(code)
            ==> res is Err && res->Err_0.exit_code == code,
        extended_expiration_error(*policy, curr_epoch as int, new_expiration as int, expiry_of(*sector), can_extend, max_lifetime) is None ==> {
            if sector.simple_qa_power && (sector.verified_deal_weight > 0 || sector.deal_weight > 0) {
                res is Err && res->Err_0.exit_code == USR_FORBIDDEN
            } else {
                &&& res is Ok
                &&& same_identity(res->Ok_0, *sector)
                &&& res->Ok_0.expiration == new_expiration
                &&& res->Ok_0.power_base_epoch == curr_epoch
                &&& res->Ok_0.deal_weight == remaining_weight_floor(sector.deal_weight as int, *sector, curr_epoch as int)
                &&& res->Ok_0.verified_deal_weight == remaining_weight_floor(sector.verified_deal_weight as int, *sector, curr_epoch as int)
                &&& res->Ok_0.initial_pledge == sector.initial_pledge
                &&& res->Ok_0.expected_day_reward == sector.expected_day_reward
                &&& res->Ok_0.expected_storage_pledge == sector.expected_storage_pledge
                &&& res->Ok_0.replaced_day_reward == sector.replaced_day_reward
            }
        },
{
    let expiry = SectorExpiry {
        sector_number: sector.sector_number,
        seal_proof: sector.seal_proof,
        activation: sector.activation,
        expiration: sector.expiration,
    };
    validate_extended_expiration(policy, curr_epoch, new_expiration, &expiry, can_extend, max_lifetime)?;
    if sector.simple_qa_power && (sector.verified_deal_weight > 0 || sector.deal_weight > 0) {
        return Err(ActorError::forbidden());
    }
    extend_non_simple_qap_sector(new_expiration, curr_epoch, sector)
}

/// The recorded (checked, maintained) claim space of a sector, if any.
pub open spec fn claim_space_of(m: Map<u64, (u64, u64)>, sector_number: u64) -> Option<(u64, u64)> {
    if m.dom().contains(sector_number) { Some(m[sector_number]) } else { None }
}

/// The error, if any, of extending a simple-power sector with verified deal weight: its
/// claims must have been declared, must account for its whole verified deal space, and may
/// be dropped only near the end of its life.
pub open spec fn simple_extension_error(policy: Policy, curr_epoch: int, s: SectorOnChainInfo, space: Option<(u64, u64)>) -> Option<u32> {
    if s.verified_deal_weight <= 0 {
        None
    } else if space is None {
        Some(USR_ILLEGAL_ARGUMENT)
    } else if (space.unwrap().0 as i64) as int != trunc_div(s.verified_deal_weight as int, s.expiration - s.power_base_epoch) {
        Some(USR_ILLEGAL_ARGUMENT)
    } else if space.unwrap().0 != space.unwrap().1 && s.expiration - curr_epoch > policy.end_of_life_claim_drop_period {
        Some(USR_FORBIDDEN)
    } else {
        None
    }
}

/// Extends a simple-power sector to `new_expiration` at `curr_epoch`. The expiration and
/// power base epoch move; a positive deal weight keeps the part of the old lifetime that
/// remains (rounded toward zero); a positive verified deal weight is rebuilt from the
/// maintained claim space over the new duration, the day reward and storage pledge are
/// recomputed by `rewards` (from the new duration and weights; the storage pledge never
/// decreases), and the replaced day reward becomes the larger of the old day reward and the
/// old replaced one.
pub fn extend_simple_qap_sector<F: Fn(ChainEpoch, i128, i128) -> (TokenAmount, TokenAmount)>(policy: &Policy, new_expiration: ChainEpoch, curr_epoch: ChainEpoch, sector: &SectorOnChainInfo, claim_space_by_sector: &IdMap<u64, (u64, u64)>, rewards: &F) -> (res: Result<SectorOnChainInfo, ActorError>)
    requires
        claim_space_by_sector.wf(),
        forall|d: ChainEpoch, w: i128, v: i128| rewards.requires((d, w, v)),
        sector.expiration != sector.power_base_epoch,
        sector.expiration - sector.power_base_epoch > i128::MIN,
        sector.verified_deal_weight > i128::MIN,
        fits_i128(sector.deal_weight * (sector.expiration - curr_epoch)),
        sector.deal_weight * (sector.expiration - curr_epoch) > i128::MIN,
        claim_space_by_sector.map().dom().contains(sector.sector_number) ==>
            fits_i128(claim_space_by_sector.map()[sector.sector_number].1 * (new_expiration - curr_epoch)),
        fits_i128(new_expiration - curr_epoch),
    ensures
        simple_extension_error(*policy, curr_epoch as int, *sector, claim_space_of(claim_space_by_sector.map(), sector.sector_number)) matches Some(code)
            ==> res is Err && res->Err_0.exit_code == code,
        simple_extension_error(*policy, curr_epoch as int, *sector, claim_space_of(claim_space_by_sector.map(), sector.sector_number)) is None ==> {
            let s = res->Ok_0;
            let new_duration = new_expiration - curr_epoch;
            &&& res is Ok
            &&& same_identity(s, *sector)
            &&& s.sealed_cid@ == sector.sealed_cid@
            &&& cid_view(s.sector_key_cid) == cid_view(sector.sector_key_cid)
            &&& s.simple_qa_power == sector.simple_qa_power
            &&& s.initial_pledge == sector.initial_pledge
            &&& s.expiration == new_expiration
            &&& s.power_base_epoch == curr_epoch
            &&& s.deal_weight == if sector.deal_weight > 0 {
                trunc_div(sector.deal_weight * (sector.expiration - curr_epoch), sector.expiration - sector.power_base_epoch)
            } else {
                sector.deal_weight as int
            }
            &&& sector.verified_deal_weight > 0 ==> {
                &&& s.verified_deal_weight == claim_space_by_sector.map()[sector.sector_number].1 * new_duration
                &&& exists|r: (TokenAmount, TokenAmount)| {
                    &&& rewards.ensures((new_duration as i64, s.deal_weight, s.verified_deal_weight), r)
                    &&& s.expected_day_reward == r.0
                    &&& s.expected_storage_pledge == if sector.expected_storage_pledge >= r.1 { sector.expected_storage_pledge } else { r.1 }
                }
                &&& s.replaced_day_reward == if sector.expected_day_reward >= sector.replaced_day_reward {
                    sector.expected_day_reward
                } else {
                    sector.replaced_day_reward
                }
            }
            &&& sector.verified_deal_weight <= 0 ==> {
                &&& s.verified_deal_weight == sector.verified_deal_weight
                &&& s.expected_day_reward == sector.expected_day_reward
                &&& s.expected_storage_pledge == sector.expected_storage_pledge
                &&& s.replaced_day_reward == sector.replaced_day_reward
            }
        },
{
    let old_duration: i128 = sector.expiration as i128 - sector.power_base_epoch as i128;
    let new_duration: i128 = new_expiration as i128 - curr_epoch as i128;
    let mut deal_weight = sector.deal_weight;
    if sector.deal_weight > 0 {
        let remaining: i128 = sector.expiration as i128 - curr_epoch as i128;
        deal_weight = trunc_div_i128(sector.deal_weight * remaining, old_duration);
    }
    let mut verified_deal_weight = sector.verified_deal_weight;
    let mut expected_day_reward = sector.expected_day_reward;
    let mut expected_storage_pledge = sector.expected_storage_pledge;
    let mut replaced_day_reward = sector.replaced_day_reward;
    if sector.verified_deal_weight > 0 {
        let old_verified_deal_space = trunc_div_i128(sector.verified_deal_weight, old_duration);
        let (expected_space, new_space) = match claim_space_by_sector.get(sector.sector_number) {
            None => {
                return Err(ActorError::illegal_argument());
            },
            Some(space) => *space,
        };
        if expected_space as i64 as i128 != old_verified_deal_space {
            return Err(ActorError::illegal_argument());
        }
        let dropping_claims = expected_space != new_space;
        if dropping_claims && sector.expiration as i128 - curr_epoch as i128 > policy.end_of_life_claim_drop_period as i128 {
            return Err(ActorError::forbidden());
        }
        verified_deal_weight = new_space as i128 * new_duration;
        let r = rewards(new_duration as i64, deal_weight, verified_deal_weight);
        expected_day_reward = r.0;
        expected_storage_pledge = if sector.expected_storage_pledge >= r.1 { sector.expected_storage_pledge } else { r.1 };
        replaced_day_reward = if sector.expected_day_reward >= sector.replaced_day_reward {
            sector.expected_day_reward
        } else {
            sector.replaced_day_reward
        };
    }
    Ok(SectorOnChainInfo {
        sector_number: sector.sector_number,
        seal_proof: sector.seal_proof,
        sealed_cid: copy_bytes(&sector.sealed_cid),
        activation: sector.activation,
        expiration: new_expiration,
        deal_weight,
        verified_deal_weight,
        initial_pledge: sector.initial_pledge,
        expected_day_reward,
        expected_storage_pledge,
        power_base_epoch: curr_epoch,
        replaced_day_reward,
        sector_key_cid: copy_cid(&sector.sector_key_cid),
        simple_qa_power: sector.simple_qa_power,
        daily_fee: sector.daily_fee,
    })
}

/// What a replica update activated in a sector: the new sealed CID and the unverified and
/// verified data space.
#[derive(Debug)]
pub struct ReplicaUpdateActivatedData {
    pub seal_cid: Vec<u8>,
    pub unverified_space: i128,
    pub verified_space: i128,
}

/// Whether `res` is the record of sector `old` after a replica update at `curr_epoch` that
/// activated `data`, with rewards and pledges recomputed by `pledges` (see
/// `update_existing_sector_info`).
pub open spec fn replica_updated<F: Fn(ChainEpoch, i128, i128) -> (TokenAmount, TokenAmount, TokenAmount)>(res: SectorOnChainInfo, old: SectorOnChainInfo, data: ReplicaUpdateActivatedData, curr_epoch: ChainEpoch, pledges: &F) -> bool {
    &&& same_identity(res, old)
    &&& res.simple_qa_power
    &&& res.sealed_cid@ == data.seal_cid@
    &&& cid_view(res.sector_key_cid) == match old.sector_key_cid {
        None => Some(old.sealed_cid@),
        Some(k) => Some(k@),
    }
    &&& res.expiration == old.expiration
    &&& res.power_base_epoch == curr_epoch
    &&& res.deal_weight == data.unverified_space * (old.expiration - curr_epoch)
    &&& res.verified_deal_weight == data.verified_space * (old.expiration - curr_epoch)
    &&& res.replaced_day_reward == if old.expected_day_reward >= old.replaced_day_reward {
        old.expected_day_reward
    } else {
        old.replaced_day_reward
    }
    &&& exists|r: (TokenAmount, TokenAmount, TokenAmount)| {
        &&& pledges.ensures(((old.expiration - curr_epoch) as i64, res.deal_weight, res.verified_deal_weight), r)
        &&& res.expected_day_reward == r.0
        &&& res.expected_storage_pledge == if old.expected_storage_pledge >= r.1 { old.expected_storage_pledge } else { r.1 }
        &&& res.initial_pledge == if old.initial_pledge >= r.2 { old.initial_pledge } else { r.2 }
    }
}

/// The record of a sector after a replica update at `curr_epoch`: simple power, the new
/// sealed CID (the old one kept as sector key if there was none), power counted from now,
/// deal weights of the activated space over the remaining lifetime, the replaced day reward
/// the larger of the old day reward and the old replaced one, and the day reward, storage
/// pledge and initial pledge recomputed by `pledges` (the last two never decreasing).
pub fn update_existing_sector_info<F: Fn(ChainEpoch, i128, i128) -> (TokenAmount, TokenAmount, TokenAmount)>(sector_info: &SectorOnChainInfo, activated_data: &ReplicaUpdateActivatedData, curr_epoch: ChainEpoch, pledges: &F) -> (res: SectorOnChainInfo)
    requires
        forall|d: ChainEpoch, w: i128, v: i128| pledges.requires((d, w, v)),
        fits_i128(activated_data.unverified_space * (sector_info.expiration - curr_epoch)),
        fits_i128(activated_data.verified_space * (sector_info.expiration - curr_epoch)),
        i64::MIN <= sector_info.expiration - curr_epoch <= i64::MAX,
    ensures
        same_identity(res, *sector_info),
        res.simple_qa_power,
        res.sealed_cid@ == activated_data.seal_cid@,
        cid_view(res.sector_key_cid) == match sector_info.sector_key_cid {
            None => Some(sector_info.sealed_cid@),
            Some(k) => Some(k@),
        },
        res.expiration == sector_info.expiration,
        res.power_base_epoch == curr_epoch,
        res.deal_weight == activated_data.unverified_space * (sector_info.expiration - curr_epoch),
        res.verified_deal_weight == activated_data.verified_space * (sector_info.expiration - curr_epoch),
        res.replaced_day_reward == if sector_info.expected_day_reward >= sector_info.replaced_day_reward {
            sector_info.expected_day_reward
        } else {
            sector_info.replaced_day_reward
        },
        exists|r: (TokenAmount, TokenAmount, TokenAmount)| {
            &&& pledges.ensures(((sector_info.expiration - curr_epoch) as i64, res.deal_weight, res.verified_deal_weight), r)
            &&& res.expected_day_reward == r.0
            &&& res.expected_storage_pledge == if sector_info.expected_storage_pledge >= r.1 { sector_info.expected_storage_pledge } else { r.1 }
            &&& res.initial_pledge == if sector_info.initial_pledge >= r.2 { sector_info.initial_pledge } else { r.2 }
        },
        replica_updated(res, *sector_info, *activated_data, curr_epoch, pledges),
{
    let sector_key_cid = match &sector_info.sector_key_cid {
        None => Some(copy_bytes(&sector_info.sealed_cid)),
        Some(x) => Some(copy_bytes(x)),
    };
    let duration: i64 = (sector_info.expiration as i128 - curr_epoch as i128) as i64;
    let deal_weight = activated_data.unverified_space * duration as i128;
    let verified_deal_weight = activated_data.verified_space * duration as i128;
    let replaced_day_reward = if sector_info.expected_day_reward >= sector_info.replaced_day_reward {
        sector_info.expected_day_reward
    } else {
        sector_info.replaced_day_reward
    };
    let r = pledges(duration, deal_weight, verified_deal_weight);
    let expected_storage_pledge = if sector_info.expected_storage_pledge >= r.1 { sector_info.expected_storage_pledge } else { r.1 };
    let initial_pledge = if sector_info.initial_pledge >= r.2 { sector_info.initial_pledge } else { r.2 };
    SectorOnChainInfo {
        sector_number: sector_info.sector_number,
        seal_proof: sector_info.seal_proof,
        sealed_cid: copy_bytes(&activated_data.seal_cid),
        activation: sector_info.activation,
        expiration: sector_info.expiration,
        deal_weight,
        verified_deal_weight,
        initial_pledge,
        expected_day_reward: r.0,
        expected_storage_pledge,
        power_base_epoch: curr_epoch,
        replaced_day_reward,
        sector_key_cid,
        simple_qa_power: true,
        daily_fee: sector_info.daily_fee,
    }
}

/// Extends a sector's commitment: the extension must be valid
/// (`validate_extended_expiration`); a simple-power sector is then extended by
/// `extend_simple_qap_sector` and any other by `extend_non_simple_qap_sector`.
pub fn extend_sector_committment<F: Fn(ChainEpoch, i128, i128) -> (TokenAmount, TokenAmount)>(policy: &Policy, curr_epoch: ChainEpoch, new_expiration: ChainEpoch, sector: &SectorOnChainInfo, claim_space_by_sector: &IdMap<u64, (u64, u64)>, can_extend: bool, max_lifetime: Option<i64>, rewards: &F) -> (res: Result<SectorOnChainInfo, ActorError>)
    requires
        claim_space_by_sector.wf(),
        forall|d: ChainEpoch, w: i128, v: i128| rewards.requires((d, w, v)),
        sector.expiration != sector.power_base_epoch,
        sector.expiration - sector.power_base_epoch > i128::MIN,
        sector.verified_deal_weight > i128::MIN,
        fits_i128(sector.deal_weight * (sector.expiration - curr_epoch)),
        fits_i128(sector.verified_deal_weight * (sector.expiration - curr_epoch)),
        sector.deal_weight * (sector.expiration - curr_epoch) > i128::MIN,
        sector.verified_deal_weight * (sector.expiration - curr_epoch) > i128::MIN,
        claim_space_by_sector.map().dom().contains(sector.sector_number) ==>
            fits_i128(claim_space_by_sector.map()[sector.sector_number].1 * (new_expiration - curr_epoch)),
        fits_i128(new_expiration - curr_epoch),
    ensures
        extended_expiration_error(*policy, curr_epoch as int, new_expiration as int, expiry_of(*sector), can_extend, max_lifetime) matches Some(code)
            ==> res is Err && res->Err_0.exit_code == code,
        extended_expiration_error(*policy, curr_epoch as int, new_expiration as int, expiry_of(*sector), can_extend, max_lifetime) is None ==> {
            if sector.simple_qa_power {
                match simple_extension_error(*policy, curr_epoch as int, *sector, claim_space_of(claim_space_by_sector.map(), sector.sector_number)) {
                    Some(code) => res is Err && res->Err_0.exit_code == code,
                    None => {
                        &&& res is Ok
                        &&& res->Ok_0.expiration == new_expiration
                        &&& res->Ok_0.power_base_epoch == curr_epoch
                        &&& res->Ok_0.deal_weight == if sector.deal_weight > 0 {
                            trunc_div(sector.deal_weight * (sector.expiration - curr_epoch), sector.expiration - sector.power_base_epoch)
                        } else {
                            sector.deal_weight as int
                        }
                        &&& res->Ok_0.verified_deal_weight == if sector.verified_deal_weight > 0 {
                            claim_space_by_sector.map()[sector.sector_number].1 * (new_expiration - curr_epoch)
                        } else {
                            sector.verified_deal_weight as int
                        }
                    },
                }
            } else {
                &&& res is Ok
                &&& res->Ok_0.expiration == new_expiration
                &&& res->Ok_0.power_base_epoch == curr_epoch
                &&& res->Ok_0.deal_weight == remaining_weight_floor(sector.deal_weight as int, *sector, curr_epoch as int)
                &&& res->Ok_0.verified_deal_weight == remaining_weight_floor(sector.verified_deal_weight as int, *sector, curr_epoch as int)
            }
        },
{
    let expiry = SectorExpiry {
        sector_number: sector.sector_number,
        seal_proof: sector.seal_proof,
        activation: sector.activation,
        expiration: sector.expiration,
    };
    validate_extended_expiration(policy, curr_epoch, new_expiration, &expiry, can_extend, max_lifetime)?;
    if sector.simple_qa_power {
        extend_simple_qap_sector(policy, new_expiration, curr_epoch, sector, claim_space_by_sector, rewards)
    } else {
        extend_non_simple_qap_sector(new_expiration, curr_epoch, sector)
    }
}


/// The records of sectors after their replica updates at `curr_epoch`, in order: each
/// sector rewritten by `update_existing_sector_info` with the data its update activated.
pub fn new_replica_sector_infos<F: Fn(ChainEpoch, i128, i128) -> (TokenAmount, TokenAmount, TokenAmount)>(sector_infos: &[SectorOnChainInfo], activated: &[ReplicaUpdateActivatedData], curr_epoch: ChainEpoch, pledges: &F) -> (res: Vec<SectorOnChainInfo>)
    requires
        activated@.len() == sector_infos@.len(),
        forall|d: ChainEpoch, w: i128, v: i128| pledges.requires((d, w, v)),
        forall|i: int| 0 <= i < sector_infos@.len() ==> {
            &&& fits_i128(activated@[i].unverified_space * (sector_infos@[i].expiration - curr_epoch))
            &&& fits_i128(activated@[i].verified_space * (sector_infos@[i].expiration - curr_epoch))
            &&& i64::MIN <= #[trigger] sector_infos@[i].expiration - curr_epoch <= i64::MAX
        },
    ensures
        res@.len() == sector_infos@.len(),
        forall|i: int| 0 <= i < sector_infos@.len() ==>
            replica_updated(#[trigger] res@[i], sector_infos@[i], activated@[i], curr_epoch, pledges),
{
    let mut out: Vec<SectorOnChainInfo> = Vec::new();
    let mut i: usize = 0;
    while i < sector_infos.len()
        invariant
            activated@.len() == sector_infos@.len(),
            forall|d: ChainEpoch, w: i128, v: i128| pledges.requires((d, w, v)),
            forall|k: int| 0 <= k < sector_infos@.len() ==> {
                &&& fits_i128(activated@[k].unverified_space * (sector_infos@[k].expiration - curr_epoch))
                &&& fits_i128(activated@[k].verified_space * (sector_infos@[k].expiration - curr_epoch))
                &&& i64::MIN <= #[trigger] sector_infos@[k].expiration - curr_epoch <= i64::MAX
            },
            i <= sector_infos@.len(),
            out@.len() == i,
            forall|k: int| 0 <= k < i ==>
                replica_updated(#[trigger] out@[k], sector_infos@[k], activated@[k], curr_epoch, pledges),
        decreases sector_infos@.len() - i,
    {
        assert(i64::MIN <= sector_infos@[i as int].expiration - curr_epoch <= i64::MAX);
        let next = update_existing_sector_info(&sector_infos[i], &activated[i], curr_epoch, pledges);
        out.push(next);
        i = i + 1;
    }
    out
}


/// A pre-committed sector being activated, with the data its activation brought.
#[derive(Debug)]
pub struct PrecommitActivation {
    pub sector_number: u64,
    /// Code of the seal proof type.
    pub seal_proof: i64,
    /// CID of the sealed replica, as bytes.
    pub sealed_cid: Vec<u8>,
    pub expiration: ChainEpoch,
    /// The deposit made at pre-commit.
    pub pre_commit_deposit: TokenAmount,
    /// The unverified and verified data space activated in the sector.
    pub unverified_space: i128,
    pub verified_space: i128,
}

/// Whether `res` is the record of the newly activated sector `p` at `activation_epoch`:
/// its identity and expiration from the pre-commit, deal weights of the activated space
/// over its lifetime, power counted from now, simple power, no sector key or replaced
/// reward, and the day reward, storage pledge and initial pledge `pledges` gives for its
/// lifetime and weights.
pub open spec fn activated_record<F: Fn(ChainEpoch, i128, i128) -> (TokenAmount, TokenAmount, TokenAmount)>(res: SectorOnChainInfo, p: PrecommitActivation, activation_epoch: ChainEpoch, pledges: &F) -> bool {
    &&& res.sector_number == p.sector_number
    &&& res.seal_proof == p.seal_proof
    &&& res.sealed_cid@ == p.sealed_cid@
    &&& res.expiration == p.expiration
    &&& res.activation == activation_epoch
    &&& res.deal_weight == p.unverified_space * (p.expiration - activation_epoch)
    &&& res.verified_deal_weight == p.verified_space * (p.expiration - activation_epoch)
    &&& res.power_base_epoch == activation_epoch
    &&& res.replaced_day_reward == 0
    &&& res.sector_key_cid is None
    &&& res.simple_qa_power
    &&& res.daily_fee == 0
    &&& pledges.ensures(((p.expiration - activation_epoch) as i64, res.deal_weight, res.verified_deal_weight),
        (res.expected_day_reward, res.expected_storage_pledge, res.initial_pledge))
}

/// The record of a newly activated sector (see `activated_record`).
pub fn new_sector_info<F: Fn(ChainEpoch, i128, i128) -> (TokenAmount, TokenAmount, TokenAmount)>(p: &PrecommitActivation, activation_epoch: ChainEpoch, pledges: &F) -> (res: SectorOnChainInfo)
    requires
        forall|d: ChainEpoch, w: i128, v: i128| pledges.requires((d, w, v)),
        i64::MIN <= p.expiration - activation_epoch <= i64::MAX,
        fits_i128(p.unverified_space * (p.expiration - activation_epoch)),
        fits_i128(p.verified_space * (p.expiration - activation_epoch)),
    ensures
        activated_record(res, *p, activation_epoch, pledges),
{
    let duration: i64 = (p.expiration as i128 - activation_epoch as i128) as i64;
    let deal_weight = p.unverified_space * duration as i128;
    let verified_deal_weight = p.verified_space * duration as i128;
    let r = pledges(duration, deal_weight, verified_deal_weight);
    SectorOnChainInfo {
        sector_number: p.sector_number,
        seal_proof: p.seal_proof,
        sealed_cid: copy_bytes(&p.sealed_cid),
        activation: activation_epoch,
        expiration: p.expiration,
        deal_weight,
        verified_deal_weight,
        initial_pledge: r.2,
        expected_day_reward: r.0,
        expected_storage_pledge: r.1,
        power_base_epoch: activation_epoch,
        replaced_day_reward: 0,
        sector_key_cid: None,
        simple_qa_power: true,
        daily_fee: 0,
    }
}

/// Raw-byte and quality-adjusted power.
#[derive(Clone, Copy, Debug, PartialEq, Eq, Structural)]
pub struct PowerPair {
    pub raw: i128,
    pub qa: i128,
}

/// Bound on the quality-adjusted power of one sector: ten times the largest size a `u64`
/// holds (the verified-deal multiplier).
pub const MAX_SECTOR_QA_POWER: i128 = 184_467_440_737_095_516_150;

/// The power of one sector of `sector_size` bytes: its size as raw power, and the
/// quality-adjusted power `qa_power` gives for it.
pub fn power_for_sector<F: Fn(u64, &SectorOnChainInfo) -> i128>(sector_size: u64, sector: &SectorOnChainInfo, qa_power: &F) -> (res: PowerPair)
    requires
        forall|z: u64, s: &SectorOnChainInfo| qa_power.requires((z, s)),
    ensures
        res.raw == sector_size,
        qa_power.ensures((sector_size, sector), res.qa),
{
    PowerPair { raw: sector_size as i128, qa: qa_power(sector_size, sector) }
}

/// The total power of sectors of `sector_size` bytes each: the size times their number as
/// raw power, and the sum of the quality-adjusted powers `qa_power` gives for them.
pub fn power_for_sectors<F: Fn(u64, &SectorOnChainInfo) -> i128>(sector_size: u64, sectors: &[SectorOnChainInfo], qa_power: &F) -> (res: PowerPair)
    requires
        sectors@.len() <= u32::MAX,
        forall|z: u64, s: &SectorOnChainInfo| qa_power.requires((z, s)),
        forall|z: u64, s: &SectorOnChainInfo, q: i128| qa_power.ensures((z, s), q) ==> 0 <= q <= MAX_SECTOR_QA_POWER,
    ensures
        res.raw == sector_size * sectors@.len(),
        exists|qs: Seq<i128>| #![trigger sum_amounts(qs)] {
            &&& qs.len() == sectors@.len()
            &&& forall|i: int| 0 <= i < qs.len() ==> qa_power.ensures((sector_size, &sectors@[i]), #[trigger] qs[i])
            &&& res.qa == sum_amounts(qs)
        },
{
    let mut qa: i128 = 0;
    let mut qs: Vec<i128> = Vec::new();
    let mut i: usize = 0;
    while i < sectors.len()
        invariant
            i <= sectors@.len(),
            sectors@.len() <= u32::MAX,
            forall|z: u64, s: &SectorOnChainInfo| qa_power.requires((z, s)),
            forall|z: u64, s: &SectorOnChainInfo, q: i128| qa_power.ensures((z, s), q) ==> 0 <= q <= MAX_SECTOR_QA_POWER,
            qs@.len() == i,
            forall|j: int| 0 <= j < i ==> qa_power.ensures((sector_size, &sectors@[j]), #[trigger] qs@[j]),
            qa == sum_amounts(qs@),
            0 <= qa <= i * MAX_SECTOR_QA_POWER,
        decreases sectors@.len() - i,
    {
        let q = qa_power(sector_size, &sectors[i]);
        assert(i * MAX_SECTOR_QA_POWER <= 0xffff_ffff * MAX_SECTOR_QA_POWER) by (nonlinear_arith)
            requires i <= 0xffff_ffff;
        let ghost before = qs@;
        qa = qa + q;
        qs.push(q);
        assert(qs@.drop_last() =~= before);
        i = i + 1;
    }
    assert(sector_size * sectors@.len() <= 0xffff_ffff_ffff_ffff * 0xffff_ffff) by (nonlinear_arith)
        requires sector_size <= 0xffff_ffff_ffff_ffff, sectors@.len() <= 0xffff_ffff;
    let raw: i128 = sector_size as i128 * sectors.len() as i128;
    PowerPair { raw, qa }
}


/// Law: the deal weight left after a non-simple extension is the old weight scaled by the
/// remaining part of the lifetime since the power base epoch, rounded down:
/// `r * (expiration - power_base_epoch) <= weight * (expiration - curr) < (r + 1) * (expiration - power_base_epoch)`.
pub proof fn lemma_remaining_weight_is_floor_share(weight: int, s: SectorOnChainInfo, curr_epoch: int)
    requires
        s.expiration > s.power_base_epoch,
    ensures
        ({
            let r = remaining_weight_floor(weight, s, curr_epoch);
            let life = s.expiration - s.power_base_epoch;
            &&& r * life <= weight * (s.expiration - curr_epoch)
            &&& weight * (s.expiration - curr_epoch) < (r + 1) * life
        }),
{
    let n = weight * (s.expiration - curr_epoch);
    let life = s.expiration - s.power_base_epoch;
    vstd::arithmetic::div_mod::lemma_fundamental_div_mod(n, life);
    let q = n / life;
    assert(q * life == life * q) by (nonlinear_arith);
    assert((q + 1) * life == life * q + life) by (nonlinear_arith);
}

/// Law: the deal weight left after a non-simple extension depends on the power base epoch
/// and not on the activation epoch: two records that differ only in activation keep the
/// same weight.
pub proof fn lemma_remaining_weight_ignores_activation(weight: int, s: SectorOnChainInfo, t: SectorOnChainInfo, curr_epoch: int)
    requires
        s.expiration == t.expiration,
        s.power_base_epoch == t.power_base_epoch,
    ensures
        remaining_weight_floor(weight, s, curr_epoch) == remaining_weight_floor(weight, t, curr_epoch),
{
}

} // verus!
