//! The fund accounting that ends the miner actor's sector activation, replica update,
//! early termination and proving-deadline handling, once the per-sector amounts are known.

use vstd::prelude::*;
use crate::balance_table::{prefix_sums_fit, sum_amounts};
use crate::error::{ActorError, USR_ILLEGAL_ARGUMENT, USR_ILLEGAL_STATE, USR_INSUFFICIENT_FUNDS};
use crate::miner_state::{balance_invariants_hold, fits_i128, numbers_present, same_scalars, same_sectors, sectors_after, unlocked_spec, State};
use crate::policy::{ChainEpoch, Policy, TokenAmount, TOTAL_FILECOIN_ATTO};
use crate::miner_sectors::{activated_record, new_replica_sector_infos, new_sector_info, replica_updated, PrecommitActivation, ReplicaUpdateActivatedData, SectorOnChainInfo};

verus! {

/// Exit code for a miner whose balance no longer covers its locked funds, deposits and
/// pledge.
pub const ERR_BALANCE_INVARIANTS_BROKEN: u32 = 1000;

/// The amounts of one pre-committed sector being activated.
#[derive(Clone, Copy, Debug)]
pub struct NewSectorFunds {
    pub sector_number: u64,
    pub expiration: ChainEpoch,
    /// The deposit made at pre-commit, released on activation.
    pub pre_commit_deposit: TokenAmount,
    /// The initial pledge the sector requires.
    pub initial_pledge: TokenAmount,
}

/// The pre-commit deposits of a list of sectors.
pub open spec fn deposits_of(s: Seq<NewSectorFunds>) -> Seq<i128> {
    s.map_values(|x: NewSectorFunds| x.pre_commit_deposit)
}

/// The initial pledges of a list of sectors.
pub open spec fn pledges_of(s: Seq<NewSectorFunds>) -> Seq<i128> {
    s.map_values(|x: NewSectorFunds| x.initial_pledge)
}

/// Rejects (as an illegal argument) sectors whose lifetime from `activation_epoch` is
/// shorter than the policy minimum.
pub fn check_new_sector_durations(policy: &Policy, activation_epoch: ChainEpoch, sectors: &[NewSectorFunds]) -> (res: Result<(), ActorError>)
    ensures
        res is Ok <==> forall|i: int| 0 <= i < sectors@.len() ==>
            (#[trigger] sectors@[i]).expiration - activation_epoch >= policy.min_sector_expiration,
        res is Err ==> res->Err_0.exit_code == USR_ILLEGAL_ARGUMENT,
{
    let mut i: usize = 0;
    while i < sectors.len()
        invariant
            i <= sectors@.len(),
            forall|j: int| 0 <= j < i ==> (#[trigger] sectors@[j]).expiration - activation_epoch >= policy.min_sector_expiration,
        decreases sectors@.len() - i,
    {
        let duration: i128 = sectors[i].expiration as i128 - activation_epoch as i128;
        if duration < policy.min_sector_expiration as i128 {
            return Err(ActorError::illegal_argument());
        }
        i = i + 1;
    }
    Ok(())
}

/// The sum of the first `n` amounts of a list, where every prefix sum fits.
fn sum_prefix(amounts: Ghost<Seq<i128>>, total: i128, next: i128, n: Ghost<int>) -> (res: i128)
    requires
        0 <= n@ < amounts@.len(),
        amounts@[n@] == next,
        prefix_sums_fit(amounts@),
        total == sum_amounts(amounts@.take(n@)),
    ensures
        res == sum_amounts(amounts@.take(n@ + 1)),
{
    assert(amounts@.take(n@ + 1).drop_last() =~= amounts@.take(n@));
    assert(fits_i128(sum_amounts(amounts@.take(n@ + 1))));
    total + next
}

/// Whether the miner's funds after an activation are acceptable, and the error otherwise:
/// the deposits released must not exceed those held, the unlocked balance must cover the
/// new pledge, the pledge must stay non-negative, and the balance invariants must hold.
pub open spec fn activation_error(st: &State, balance: int, deposits: int, pledge: int) -> Option<u32> {
    let pcd = st.pre_commit_deposits - deposits;
    let unlocked = balance - st.locked_funds - pcd - st.initial_pledge;
    if pcd < 0 {
        Some(USR_ILLEGAL_STATE)
    } else if unlocked < 0 {
        Some(USR_ILLEGAL_STATE)
    } else if unlocked < pledge {
        Some(USR_INSUFFICIENT_FUNDS)
    } else if st.initial_pledge + pledge < 0 {
        Some(USR_ILLEGAL_STATE)
    } else if !(pcd >= 0 && st.locked_funds >= 0 && st.initial_pledge + pledge >= 0 && st.fee_debt >= 0
        && balance >= pcd + st.locked_funds + st.initial_pledge + pledge) {
        Some(ERR_BALANCE_INVARIANTS_BROKEN)
    } else {
        None
    }
}

/// Settles the funds of newly activated sectors: releases their pre-commit deposits, checks
/// that the unlocked balance covers their total initial pledge, adds that pledge, and checks
/// the balance invariants. Returns the total pledge. On failure the state is unchanged.
pub fn settle_activated_sector_funds(state: &mut State, current_balance: TokenAmount, sectors: &[NewSectorFunds]) -> (res: Result<TokenAmount, ActorError>)
    requires
        prefix_sums_fit(deposits_of(sectors@)),
        prefix_sums_fit(pledges_of(sectors@)),
        fits_i128(-sum_amounts(deposits_of(sectors@))),
        fits_i128(old(state).pre_commit_deposits - sum_amounts(deposits_of(sectors@))),
        fits_i128(old(state).initial_pledge + sum_amounts(pledges_of(sectors@))),
        fits_i128(current_balance - old(state).locked_funds),
        fits_i128(current_balance - old(state).locked_funds - (old(state).pre_commit_deposits - sum_amounts(deposits_of(sectors@)))),
        fits_i128(current_balance - old(state).locked_funds - (old(state).pre_commit_deposits - sum_amounts(deposits_of(sectors@))) - old(state).initial_pledge),
        fits_i128(old(state).pre_commit_deposits - sum_amounts(deposits_of(sectors@)) + old(state).locked_funds),
        fits_i128(old(state).pre_commit_deposits - sum_amounts(deposits_of(sectors@)) + old(state).locked_funds
            + old(state).initial_pledge + sum_amounts(pledges_of(sectors@))),
    ensures
        same_sectors(old(state), final(state)),
        final(state).locked_funds == old(state).locked_funds,
        final(state).fee_debt == old(state).fee_debt,
        match activation_error(old(state), current_balance as int, sum_amounts(deposits_of(sectors@)), sum_amounts(pledges_of(sectors@))) {
            Some(code) => {
                &&& res is Err && res->Err_0.exit_code == code
                &&& final(state).pre_commit_deposits == old(state).pre_commit_deposits
                &&& final(state).initial_pledge == old(state).initial_pledge
            },
            None => {
                &&& res == Ok::<TokenAmount, ActorError>(sum_amounts(pledges_of(sectors@)) as i128)
                &&& final(state).pre_commit_deposits == old(state).pre_commit_deposits - sum_amounts(deposits_of(sectors@))
                &&& final(state).initial_pledge == old(state).initial_pledge + sum_amounts(pledges_of(sectors@))
                &&& balance_invariants_hold(final(state), current_balance as int)
            },
        },
{
    let ghost ds = deposits_of(sectors@);
    let ghost ps = pledges_of(sectors@);
    let mut deposit_to_unlock: i128 = 0;
    let mut total_pledge: i128 = 0;
    let mut i: usize = 0;
    assert(ds.take(0) =~= Seq::<i128>::empty());
    assert(ps.take(0) =~= Seq::<i128>::empty());
    while i < sectors.len()
        invariant
            i <= sectors@.len(),
            ds == deposits_of(sectors@),
            ps == pledges_of(sectors@),
            ds.len() == sectors@.len(),
            ps.len() == sectors@.len(),
            prefix_sums_fit(ds),
            prefix_sums_fit(ps),
            deposit_to_unlock == sum_amounts(ds.take(i as int)),
            total_pledge == sum_amounts(ps.take(i as int)),
        decreases sectors@.len() - i,
    {
        deposit_to_unlock = sum_prefix(Ghost(ds), deposit_to_unlock, sectors[i].pre_commit_deposit, Ghost(i as int));
        total_pledge = sum_prefix(Ghost(ps), total_pledge, sectors[i].initial_pledge, Ghost(i as int));
        i = i + 1;
    }
    assert(ds.take(ds.len() as int) =~= ds);
    assert(ps.take(ps.len() as int) =~= ps);
    let saved_deposits = state.pre_commit_deposits;
    let saved_pledge = state.initial_pledge;
    if state.add_pre_commit_deposit(-deposit_to_unlock).is_err() {
        return Err(ActorError::illegal_state());
    }
    let unlocked_balance = match state.get_unlocked_balance(current_balance) {
        Ok(u) => u,
        Err(_) => {
            state.pre_commit_deposits = saved_deposits;
            return Err(ActorError::illegal_state());
        },
    };
    if unlocked_balance < total_pledge {
        state.pre_commit_deposits = saved_deposits;
        return Err(ActorError::insufficient_funds());
    }
    if state.add_initial_pledge(total_pledge).is_err() {
        state.pre_commit_deposits = saved_deposits;
        return Err(ActorError::illegal_state());
    }
    if state.check_balance_invariants(current_balance).is_err() {
        state.pre_commit_deposits = saved_deposits;
        state.initial_pledge = saved_pledge;
        return Err(ActorError { exit_code: ERR_BALANCE_INVARIANTS_BROKEN });
    }
    Ok(total_pledge)
}

/// The error, if any, of adding `pledge_delta` to the pledge after a replica update: a
/// positive delta must be covered by the unlocked balance, the pledge must stay
/// non-negative, and the balance invariants must hold.
pub open spec fn replica_pledge_error(st: &State, balance: int, pledge_delta: int) -> Option<u32> {
    let unlocked = unlocked_spec(st, balance);
    if pledge_delta > 0 && unlocked < 0 {
        Some(USR_ILLEGAL_STATE)
    } else if pledge_delta > 0 && unlocked < pledge_delta {
        Some(USR_INSUFFICIENT_FUNDS)
    } else if st.initial_pledge + pledge_delta < 0 {
        Some(USR_ILLEGAL_STATE)
    } else if !(st.pre_commit_deposits >= 0 && st.locked_funds >= 0 && st.initial_pledge + pledge_delta >= 0
        && st.fee_debt >= 0 && balance >= st.pre_commit_deposits + st.locked_funds + st.initial_pledge + pledge_delta) {
        Some(ERR_BALANCE_INVARIANTS_BROKEN)
    } else {
        None
    }
}

/// Settles the pledge change of replica updates: a positive change must be covered by the
/// unlocked balance; the change is added to the pledge and the balance invariants checked.
/// On failure the state is unchanged.
pub fn settle_replica_update_pledge(state: &mut State, current_balance: TokenAmount, pledge_delta: TokenAmount) -> (res: Result<(), ActorError>)
    requires
        fits_i128(old(state).initial_pledge + pledge_delta),
        fits_i128(current_balance - old(state).locked_funds),
        fits_i128(current_balance - old(state).locked_funds - old(state).pre_commit_deposits),
        fits_i128(unlocked_spec(old(state), current_balance as int)),
        fits_i128(old(state).pre_commit_deposits + old(state).locked_funds),
        fits_i128(old(state).pre_commit_deposits + old(state).locked_funds + old(state).initial_pledge + pledge_delta),
    ensures
        same_sectors(old(state), final(state)),
        final(state).locked_funds == old(state).locked_funds,
        final(state).fee_debt == old(state).fee_debt,
        final(state).pre_commit_deposits == old(state).pre_commit_deposits,
        match replica_pledge_error(old(state), current_balance as int, pledge_delta as int) {
            Some(code) => res is Err && res->Err_0.exit_code == code
                && final(state).initial_pledge == old(state).initial_pledge,
            None => res is Ok && final(state).initial_pledge == old(state).initial_pledge + pledge_delta
                && balance_invariants_hold(final(state), current_balance as int),
        },
{
    if pledge_delta > 0 {
        let unlocked_balance = match state.get_unlocked_balance(current_balance) {
            Ok(u) => u,
            Err(_) => {
                return Err(ActorError::illegal_state());
            },
        };
        if unlocked_balance < pledge_delta {
            return Err(ActorError::insufficient_funds());
        }
    }
    if state.add_initial_pledge(pledge_delta).is_err() {
        return Err(ActorError::illegal_state());
    }
    if state.check_balance_invariants(current_balance).is_err() {
        state.initial_pledge = state.initial_pledge - pledge_delta;
        return Err(ActorError { exit_code: ERR_BALANCE_INVARIANTS_BROKEN });
    }
    Ok(())
}

/// The amounts of one sector terminated early.
#[derive(Clone, Copy, Debug)]
pub struct TerminatedSectorFunds {
    pub sector_number: u64,
    /// The sector's initial pledge, no longer required.
    pub initial_pledge: TokenAmount,
    /// The termination penalty owed for the sector.
    pub penalty: TokenAmount,
    /// Whether the sector holds deal data.
    pub has_data: bool,
}

/// The totals of an early termination.
#[derive(Debug)]
pub struct EarlyTerminationTotals {
    /// Sum of the terminated sectors' initial pledges.
    pub total_initial_pledge: TokenAmount,
    /// Sum of their penalties.
    pub total_penalty: TokenAmount,
    /// Their numbers, in order.
    pub terminated_sector_nums: Vec<u64>,
    /// The numbers of those holding deal data, in order.
    pub sectors_with_data: Vec<u64>,
}

/// The initial pledges of terminated sectors.
pub open spec fn terminated_pledges(s: Seq<TerminatedSectorFunds>) -> Seq<i128> {
    s.map_values(|x: TerminatedSectorFunds| x.initial_pledge)
}

/// The penalties of terminated sectors.
pub open spec fn terminated_penalties(s: Seq<TerminatedSectorFunds>) -> Seq<i128> {
    s.map_values(|x: TerminatedSectorFunds| x.penalty)
}

/// The numbers of the terminated sectors that hold deal data, in order.
pub open spec fn sectors_with_data(s: Seq<TerminatedSectorFunds>) -> Seq<u64>
    decreases s.len(),
{
    if s.len() == 0 {
        Seq::empty()
    } else if s.last().has_data {
        sectors_with_data(s.drop_last()).push(s.last().sector_number)
    } else {
        sectors_with_data(s.drop_last())
    }
}

/// Applies an early termination to the miner's funds: the total penalty is added to the fee
/// debt and the total initial pledge released. A negative total penalty, or a release that
/// would make the pledge negative, is an illegal state and leaves the funds unchanged.
pub fn apply_early_termination_funds(state: &mut State, sectors: &[TerminatedSectorFunds]) -> (res: Result<EarlyTerminationTotals, ActorError>)
    requires
        prefix_sums_fit(terminated_pledges(sectors@)),
        prefix_sums_fit(terminated_penalties(sectors@)),
        fits_i128(old(state).fee_debt + sum_amounts(terminated_penalties(sectors@))),
        fits_i128(old(state).initial_pledge - sum_amounts(terminated_pledges(sectors@))),
        fits_i128(-sum_amounts(terminated_pledges(sectors@))),
    ensures
        same_sectors(old(state), final(state)),
        final(state).locked_funds == old(state).locked_funds,
        final(state).pre_commit_deposits == old(state).pre_commit_deposits,
        ({
            let pledge = sum_amounts(terminated_pledges(sectors@));
            let penalty = sum_amounts(terminated_penalties(sectors@));
            if penalty < 0 || old(state).initial_pledge - pledge < 0 {
                &&& res is Err && res->Err_0.exit_code == USR_ILLEGAL_STATE
                &&& final(state).fee_debt == old(state).fee_debt
                &&& final(state).initial_pledge == old(state).initial_pledge
            } else {
                &&& res is Ok
                &&& res->Ok_0.total_initial_pledge == pledge
                &&& res->Ok_0.total_penalty == penalty
                &&& res->Ok_0.terminated_sector_nums@ == sectors@.map_values(|x: TerminatedSectorFunds| x.sector_number)
                &&& res->Ok_0.sectors_with_data@ == sectors_with_data(sectors@)
                &&& final(state).fee_debt == old(state).fee_debt + penalty
                &&& final(state).initial_pledge == old(state).initial_pledge - pledge
            }
        }),
{
    let ghost pl = terminated_pledges(sectors@);
    let ghost pe = terminated_penalties(sectors@);
    let mut total_initial_pledge: i128 = 0;
    let mut total_penalty: i128 = 0;
    let mut terminated_sector_nums: Vec<u64> = Vec::new();
    let mut with_data: Vec<u64> = Vec::new();
    let mut i: usize = 0;
    assert(pl.take(0) =~= Seq::<i128>::empty());
    assert(pe.take(0) =~= Seq::<i128>::empty());
    assert(sectors@.subrange(0, 0) =~= Seq::<TerminatedSectorFunds>::empty());
    while i < sectors.len()
        invariant
            i <= sectors@.len(),
            pl == terminated_pledges(sectors@),
            pe == terminated_penalties(sectors@),
            pl.len() == sectors@.len(),
            pe.len() == sectors@.len(),
            prefix_sums_fit(pl),
            prefix_sums_fit(pe),
            total_initial_pledge == sum_amounts(pl.take(i as int)),
            total_penalty == sum_amounts(pe.take(i as int)),
            terminated_sector_nums@ == sectors@.subrange(0, i as int).map_values(|x: TerminatedSectorFunds| x.sector_number),
            with_data@ == sectors_with_data(sectors@.subrange(0, i as int)),
        decreases sectors@.len() - i,
    {
        let s = sectors[i];
        total_initial_pledge = sum_prefix(Ghost(pl), total_initial_pledge, s.initial_pledge, Ghost(i as int));
        total_penalty = sum_prefix(Ghost(pe), total_penalty, s.penalty, Ghost(i as int));
        terminated_sector_nums.push(s.sector_number);
        if s.has_data {
            with_data.push(s.sector_number);
        }
        assert(sectors@.subrange(0, i + 1).drop_last() =~= sectors@.subrange(0, i as int));
        assert(terminated_sector_nums@ =~= sectors@.subrange(0, i + 1).map_values(|x: TerminatedSectorFunds| x.sector_number));
        i = i + 1;
    }
    assert(pl.take(pl.len() as int) =~= pl);
    assert(pe.take(pe.len() as int) =~= pe);
    assert(sectors@.subrange(0, sectors@.len() as int) =~= sectors@);
    if total_penalty < 0 {
        return Err(ActorError::illegal_state());
    }
    if state.initial_pledge - total_initial_pledge < 0 {
        return Err(ActorError::illegal_state());
    }
    let penalty_applied = state.apply_penalty(total_penalty);
    assert(penalty_applied is Ok);
    let pledge_released = state.add_initial_pledge(-total_initial_pledge);
    assert(pledge_released is Ok);
    Ok(EarlyTerminationTotals {
        total_initial_pledge,
        total_penalty,
        terminated_sector_nums,
        sectors_with_data: with_data,
    })
}

/// Ends a proving deadline's cron handling: whether the miner must keep its deadline cron
/// (it still holds deposits, pledge or locked funds); if not, the cron is marked inactive.
pub fn finish_deadline_cron(state: &mut State) -> (res: bool)
    ensures
        res == (old(state).pre_commit_deposits != 0 || old(state).initial_pledge != 0 || old(state).locked_funds != 0),
        final(state).deadline_cron_active == (old(state).deadline_cron_active && res),
        final(state).pre_commit_deposits == old(state).pre_commit_deposits,
        final(state).locked_funds == old(state).locked_funds,
        final(state).fee_debt == old(state).fee_debt,
        final(state).initial_pledge == old(state).initial_pledge,
        final(state).proving_period_start == old(state).proving_period_start,
        final(state).current_deadline == old(state).current_deadline,
{
    let continue_cron = state.continue_deadline_cron();
    if !continue_cron {
        state.deadline_cron_active = false;
    }
    continue_cron
}


/// The balance left once `amount` is burnt: burning sends only a positive amount.
pub open spec fn balance_after_burn(balance: int, amount: int) -> int {
    if amount > 0 { balance - amount } else { balance }
}

/// The error, if any, of paying an aggregation fee: the unlocked balance must be known
/// (non-negative) and cover the fee, and the balance invariants must hold once it is burnt.
pub open spec fn aggregate_fee_error(st: &State, balance: int, fee: int) -> Option<u32> {
    let unlocked = unlocked_spec(st, balance);
    if unlocked < 0 {
        Some(USR_ILLEGAL_STATE)
    } else if unlocked < fee {
        Some(USR_INSUFFICIENT_FUNDS)
    } else if !balance_invariants_hold(st, balance_after_burn(balance, fee)) {
        Some(ERR_BALANCE_INVARIANTS_BROKEN)
    } else {
        None
    }
}

/// Decides the payment of an aggregated proof's network fee from the miner's unlocked
/// balance: refuses it when the unlocked balance is negative or does not cover the fee, and
/// checks the balance invariants against the balance left once the fee is burnt. Returns
/// the amount to burn: the fee when it is positive, else nothing.
pub fn pay_aggregate_seal_proof_fee(state: &State, current_balance: TokenAmount, aggregate_fee: TokenAmount) -> (res: Result<TokenAmount, ActorError>)
    requires
        fits_i128(current_balance - state.locked_funds),
        fits_i128(current_balance - state.locked_funds - state.pre_commit_deposits),
        fits_i128(unlocked_spec(state, current_balance as int)),
        fits_i128(current_balance - aggregate_fee),
        fits_i128(state.pre_commit_deposits + state.locked_funds),
        fits_i128(state.pre_commit_deposits + state.locked_funds + state.initial_pledge),
    ensures
        match aggregate_fee_error(state, current_balance as int, aggregate_fee as int) {
            Some(code) => res is Err && res->Err_0.exit_code == code,
            None => res == Ok::<TokenAmount, ActorError>(if aggregate_fee > 0 { aggregate_fee } else { 0 }),
        },
{
    let unlocked_balance = match state.get_unlocked_balance(current_balance) {
        Ok(u) => u,
        Err(_) => {
            return Err(ActorError::illegal_state());
        },
    };
    if unlocked_balance < aggregate_fee {
        return Err(ActorError::insufficient_funds());
    }
    let to_burn: TokenAmount = if aggregate_fee > 0 { aggregate_fee } else { 0 };
    let balance_after = current_balance - to_burn;
    if state.check_balance_invariants(balance_after).is_err() {
        return Err(ActorError { exit_code: ERR_BALANCE_INVARIANTS_BROKEN });
    }
    Ok(to_burn)
}


/// The power and pledge change of replacing one updated sector in its partition.
#[derive(Clone, Copy, Debug)]
pub struct PartitionDelta {
    pub raw_power: i128,
    pub qa_power: i128,
    pub pledge: TokenAmount,
}

/// The raw power changes of a list of partition changes.
pub open spec fn raw_deltas(d: Seq<PartitionDelta>) -> Seq<i128> {
    d.map_values(|x: PartitionDelta| x.raw_power)
}

/// The quality-adjusted power changes of a list of partition changes.
pub open spec fn qa_deltas(d: Seq<PartitionDelta>) -> Seq<i128> {
    d.map_values(|x: PartitionDelta| x.qa_power)
}

/// The pledge changes of a list of partition changes.
pub open spec fn pledge_deltas(d: Seq<PartitionDelta>) -> Seq<i128> {
    d.map_values(|x: PartitionDelta| x.pledge)
}

/// Ends the state update of replica updates, once each updated sector has replaced its
/// old record in its partition with the change `deltas[i]`: a number of replaced sectors
/// other than `expected_count` is an illegal state; otherwise the total pledge change is
/// settled by `settle_replica_update_pledge`. Returns the total raw and quality-adjusted
/// power change and the total pledge change. On failure the state is unchanged.
pub fn settle_replica_update_states(state: &mut State, current_balance: TokenAmount, deltas: &[PartitionDelta], expected_count: usize) -> (res: Result<(i128, i128, TokenAmount), ActorError>)
    requires
        prefix_sums_fit(raw_deltas(deltas@)),
        prefix_sums_fit(qa_deltas(deltas@)),
        prefix_sums_fit(pledge_deltas(deltas@)),
        fits_i128(old(state).initial_pledge + sum_amounts(pledge_deltas(deltas@))),
        fits_i128(current_balance - old(state).locked_funds),
        fits_i128(current_balance - old(state).locked_funds - old(state).pre_commit_deposits),
        fits_i128(unlocked_spec(old(state), current_balance as int)),
        fits_i128(old(state).pre_commit_deposits + old(state).locked_funds),
        fits_i128(old(state).pre_commit_deposits + old(state).locked_funds + old(state).initial_pledge + sum_amounts(pledge_deltas(deltas@))),
    ensures
        same_sectors(old(state), final(state)),
        final(state).locked_funds == old(state).locked_funds,
        final(state).fee_debt == old(state).fee_debt,
        final(state).pre_commit_deposits == old(state).pre_commit_deposits,
        ({
            let pledge = sum_amounts(pledge_deltas(deltas@));
            if deltas@.len() != expected_count {
                &&& res is Err && res->Err_0.exit_code == USR_ILLEGAL_STATE
                &&& final(state).initial_pledge == old(state).initial_pledge
            } else {
                match replica_pledge_error(old(state), current_balance as int, pledge) {
                    Some(code) => res is Err && res->Err_0.exit_code == code
                        && final(state).initial_pledge == old(state).initial_pledge,
                    None => res == Ok::<(i128, i128, TokenAmount), ActorError>((
                            sum_amounts(raw_deltas(deltas@)) as i128,
                            sum_amounts(qa_deltas(deltas@)) as i128,
                            pledge as i128))
                        && final(state).initial_pledge == old(state).initial_pledge + pledge
                        && balance_invariants_hold(final(state), current_balance as int),
                }
            }
        }),
{
    let ghost rs = raw_deltas(deltas@);
    let ghost qs = qa_deltas(deltas@);
    let ghost ps = pledge_deltas(deltas@);
    let mut raw: i128 = 0;
    let mut qa: i128 = 0;
    let mut pledge: i128 = 0;
    let mut i: usize = 0;
    assert(rs.take(0) =~= Seq::<i128>::empty());
    assert(qs.take(0) =~= Seq::<i128>::empty());
    assert(ps.take(0) =~= Seq::<i128>::empty());
    while i < deltas.len()
        invariant
            i <= deltas@.len(),
            rs == raw_deltas(deltas@),
            qs == qa_deltas(deltas@),
            ps == pledge_deltas(deltas@),
            rs.len() == deltas@.len(),
            qs.len() == deltas@.len(),
            ps.len() == deltas@.len(),
            prefix_sums_fit(rs),
            prefix_sums_fit(qs),
            prefix_sums_fit(ps),
            raw == sum_amounts(rs.take(i as int)),
            qa == sum_amounts(qs.take(i as int)),
            pledge == sum_amounts(ps.take(i as int)),
        decreases deltas@.len() - i,
    {
        raw = sum_prefix(Ghost(rs), raw, deltas[i].raw_power, Ghost(i as int));
        qa = sum_prefix(Ghost(qs), qa, deltas[i].qa_power, Ghost(i as int));
        pledge = sum_prefix(Ghost(ps), pledge, deltas[i].pledge, Ghost(i as int));
        i = i + 1;
    }
    assert(rs.take(rs.len() as int) =~= rs);
    assert(qs.take(qs.len() as int) =~= qs);
    assert(ps.take(ps.len() as int) =~= ps);
    if deltas.len() != expected_count {
        return Err(ActorError::illegal_state());
    }
    settle_replica_update_pledge(state, current_balance, pledge)?;
    Ok((raw, qa, pledge))
}


/// Whether `recs` are the records of sectors `olds` after the replica updates that activated
/// `activated`, in order (see `replica_updated`).
pub open spec fn replica_records<F: Fn(ChainEpoch, i128, i128) -> (TokenAmount, TokenAmount, TokenAmount)>(recs: Seq<SectorOnChainInfo>, olds: Seq<SectorOnChainInfo>, activated: Seq<ReplicaUpdateActivatedData>, curr_epoch: ChainEpoch, pledges: &F) -> bool {
    &&& recs.len() == olds.len()
    &&& forall|i: int| 0 <= i < olds.len() ==> replica_updated(#[trigger] recs[i], olds[i], activated[i], curr_epoch, pledges)
}

/// Applies replica updates at `curr_epoch` to the miner state: sector `sector_infos[i]`
/// gets its new record from the data `activated[i]` (`update_existing_sector_info`, with
/// rewards and pledge from `pledges`), and replacing it in its partition changed power and
/// pledge by `deltas[i]`. A number of updates other than `expected_count` is an illegal
/// state; then the pledge change is settled (`settle_replica_update_pledge`) and the new
/// records are stored. Returns the total raw and quality-adjusted power change and the
/// total pledge change. On an error the state is left to be abandoned with the transaction.
pub fn update_replica_states<F: Fn(ChainEpoch, i128, i128) -> (TokenAmount, TokenAmount, TokenAmount)>(state: &mut State, current_balance: TokenAmount, sector_infos: &[SectorOnChainInfo], activated: &[ReplicaUpdateActivatedData], deltas: &[PartitionDelta], expected_count: usize, curr_epoch: ChainEpoch, pledges: &F) -> (res: Result<(i128, i128, TokenAmount), ActorError>)
    requires
        old(state).tables_wf(),
        activated@.len() == sector_infos@.len(),
        deltas@.len() == sector_infos@.len(),
        forall|d: ChainEpoch, w: i128, v: i128| pledges.requires((d, w, v)),
        forall|i: int| 0 <= i < sector_infos@.len() ==> {
            &&& fits_i128(activated@[i].unverified_space * (sector_infos@[i].expiration - curr_epoch))
            &&& fits_i128(activated@[i].verified_space * (sector_infos@[i].expiration - curr_epoch))
            &&& i64::MIN <= #[trigger] sector_infos@[i].expiration - curr_epoch <= i64::MAX
        },
        prefix_sums_fit(raw_deltas(deltas@)),
        prefix_sums_fit(qa_deltas(deltas@)),
        prefix_sums_fit(pledge_deltas(deltas@)),
        fits_i128(old(state).initial_pledge + sum_amounts(pledge_deltas(deltas@))),
        fits_i128(current_balance - old(state).locked_funds),
        fits_i128(current_balance - old(state).locked_funds - old(state).pre_commit_deposits),
        fits_i128(unlocked_spec(old(state), current_balance as int)),
        fits_i128(old(state).pre_commit_deposits + old(state).locked_funds),
        fits_i128(old(state).pre_commit_deposits + old(state).locked_funds + old(state).initial_pledge + sum_amounts(pledge_deltas(deltas@))),
    ensures
        final(state).tables_wf(),
        same_scalars(old(state), final(state)),
        final(state).pre_committed_sectors == old(state).pre_committed_sectors,
        final(state).locked_funds == old(state).locked_funds,
        final(state).fee_debt == old(state).fee_debt,
        final(state).pre_commit_deposits == old(state).pre_commit_deposits,
        exists|recs: Seq<SectorOnChainInfo>| #![trigger replica_records(recs, sector_infos@, activated@, curr_epoch, pledges)] {
            let pledge = sum_amounts(pledge_deltas(deltas@));
            &&& replica_records(recs, sector_infos@, activated@, curr_epoch, pledges)
            &&& if sector_infos@.len() != expected_count {
                &&& res is Err && res->Err_0.exit_code == USR_ILLEGAL_STATE
                &&& final(state).initial_pledge == old(state).initial_pledge
            } else {
                match replica_pledge_error(old(state), current_balance as int, pledge) {
                    Some(code) => res is Err && res->Err_0.exit_code == code
                        && final(state).initial_pledge == old(state).initial_pledge,
                    None => {
                        &&& res == Ok::<(i128, i128, TokenAmount), ActorError>((
                            sum_amounts(raw_deltas(deltas@)) as i128,
                            sum_amounts(qa_deltas(deltas@)) as i128,
                            pledge as i128))
                        &&& final(state).sectors.map() == sectors_after(old(state).sectors.map(), recs)
                        &&& final(state).initial_pledge == old(state).initial_pledge + pledge
                        &&& balance_invariants_hold(final(state), current_balance as int)
                    },
                }
            }
        },
{
    let records = new_replica_sector_infos(sector_infos, activated, curr_epoch, pledges);
    let ghost recs = records@;
    assert(replica_records(recs, sector_infos@, activated@, curr_epoch, pledges));
    let totals = match settle_replica_update_states(state, current_balance, deltas, expected_count) {
        Ok(t) => t,
        Err(e) => {
            return Err(e);
        },
    };
    state.put_sectors(records);
    Ok(totals)
}

/// The pre-commit deposits of sectors being activated.
pub open spec fn activation_deposits(p: Seq<PrecommitActivation>) -> Seq<i128> {
    p.map_values(|x: PrecommitActivation| x.pre_commit_deposit)
}

/// The initial pledges of sector records.
pub open spec fn record_pledges(r: Seq<SectorOnChainInfo>) -> Seq<i128> {
    r.map_values(|x: SectorOnChainInfo| x.initial_pledge)
}

proof fn lemma_bounded_sums(s: Seq<i128>)
    requires
        forall|i: int| 0 <= i < s.len() ==> 0 <= #[trigger] s[i] <= TOTAL_FILECOIN_ATTO,
    ensures
        0 <= sum_amounts(s) <= s.len() * TOTAL_FILECOIN_ATTO,
    decreases s.len(),
{
    if s.len() > 0 {
        let t = s.drop_last();
        assert forall|i: int| 0 <= i < t.len() implies 0 <= #[trigger] t[i] <= TOTAL_FILECOIN_ATTO by {
            assert(t[i] == s[i]);
        }
        lemma_bounded_sums(t);
    }
}

proof fn lemma_bounded_prefix_sums(s: Seq<i128>)
    requires
        s.len() <= u32::MAX,
        forall|i: int| 0 <= i < s.len() ==> 0 <= #[trigger] s[i] <= TOTAL_FILECOIN_ATTO,
    ensures
        prefix_sums_fit(s),
{
    assert forall|k: int| 0 <= k <= s.len() implies fits_i128(#[trigger] sum_amounts(s.take(k))) by {
        let t = s.take(k);
        assert forall|i: int| 0 <= i < t.len() implies 0 <= #[trigger] t[i] <= TOTAL_FILECOIN_ATTO by {
            assert(t[i] == s[i]);
        }
        lemma_bounded_sums(t);
        assert(t.len() * TOTAL_FILECOIN_ATTO <= 0xffff_ffff * TOTAL_FILECOIN_ATTO) by (nonlinear_arith)
            requires t.len() <= 0xffff_ffff;
    }
}

/// The sector numbers of sectors being activated.
pub open spec fn activation_numbers(p: Seq<PrecommitActivation>) -> Seq<u64> {
    p.map_values(|x: PrecommitActivation| x.sector_number)
}

/// Activates pre-committed sectors at `activation_epoch`: a sector whose lifetime from now is
/// shorter than the policy minimum is an illegal argument; otherwise each gets its new record
/// (`new_sector_info`, with rewards and pledge from `pledges`), the records are stored in the
/// sector table, the pre-commitments are removed (one that is not there is an illegal state),
/// and the funds are settled by `settle_activated_sector_funds` over their deposits and
/// initial pledges. Returns the total pledge. The new sectors are then to be assigned to
/// deadlines. On an error the state is left to be abandoned with the transaction.
pub fn activate_new_sector_infos<F: Fn(ChainEpoch, i128, i128) -> (TokenAmount, TokenAmount, TokenAmount)>(state: &mut State, current_balance: TokenAmount, policy: &Policy, activation_epoch: ChainEpoch, precommits: &[PrecommitActivation], pledges: &F) -> (res: Result<TokenAmount, ActorError>)
    requires
        old(state).tables_wf(),
        precommits@.len() <= u32::MAX,
        forall|d: ChainEpoch, w: i128, v: i128| pledges.requires((d, w, v)),
        forall|d: ChainEpoch, w: i128, v: i128, r: (TokenAmount, TokenAmount, TokenAmount)|
            pledges.ensures((d, w, v), r) ==> 0 <= r.2 <= TOTAL_FILECOIN_ATTO,
        forall|i: int| 0 <= i < precommits@.len() ==> {
            &&& i64::MIN <= #[trigger] precommits@[i].expiration - activation_epoch <= i64::MAX
            &&& fits_i128(precommits@[i].unverified_space * (precommits@[i].expiration - activation_epoch))
            &&& fits_i128(precommits@[i].verified_space * (precommits@[i].expiration - activation_epoch))
        },
        prefix_sums_fit(activation_deposits(precommits@)),
        fits_i128(-sum_amounts(activation_deposits(precommits@))),
        fits_i128(old(state).pre_commit_deposits - sum_amounts(activation_deposits(precommits@))),
        fits_i128(old(state).initial_pledge + precommits@.len() * TOTAL_FILECOIN_ATTO),
        fits_i128(current_balance - old(state).locked_funds),
        fits_i128(current_balance - old(state).locked_funds - (old(state).pre_commit_deposits - sum_amounts(activation_deposits(precommits@)))),
        fits_i128(current_balance - old(state).locked_funds - (old(state).pre_commit_deposits - sum_amounts(activation_deposits(precommits@))) - old(state).initial_pledge),
        fits_i128(old(state).pre_commit_deposits - sum_amounts(activation_deposits(precommits@)) + old(state).locked_funds),
        fits_i128(old(state).pre_commit_deposits - sum_amounts(activation_deposits(precommits@)) + old(state).locked_funds
            + old(state).initial_pledge),
        fits_i128(old(state).pre_commit_deposits - sum_amounts(activation_deposits(precommits@)) + old(state).locked_funds
            + old(state).initial_pledge + precommits@.len() * TOTAL_FILECOIN_ATTO),
    ensures
        final(state).tables_wf(),
        same_scalars(old(state), final(state)),
        final(state).locked_funds == old(state).locked_funds,
        final(state).fee_debt == old(state).fee_debt,
        (exists|i: int| 0 <= i < precommits@.len()
            && (#[trigger] precommits@[i]).expiration - activation_epoch < policy.min_sector_expiration) ==> {
            &&& res is Err && res->Err_0.exit_code == USR_ILLEGAL_ARGUMENT
            &&& same_sectors(old(state), final(state))
            &&& final(state).pre_commit_deposits == old(state).pre_commit_deposits
            &&& final(state).initial_pledge == old(state).initial_pledge
        },
        (forall|i: int| 0 <= i < precommits@.len()
            ==> (#[trigger] precommits@[i]).expiration - activation_epoch >= policy.min_sector_expiration) ==>
            exists|recs: Seq<SectorOnChainInfo>| #![trigger record_pledges(recs)] {
                let deposits = sum_amounts(activation_deposits(precommits@));
                let pledge = sum_amounts(record_pledges(recs));
                &&& recs.len() == precommits@.len()
                &&& forall|i: int| 0 <= i < recs.len() ==> activated_record(#[trigger] recs[i], precommits@[i], activation_epoch, pledges)
                &&& if !numbers_present(old(state).pre_committed_sectors.map(), activation_numbers(precommits@)) {
                    res is Err && res->Err_0.exit_code == USR_ILLEGAL_STATE
                } else {
                    match activation_error(old(state), current_balance as int, deposits, pledge) {
                        Some(code) => {
                            &&& res is Err && res->Err_0.exit_code == code
                            &&& final(state).pre_commit_deposits == old(state).pre_commit_deposits
                            &&& final(state).initial_pledge == old(state).initial_pledge
                        },
                        None => {
                            &&& res == Ok::<TokenAmount, ActorError>(pledge as i128)
                            &&& final(state).sectors.map() == sectors_after(old(state).sectors.map(), recs)
                            &&& final(state).pre_committed_sectors.map()
                                == old(state).pre_committed_sectors.map().remove_keys(activation_numbers(precommits@).to_set())
                            &&& final(state).pre_commit_deposits == old(state).pre_commit_deposits - deposits
                            &&& final(state).initial_pledge == old(state).initial_pledge + pledge
                            &&& balance_invariants_hold(final(state), current_balance as int)
                        },
                    }
                }
            },
{
    let n = precommits.len();
    let mut k: usize = 0;
    while k < n
        invariant
            n == precommits@.len(),
            k <= n,
            forall|j: int| 0 <= j < k ==> (#[trigger] precommits@[j]).expiration - activation_epoch >= policy.min_sector_expiration,
            *state == *old(state),
            old(state).tables_wf(),
        decreases n - k,
    {
        let duration: i128 = precommits[k].expiration as i128 - activation_epoch as i128;
        if duration < policy.min_sector_expiration as i128 {
            assert(precommits@[k as int].expiration - activation_epoch < policy.min_sector_expiration);
            return Err(ActorError::illegal_argument());
        }
        k = k + 1;
    }
    let mut records: Vec<SectorOnChainInfo> = Vec::new();
    let mut funds: Vec<NewSectorFunds> = Vec::new();
    let mut numbers: Vec<u64> = Vec::new();
    let mut i: usize = 0;
    while i < n
        invariant
            n == precommits@.len(),
            n <= u32::MAX,
            i <= n,
            forall|d: ChainEpoch, w: i128, v: i128| pledges.requires((d, w, v)),
            forall|d: ChainEpoch, w: i128, v: i128, r: (TokenAmount, TokenAmount, TokenAmount)|
                pledges.ensures((d, w, v), r) ==> 0 <= r.2 <= TOTAL_FILECOIN_ATTO,
            forall|j: int| 0 <= j < precommits@.len() ==> {
                &&& i64::MIN <= #[trigger] precommits@[j].expiration - activation_epoch <= i64::MAX
                &&& fits_i128(precommits@[j].unverified_space * (precommits@[j].expiration - activation_epoch))
                &&& fits_i128(precommits@[j].verified_space * (precommits@[j].expiration - activation_epoch))
            },
            records@.len() == i,
            funds@.len() == i,
            numbers@.len() == i,
            forall|j: int| 0 <= j < i ==> #[trigger] numbers@[j] == precommits@[j].sector_number,
            forall|j: int| 0 <= j < i ==> activated_record(#[trigger] records@[j], precommits@[j], activation_epoch, pledges),
            forall|j: int| 0 <= j < i ==> (#[trigger] funds@[j]).pre_commit_deposit == precommits@[j].pre_commit_deposit
                && funds@[j].initial_pledge == records@[j].initial_pledge
                && funds@[j].sector_number == precommits@[j].sector_number
                && funds@[j].expiration == precommits@[j].expiration,
        decreases n - i,
    {
        assert(i64::MIN <= precommits@[i as int].expiration - activation_epoch <= i64::MAX);
        let rec = new_sector_info(&precommits[i], activation_epoch, pledges);
        let f = NewSectorFunds {
            sector_number: precommits[i].sector_number,
            expiration: precommits[i].expiration,
            pre_commit_deposit: precommits[i].pre_commit_deposit,
            initial_pledge: rec.initial_pledge,
        };
        records.push(rec);
        funds.push(f);
        numbers.push(precommits[i].sector_number);
        i = i + 1;
    }
    let ghost recs = records@;
    proof {
        assert(deposits_of(funds@) =~= activation_deposits(precommits@));
        assert(pledges_of(funds@) =~= record_pledges(recs));
        assert forall|j: int| 0 <= j < record_pledges(recs).len() implies 0 <= #[trigger] record_pledges(recs)[j] <= TOTAL_FILECOIN_ATTO by {
            let r = recs[j];
            assert(activated_record(r, precommits@[j], activation_epoch, pledges));
        }
        lemma_bounded_prefix_sums(record_pledges(recs));
        lemma_bounded_sums(record_pledges(recs));
        assert(record_pledges(recs).len() * TOTAL_FILECOIN_ATTO == precommits@.len() * TOTAL_FILECOIN_ATTO);
        assert(numbers@ =~= activation_numbers(precommits@));
    }
    state.put_sectors(records);
    let deleted = state.delete_precommitted_sectors(numbers.as_slice());
    if deleted.is_err() {
        return Err(ActorError::illegal_state());
    }
    settle_activated_sector_funds(state, current_balance, funds.as_slice())
}

} // verus!
