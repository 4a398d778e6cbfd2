//! The decisions of the miner actor's proving-deadline cron and of its early-termination
//! processing, as steps from the miner's state and what the store and the other actors
//! report, to the next state and the messages to send.

use vstd::prelude::*;
use crate::error::{ActorError, USR_ILLEGAL_STATE};
use crate::miner_flows::{apply_early_termination_funds, sectors_with_data, terminated_penalties, terminated_pledges, TerminatedSectorFunds};
use crate::miner_info::{process_pending_worker, MinerInfo};
use crate::miner_state::{expired_deposit, fits_i128, increasing, same_sectors, State};
use crate::balance_table::{prefix_sums_fit, sum_amounts};
use crate::policy::{ChainEpoch, TokenAmount};
use crate::miner_sectors::SectorOnChainInfo;

verus! {

/// What the deadline cron learns from the block store and the other actors.
#[derive(Clone, Copy, Debug)]
pub struct DeadlineCronInputs {
    /// Whether the epoch is one at which rewards vest.
    pub vest_now: bool,
    /// What the vesting table releases as vested at this epoch.
    pub vested: TokenAmount,
    /// The raw and quality-adjusted power change of advancing the deadline.
    pub power_delta_raw: i128,
    pub power_delta_qa: i128,
    /// The pledge change of advancing the deadline.
    pub advance_pledge_delta: TokenAmount,
    /// The fee for the power that stayed faulty through the deadline.
    pub continued_fault_penalty: TokenAmount,
    /// What the vesting table releases, vested and not yet vested, towards the fee debt.
    pub repay_vested: TokenAmount,
    pub repay_unvested: TokenAmount,
}

/// What the deadline cron has the actor do once its state is saved.
#[derive(Clone, Copy, Debug, PartialEq, Eq, Structural)]
pub struct DeadlineCronAction {
    /// The power change to report to the power actor.
    pub power_delta_raw: i128,
    pub power_delta_qa: i128,
    /// The amount to burn.
    pub burn: TokenAmount,
    /// The pledge change to report to the power actor.
    pub pledge_delta: TokenAmount,
    /// Whether the miner information changed and must be stored.
    pub save_info: bool,
    /// Whether to enrol the cron for the next deadline.
    pub continue_cron: bool,
    /// Whether early terminations were pending before the deadline advanced.
    pub had_early_terminations: bool,
}

/// The outcome of repaying the fee debt from locked funds `locked` (after the vesting
/// table releases `v` vested and `u` unvested) and the unlocked balance, as
/// `repay_partial_debt_in_priority_order` computes it: the new locked funds and debt, the
/// amount to burn and the amount released; `None` where it refuses.
pub open spec fn partial_repay_spec(locked: int, fee_debt: int, pcd: int, ip: int, balance: int, v: int, u: int) -> Option<(int, int, int, int)> {
    let skip = fee_debt == 0 || locked == 0;
    let total = v + u;
    let l = if skip { locked } else { locked - total };
    let from_vesting = if skip { 0 } else { u };
    let released = if skip { 0 } else { total };
    let unlocked = balance - l - pcd - ip;
    if (!skip && l < 0) || from_vesting > fee_debt || unlocked < 0 {
        None
    } else {
        let to_burn = if unlocked < fee_debt { unlocked } else { fee_debt };
        Some((l, fee_debt - to_burn, to_burn, released))
    }
}

/// The locked funds after the vesting step of the cron, and what vested.
pub open spec fn cron_vest(st: &State, x: DeadlineCronInputs) -> (int, int) {
    if x.vest_now && st.locked_funds != 0 {
        (st.locked_funds - x.vested, x.vested as int)
    } else {
        (st.locked_funds as int, 0)
    }
}

/// The deposits of the pre-commitments among `expired` that are still pre-committed, burnt
/// by the cron.
pub open spec fn cron_expired(st: &State, expired: Seq<u64>) -> int {
    expired_deposit(st.pre_committed_sectors.map(), expired)
}

/// The fee debt once the expired deposits and the continued-fault fee have joined it.
pub open spec fn cron_debt(st: &State, x: DeadlineCronInputs, expired: Seq<u64>) -> int {
    st.fee_debt + cron_expired(st, expired) + x.continued_fault_penalty
}

/// Whether the cron fails, and why nothing then is kept: a vesting release larger than the
/// locked funds, expired deposits larger than those held or negative, a negative fault
/// fee, or a refused debt repayment.
pub open spec fn cron_fails(st: &State, x: DeadlineCronInputs, expired: Seq<u64>, balance: int) -> bool {
    let (l1, nv) = cron_vest(st, x);
    let dep = cron_expired(st, expired);
    ||| (x.vest_now && st.locked_funds != 0 && l1 < 0)
    ||| st.pre_commit_deposits - dep < 0
    ||| dep < 0
    ||| x.continued_fault_penalty < 0
    ||| partial_repay_spec(l1, cron_debt(st, x, expired), st.pre_commit_deposits - dep, st.initial_pledge as int,
        balance, x.repay_vested as int, x.repay_unvested as int) is None
}

/// One run of the proving-deadline cron on the miner's funds. In order: on a vesting
/// epoch the vested rewards leave the locked funds; a pending worker change that is due
/// takes effect; the pre-commitments among `expired_precommits` (those whose pre-commit
/// expired by now, in increasing order) are removed and their deposits, taken out of the
/// pre-commit deposits, join the fee debt with the continued-fault fee; whether early
/// terminations were pending is noted; the fee debt is repaid as far as the vesting table
/// and the unlocked balance allow; and the cron continues while the miner holds funds.
/// Returns what to report, burn and schedule. Any failure is an illegal state; the caller
/// then abandons the state, as the actor's transaction does.
pub fn handle_proving_deadline_step(state: &mut State, info: &mut MinerInfo, curr_epoch: ChainEpoch, current_balance: TokenAmount, x: &DeadlineCronInputs, expired_precommits: &[u64]) -> (res: Result<DeadlineCronAction, ActorError>)
    requires
        old(state).tables_wf(),
        increasing(expired_precommits@),
        forall|k: int| 0 <= k <= expired_precommits@.len()
            ==> fits_i128(#[trigger] expired_deposit(old(state).pre_committed_sectors.map(), expired_precommits@.take(k))),
        fits_i128(old(state).pre_commit_deposits - cron_expired(old(state), expired_precommits@)),
        fits_i128(old(state).locked_funds - x.vested),
        fits_i128(old(state).fee_debt + cron_expired(old(state), expired_precommits@)),
        fits_i128(cron_debt(old(state), *x, expired_precommits@)),
        fits_i128(x.repay_vested + x.repay_unvested),
        fits_i128(cron_vest(old(state), *x).0 - (x.repay_vested + x.repay_unvested)),
        fits_i128(current_balance - cron_vest(old(state), *x).0),
        fits_i128(current_balance - cron_vest(old(state), *x).0 + (x.repay_vested + x.repay_unvested)),
        fits_i128(current_balance - cron_vest(old(state), *x).0 - (old(state).pre_commit_deposits - cron_expired(old(state), expired_precommits@))),
        fits_i128(current_balance - cron_vest(old(state), *x).0 + (x.repay_vested + x.repay_unvested)
            - (old(state).pre_commit_deposits - cron_expired(old(state), expired_precommits@))),
        fits_i128(current_balance - cron_vest(old(state), *x).0 - (old(state).pre_commit_deposits - cron_expired(old(state), expired_precommits@))
            - old(state).initial_pledge),
        fits_i128(current_balance - cron_vest(old(state), *x).0 + (x.repay_vested + x.repay_unvested)
            - (old(state).pre_commit_deposits - cron_expired(old(state), expired_precommits@)) - old(state).initial_pledge),
        fits_i128(-cron_vest(old(state), *x).1),
        fits_i128(x.advance_pledge_delta - cron_vest(old(state), *x).1),
        partial_repay_spec(cron_vest(old(state), *x).0, cron_debt(old(state), *x, expired_precommits@),
            old(state).pre_commit_deposits - cron_expired(old(state), expired_precommits@), old(state).initial_pledge as int,
            current_balance as int, x.repay_vested as int, x.repay_unvested as int) matches Some(r) ==> {
            &&& fits_i128(r.2 + r.3)
            &&& fits_i128(x.advance_pledge_delta - cron_vest(old(state), *x).1 - r.2)
        },
    ensures
        cron_fails(old(state), *x, expired_precommits@, current_balance as int) <==> res is Err,
        res is Err ==> res->Err_0.exit_code == USR_ILLEGAL_STATE,
        res matches Ok(a) ==> {
            let (l1, nv) = cron_vest(old(state), *x);
            let pcd = old(state).pre_commit_deposits - cron_expired(old(state), expired_precommits@);
            let r = partial_repay_spec(l1, cron_debt(old(state), *x, expired_precommits@), pcd, old(state).initial_pledge as int,
                current_balance as int, x.repay_vested as int, x.repay_unvested as int)->0;
            &&& final(state).locked_funds == r.0
            &&& final(state).fee_debt == r.1
            &&& final(state).pre_commit_deposits == pcd
            &&& final(state).initial_pledge == old(state).initial_pledge
            &&& final(state).pre_committed_sectors.map()
                == old(state).pre_committed_sectors.map().remove_keys(expired_precommits@.to_set())
            &&& final(state).sectors == old(state).sectors
            &&& final(state).tables_wf()
            &&& a.power_delta_raw == x.power_delta_raw
            &&& a.power_delta_qa == x.power_delta_qa
            &&& a.burn == r.2 + r.3
            &&& a.pledge_delta == x.advance_pledge_delta - nv - r.2
            &&& a.save_info == (old(info).pending_worker_key matches Some(k) && curr_epoch >= k.effective_at)
            &&& a.had_early_terminations == (crate::bitfield::bits_of(old(state).early_terminations) != Set::<u64>::empty())
            &&& a.continue_cron == (pcd != 0 || old(state).initial_pledge != 0 || r.0 != 0)
            &&& final(state).deadline_cron_active == (old(state).deadline_cron_active && a.continue_cron)
            &&& final(state).proving_period_start == old(state).proving_period_start
            &&& final(state).current_deadline == old(state).current_deadline
            &&& final(state).info@ == old(state).info@
        },
{
    let mut pledge_delta: i128 = 0;
    if x.vest_now {
        let newly_vested = match state.unlock_vested_funds(x.vested) {
            Ok(v) => v,
            Err(_) => {
                return Err(ActorError::illegal_state());
            },
        };
        pledge_delta = pledge_delta - newly_vested;
    }
    let save_info = process_pending_worker(info, curr_epoch);
    assert(expired_precommits@.take(expired_precommits@.len() as int) =~= expired_precommits@);
    assert(fits_i128(cron_expired(old(state), expired_precommits@)));
    let deposit_to_burn = match state.cleanup_expired_pre_commits(expired_precommits) {
        Ok(d) => d,
        Err(_) => {
            return Err(ActorError::illegal_state());
        },
    };
    if state.apply_penalty(deposit_to_burn).is_err() {
        return Err(ActorError::illegal_state());
    }
    let had_early_terminations = state.have_pending_early_terminations();
    pledge_delta = pledge_delta + x.advance_pledge_delta;
    if state.apply_penalty(x.continued_fault_penalty).is_err() {
        return Err(ActorError::illegal_state());
    }
    let (penalty_from_vesting, penalty_from_balance) = match state.repay_partial_debt_in_priority_order(current_balance, x.repay_vested, x.repay_unvested) {
        Ok(r) => r,
        Err(_) => {
            return Err(ActorError::illegal_state());
        },
    };
    let burn = penalty_from_vesting + penalty_from_balance;
    pledge_delta = pledge_delta - penalty_from_vesting;
    let continue_cron = state.continue_deadline_cron();
    if !continue_cron {
        state.deadline_cron_active = false;
    }
    Ok(DeadlineCronAction {
        power_delta_raw: x.power_delta_raw,
        power_delta_qa: x.power_delta_qa,
        burn,
        pledge_delta,
        save_info,
        continue_cron,
        had_early_terminations,
    })
}


/// Whether `f` is the termination record of the proven sector `s` numbered `num`: its
/// pledge, whether it holds deal data (a positive deal weight of either kind), and the
/// penalty `penalty` gives for it.
pub open spec fn terminated_funds_of<F: Fn(&SectorOnChainInfo) -> TokenAmount>(f: TerminatedSectorFunds, num: u64, s: SectorOnChainInfo, penalty: &F) -> bool {
    &&& f.sector_number == num
    &&& f.initial_pledge == s.initial_pledge
    &&& f.has_data == (s.deal_weight > 0 || s.verified_deal_weight > 0)
    &&& penalty.ensures((&s,), f.penalty)
}

/// The termination records of the sectors numbered `sector_numbers`, read from the sector
/// table, with the penalty `penalty` gives for each; `None` when one is not a proven sector.
pub fn terminated_sector_funds<F: Fn(&SectorOnChainInfo) -> TokenAmount>(state: &State, sector_numbers: &[u64], penalty: &F) -> (res: Option<Vec<TerminatedSectorFunds>>)
    requires
        state.tables_wf(),
        forall|s: &SectorOnChainInfo| penalty.requires((s,)),
    ensures
        res is Some <==> forall|i: int| 0 <= i < sector_numbers@.len()
            ==> state.sectors.map().dom().contains(#[trigger] sector_numbers@[i]),
        res matches Some(v) ==> v@.len() == sector_numbers@.len()
            && forall|i: int| 0 <= i < v@.len() ==> terminated_funds_of(#[trigger] v@[i], sector_numbers@[i],
                state.sectors.map()[sector_numbers@[i]], penalty),
{
    let mut out: Vec<TerminatedSectorFunds> = Vec::new();
    let mut i: usize = 0;
    while i < sector_numbers.len()
        invariant
            state.tables_wf(),
            forall|s: &SectorOnChainInfo| penalty.requires((s,)),
            i <= sector_numbers@.len(),
            out@.len() == i,
            forall|j: int| 0 <= j < i ==> state.sectors.map().dom().contains(#[trigger] sector_numbers@[j]),
            forall|j: int| 0 <= j < i ==> terminated_funds_of(#[trigger] out@[j], sector_numbers@[j],
                state.sectors.map()[sector_numbers@[j]], penalty),
        decreases sector_numbers@.len() - i,
    {
        let num = sector_numbers[i];
        let s = match state.sectors.get(num) {
            Some(s) => s,
            None => {
                return None;
            },
        };
        let p = penalty(s);
        out.push(TerminatedSectorFunds {
            sector_number: num,
            initial_pledge: s.initial_pledge,
            penalty: p,
            has_data: s.deal_weight > 0 || s.verified_deal_weight > 0,
        });
        i = i + 1;
    }
    Some(out)
}

/// What processing a batch of early terminations has the actor do once its state is saved.
#[derive(Debug)]
pub struct EarlyTerminationAction {
    /// The amount to burn: the penalty paid now.
    pub burn: TokenAmount,
    /// The pledge change to report to the power actor.
    pub pledge_delta: TokenAmount,
    /// The terminated sectors, in order.
    pub terminated_sector_nums: Vec<u64>,
    /// The terminated sectors holding deal data, whose deals the market must terminate.
    pub sectors_with_data: Vec<u64>,
}

/// Processes the early terminations popped from the deadlines: nothing when there are none.
/// Otherwise the sectors' penalties join the fee debt and their pledge is released (see
/// `apply_early_termination_funds`); the fee debt is then repaid as far as the vesting
/// table (`repay_vested`, `repay_unvested`) and the unlocked balance allow. Returns the
/// amount to burn, the pledge change (the released pledge and what was repaid, both
/// negative), the terminated sectors and those with data. A sector with data numbered
/// `u64::MAX` cannot be put in the bitfield sent to the market: an illegal state. Any
/// failure is an illegal state; the caller then abandons the state, as the actor's
/// transaction does.
pub fn process_early_terminations_step(state: &mut State, sectors: &[TerminatedSectorFunds], current_balance: TokenAmount, repay_vested: TokenAmount, repay_unvested: TokenAmount) -> (res: Result<Option<EarlyTerminationAction>, ActorError>)
    requires
        prefix_sums_fit(terminated_pledges(sectors@)),
        prefix_sums_fit(terminated_penalties(sectors@)),
        fits_i128(old(state).fee_debt + sum_amounts(terminated_penalties(sectors@))),
        fits_i128(old(state).initial_pledge - sum_amounts(terminated_pledges(sectors@))),
        fits_i128(-sum_amounts(terminated_pledges(sectors@))),
        fits_i128(repay_vested + repay_unvested),
        fits_i128(old(state).locked_funds - (repay_vested + repay_unvested)),
        fits_i128(current_balance - old(state).locked_funds),
        fits_i128(current_balance - old(state).locked_funds + (repay_vested + repay_unvested)),
        fits_i128(current_balance - old(state).locked_funds - old(state).pre_commit_deposits),
        fits_i128(current_balance - old(state).locked_funds + (repay_vested + repay_unvested) - old(state).pre_commit_deposits),
        fits_i128(current_balance - old(state).locked_funds - old(state).pre_commit_deposits
            - (old(state).initial_pledge - sum_amounts(terminated_pledges(sectors@)))),
        fits_i128(current_balance - old(state).locked_funds + (repay_vested + repay_unvested) - old(state).pre_commit_deposits
            - (old(state).initial_pledge - sum_amounts(terminated_pledges(sectors@)))),
        partial_repay_spec(old(state).locked_funds as int, old(state).fee_debt + sum_amounts(terminated_penalties(sectors@)),
            old(state).pre_commit_deposits as int, old(state).initial_pledge - sum_amounts(terminated_pledges(sectors@)),
            current_balance as int, repay_vested as int, repay_unvested as int) matches Some(r) ==> {
            &&& fits_i128(r.2 + r.3)
            &&& fits_i128(-sum_amounts(terminated_pledges(sectors@)) - r.2)
        },
    ensures
        sectors@.len() == 0 ==> res == Ok::<Option<EarlyTerminationAction>, ActorError>(None)
            && final(state).fee_debt == old(state).fee_debt && final(state).locked_funds == old(state).locked_funds
            && final(state).initial_pledge == old(state).initial_pledge,
        sectors@.len() > 0 ==> {
            let pledge = sum_amounts(terminated_pledges(sectors@));
            let penalty = sum_amounts(terminated_penalties(sectors@));
            let r = partial_repay_spec(old(state).locked_funds as int, old(state).fee_debt + penalty,
                old(state).pre_commit_deposits as int, old(state).initial_pledge - pledge,
                current_balance as int, repay_vested as int, repay_unvested as int);
            if penalty < 0 || old(state).initial_pledge - pledge < 0 || r is None
                || sectors_with_data(sectors@).contains(u64::MAX) {
                res is Err && res->Err_0.exit_code == USR_ILLEGAL_STATE
            } else {
                &&& res matches Ok(Some(a)) && {
                    &&& a.burn == r.unwrap().2 + r.unwrap().3
                    &&& a.pledge_delta == -pledge - r.unwrap().2
                    &&& a.terminated_sector_nums@ == sectors@.map_values(|x: TerminatedSectorFunds| x.sector_number)
                    &&& a.sectors_with_data@ == sectors_with_data(sectors@)
                }
                &&& final(state).locked_funds == r.unwrap().0
                &&& final(state).fee_debt == r.unwrap().1
                &&& final(state).initial_pledge == old(state).initial_pledge - pledge
                &&& final(state).pre_commit_deposits == old(state).pre_commit_deposits
                &&& same_sectors(old(state), final(state))
            }
        },
{
    if sectors.len() == 0 {
        return Ok(None);
    }
    let totals = match apply_early_termination_funds(state, sectors) {
        Ok(t) => t,
        Err(_) => {
            return Err(ActorError::illegal_state());
        },
    };
    let (penalty_from_vesting, penalty_from_balance) = match state.repay_partial_debt_in_priority_order(current_balance, repay_vested, repay_unvested) {
        Ok(r) => r,
        Err(_) => {
            return Err(ActorError::illegal_state());
        },
    };
    let burn = penalty_from_vesting + penalty_from_balance;
    let pledge_delta = -totals.total_initial_pledge - penalty_from_vesting;
    let mut k: usize = 0;
    while k < totals.sectors_with_data.len()
        invariant
            sectors@.len() > 0,
            totals.sectors_with_data@ == sectors_with_data(sectors@),
            k <= totals.sectors_with_data@.len(),
            forall|j: int| 0 <= j < k ==> totals.sectors_with_data@[j] != u64::MAX,
        decreases totals.sectors_with_data@.len() - k,
    {
        if totals.sectors_with_data[k] == u64::MAX {
            assert(sectors_with_data(sectors@)[k as int] == u64::MAX);
            assert(sectors_with_data(sectors@).contains(u64::MAX));
            return Err(ActorError::illegal_state());
        }
        k = k + 1;
    }
    assert(!sectors_with_data(sectors@).contains(u64::MAX));
    Ok(Some(EarlyTerminationAction {
        burn,
        pledge_delta,
        terminated_sector_nums: totals.terminated_sector_nums,
        sectors_with_data: totals.sectors_with_data,
    }))
}


/// Law: the termination record of a sector says it holds deal data exactly when its deal
/// weight or its verified deal weight is positive: a sector with unverified deals only
/// holds data, and one with neither weight positive does not.
pub proof fn lemma_terminated_has_data<F: Fn(&SectorOnChainInfo) -> TokenAmount>(f: TerminatedSectorFunds, num: u64, s: SectorOnChainInfo, penalty: &F)
    requires
        terminated_funds_of(f, num, s, penalty),
    ensures
        s.deal_weight > 0 ==> f.has_data,
        s.verified_deal_weight > 0 ==> f.has_data,
        s.deal_weight <= 0 && s.verified_deal_weight <= 0 ==> !f.has_data,
        f.sector_number == num,
        f.initial_pledge == s.initial_pledge,
{
}

/// Law: a sector appended to a list of terminations is reported among the sectors with
/// data exactly when it holds data, after those reported for the list before it.
pub proof fn lemma_sectors_with_data_push(fs: Seq<TerminatedSectorFunds>, f: TerminatedSectorFunds)
    ensures
        f.has_data ==> sectors_with_data(fs.push(f)) == sectors_with_data(fs).push(f.sector_number),
        !f.has_data ==> sectors_with_data(fs.push(f)) == sectors_with_data(fs),
{
    assert(fs.push(f).drop_last() =~= fs);
}

} // verus!
