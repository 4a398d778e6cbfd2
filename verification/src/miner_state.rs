//! The miner actor's fund accounting and sector-number allocation.

use vstd::prelude::*;
use fvm_ipld_bitfield::BitField;
use crate::balance_table::{prefix_sums_fit, sum_amounts};
use crate::bitfield::{bits_of, bitfield_intersection, bitfield_is_empty, bitfield_new, bitfield_union};
use crate::error::{ActorError, USR_ILLEGAL_ARGUMENT, USR_ILLEGAL_STATE, USR_INSUFFICIENT_FUNDS};
use crate::policy::{ChainEpoch, Policy, TokenAmount};
use crate::id_map::IdMap;
use crate::miner_sectors::{copy_bytes, SectorOnChainInfo};
use crate::miner_batch::MAX_SECTOR_NUMBER;
use crate::error::USR_NOT_FOUND;

verus! {

/// Whether i128 can hold `x`.
pub open spec fn fits_i128(x: int) -> bool {
    i128::MIN <= x <= i128::MAX
}

/// Quantization of epochs to a unit with an offset.
#[derive(Clone, Copy, Debug, PartialEq, Eq, Structural)]
pub struct QuantSpec {
    pub unit: ChainEpoch,
    pub offset: ChainEpoch,
}

/// Whether a sector-number allocation may overlap numbers already allocated.
#[derive(Clone, Copy, Debug, PartialEq, Eq, Structural)]
pub enum CollisionPolicy {
    AllowCollisions,
    DenyCollisions,
}

/// A sector's pre-commitment as stored on chain.
#[derive(Debug)]
pub struct SectorPreCommitOnChainInfo {
    pub sector_number: u64,
    /// Code of the seal proof type.
    pub seal_proof: i64,
    /// CID of the sealed replica, as bytes.
    pub sealed_cid: Vec<u8>,
    pub seal_rand_epoch: ChainEpoch,
    pub deal_ids: Vec<u64>,
    pub expiration: ChainEpoch,
    /// The declared CID of the unsealed data, as bytes, if any.
    pub unsealed_cid: Option<Vec<u8>>,
    /// The deposit made at pre-commit.
    pub pre_commit_deposit: TokenAmount,
    pub pre_commit_epoch: ChainEpoch,
}

/// A pre-commitment as plain values.
pub open spec fn precommit_view(p: SectorPreCommitOnChainInfo) -> (u64, i64, Seq<u8>, ChainEpoch, Seq<u64>, ChainEpoch, Option<Seq<u8>>, TokenAmount, ChainEpoch) {
    (p.sector_number, p.seal_proof, p.sealed_cid@, p.seal_rand_epoch, p.deal_ids@, p.expiration,
        match p.unsealed_cid { Some(c) => Some(c@), None => None }, p.pre_commit_deposit, p.pre_commit_epoch)
}

/// A copy of a pre-commitment.
pub fn copy_precommit(p: &SectorPreCommitOnChainInfo) -> (res: SectorPreCommitOnChainInfo)
    ensures
        precommit_view(res) == precommit_view(*p),
{
    let mut deal_ids: Vec<u64> = Vec::new();
    let mut i: usize = 0;
    while i < p.deal_ids.len()
        invariant
            i <= p.deal_ids@.len(),
            deal_ids@ == p.deal_ids@.subrange(0, i as int),
        decreases p.deal_ids@.len() - i,
    {
        deal_ids.push(p.deal_ids[i]);
        i = i + 1;
        assert(deal_ids@ =~= p.deal_ids@.subrange(0, i as int));
    }
    assert(p.deal_ids@.subrange(0, p.deal_ids@.len() as int) =~= p.deal_ids@);
    SectorPreCommitOnChainInfo {
        sector_number: p.sector_number,
        seal_proof: p.seal_proof,
        sealed_cid: copy_bytes(&p.sealed_cid),
        seal_rand_epoch: p.seal_rand_epoch,
        deal_ids,
        expiration: p.expiration,
        unsealed_cid: match &p.unsealed_cid { Some(c) => Some(copy_bytes(c)), None => None },
        pre_commit_deposit: p.pre_commit_deposit,
        pre_commit_epoch: p.pre_commit_epoch,
    }
}

/// The fund balances and sector bookkeeping of a miner actor, with its tables of
/// pre-committed and proven sectors. (The deadlines and their partitions are not held here.)
#[derive(Debug)]
pub struct State {
    /// CID of the miner's static information, as bytes.
    pub info: Vec<u8>,
    /// Total funds locked as pre-commit deposits.
    pub pre_commit_deposits: TokenAmount,
    /// Total rewards and added funds locked in the vesting table.
    pub locked_funds: TokenAmount,
    /// Absolute value of debt this miner owes from unpaid fees.
    pub fee_debt: TokenAmount,
    /// Sum of initial pledge requirements of all active sectors.
    pub initial_pledge: TokenAmount,
    /// First epoch of the current proving period.
    pub proving_period_start: ChainEpoch,
    /// Index of the deadline not yet finalized in the current proving period.
    pub current_deadline: u64,
    /// Sector numbers allocated so far; never reused.
    pub allocated_sectors: BitField,
    /// Deadlines with outstanding fees for early sector termination.
    pub early_terminations: BitField,
    /// True while the miner's deadline cron is active.
    pub deadline_cron_active: bool,
    /// Pre-committed sectors by number.
    pub pre_committed_sectors: IdMap<u64, SectorPreCommitOnChainInfo>,
    /// Proven sectors by number.
    pub sectors: IdMap<u64, SectorOnChainInfo>,
}

impl State {
    /// The sector tables are well formed.
    pub open spec fn tables_wf(&self) -> bool {
        self.pre_committed_sectors.wf() && self.sectors.wf()
    }
}

/// Balance left once locked funds, pre-commit deposits and initial pledge are set aside.
pub open spec fn unlocked_spec(st: &State, balance: int) -> int {
    balance - st.locked_funds - st.pre_commit_deposits - st.initial_pledge
}

/// The miner's balance invariants for an actor balance.
pub open spec fn balance_invariants_hold(st: &State, balance: int) -> bool {
    &&& st.pre_commit_deposits >= 0
    &&& st.locked_funds >= 0
    &&& st.initial_pledge >= 0
    &&& st.fee_debt >= 0
    &&& balance >= st.pre_commit_deposits + st.locked_funds + st.initial_pledge
}

/// Two states agree on their information, proving period, deadline, sector numbers,
/// early-termination deadlines and cron flag.
pub open spec fn same_scalars(a: &State, b: &State) -> bool {
    &&& a.info@ == b.info@
    &&& a.proving_period_start == b.proving_period_start
    &&& a.current_deadline == b.current_deadline
    &&& bits_of(a.allocated_sectors) == bits_of(b.allocated_sectors)
    &&& bits_of(a.early_terminations) == bits_of(b.early_terminations)
    &&& a.deadline_cron_active == b.deadline_cron_active
}

/// Two states agree on everything but their funds.
pub open spec fn same_sectors(a: &State, b: &State) -> bool {
    &&& same_scalars(a, b)
    &&& a.pre_committed_sectors == b.pre_committed_sectors
    &&& a.sectors == b.sectors
}

/// The locked funds left once the vesting table has released `released`, unless the
/// release is skipped because nothing is owed (`target` zero) or nothing is locked.
pub open spec fn locked_after_release(st: &State, target: int, released: int) -> int {
    if target == 0 || st.locked_funds == 0 {
        st.locked_funds as int
    } else {
        st.locked_funds - released
    }
}

/// One entry of the vesting table: an amount that vests at an epoch.
#[derive(Clone, Copy, Debug)]
pub struct VestingFund {
    pub epoch: ChainEpoch,
    pub amount: TokenAmount,
}

/// The amounts of vesting entries, in order.
pub open spec fn fund_amounts(funds: Seq<VestingFund>) -> Seq<i128> {
    funds.map_values(|f: VestingFund| f.amount)
}

/// The number of leading entries that vest before `epoch`.
pub open spec fn leading_vested(funds: Seq<VestingFund>, epoch: int) -> nat
    decreases funds.len(),
{
    if funds.len() == 0 {
        0
    } else if funds[0].epoch < epoch {
        1 + leading_vested(funds.drop_first(), epoch)
    } else {
        0
    }
}

proof fn lemma_leading_vested(funds: Seq<VestingFund>, epoch: int, i: int)
    requires
        0 <= i <= funds.len(),
        forall|j: int| 0 <= j < i ==> (#[trigger] funds[j]).epoch < epoch,
        i == funds.len() || funds[i].epoch >= epoch,
    ensures
        leading_vested(funds, epoch) == i,
    decreases i,
{
    if i > 0 {
        let rest = funds.drop_first();
        assert forall|j: int| 0 <= j < i - 1 implies (#[trigger] rest[j]).epoch < epoch by {
            assert(rest[j] == funds[j + 1]);
        }
        if i < funds.len() {
            assert(rest[i - 1] == funds[i]);
        }
        lemma_leading_vested(rest, epoch, i - 1);
    }
}

/// The total of the vesting entries, in vesting order, that vest before `current_epoch`:
/// the leading entries up to the first one that does not.
pub fn check_vested_funds(funds: &[VestingFund], current_epoch: ChainEpoch) -> (res: TokenAmount)
    requires
        prefix_sums_fit(fund_amounts(funds@)),
    ensures
        res == sum_amounts(fund_amounts(funds@).take(leading_vested(funds@, current_epoch as int) as int)),
{
    let ghost amounts = fund_amounts(funds@);
    let n = funds.len();
    let mut total: i128 = 0;
    let mut i: usize = 0;
    assert(amounts.take(0) =~= Seq::<i128>::empty());
    while i < n && funds[i].epoch < current_epoch
        invariant
            n == funds@.len(),
            amounts == fund_amounts(funds@),
            amounts.len() == n,
            prefix_sums_fit(amounts),
            i <= n,
            forall|j: int| 0 <= j < i ==> (#[trigger] funds@[j]).epoch < current_epoch,
            total == sum_amounts(amounts.take(i as int)),
        decreases n - i,
    {
        assert(amounts.take(i + 1).drop_last() =~= amounts.take(i as int));
        assert(fits_i128(sum_amounts(amounts.take(i + 1))));
        total = total + funds[i].amount;
        i = i + 1;
    }
    proof {
        lemma_leading_vested(funds@, current_epoch as int, i as int);
    }
    total
}

impl State {
    /// A miner with the information at `info`, no funds, no sectors and the given proving
    /// period start and deadline.
    pub fn new(info: Vec<u8>, period_start: ChainEpoch, deadline_idx: u64) -> (res: State)
        ensures
            res.info@ == info@,
            res.pre_commit_deposits == 0,
            res.locked_funds == 0,
            res.fee_debt == 0,
            res.initial_pledge == 0,
            res.proving_period_start == period_start,
            res.current_deadline == deadline_idx,
            bits_of(res.allocated_sectors) == Set::<u64>::empty(),
            bits_of(res.early_terminations) == Set::<u64>::empty(),
            !res.deadline_cron_active,
            res.tables_wf(),
            res.pre_committed_sectors.map() == Map::<u64, SectorPreCommitOnChainInfo>::empty(),
            res.sectors.map() == Map::<u64, SectorOnChainInfo>::empty(),
    {
        State {
            info,
            pre_commit_deposits: 0,
            locked_funds: 0,
            fee_debt: 0,
            initial_pledge: 0,
            proving_period_start: period_start,
            current_deadline: deadline_idx,
            allocated_sectors: bitfield_new(),
            early_terminations: bitfield_new(),
            deadline_cron_active: false,
            pre_committed_sectors: IdMap::new(),
            sectors: IdMap::new(),
        }
    }

    /// Whether the miner must keep scheduling deadline crons: it holds deposits, pledge or
    /// locked funds.
    pub fn continue_deadline_cron(&self) -> (res: bool)
        ensures
            res == (self.pre_commit_deposits != 0 || self.initial_pledge != 0
                || self.locked_funds != 0),
    {
        self.pre_commit_deposits != 0 || self.initial_pledge != 0 || self.locked_funds != 0
    }

    /// Adds `amount` (possibly negative) to the pre-commit deposits; fails if the total
    /// would become negative.
    pub fn add_pre_commit_deposit(&mut self, amount: TokenAmount) -> (res: Result<(), ActorError>)
        requires
            fits_i128(old(self).pre_commit_deposits + amount),
        ensures
            res is Ok <==> old(self).pre_commit_deposits + amount >= 0,
            res is Ok ==> final(self).pre_commit_deposits == old(self).pre_commit_deposits + amount,
            res is Err ==> final(self).pre_commit_deposits == old(self).pre_commit_deposits,
            final(self).locked_funds == old(self).locked_funds,
            final(self).fee_debt == old(self).fee_debt,
            final(self).initial_pledge == old(self).initial_pledge,
            same_sectors(old(self), final(self)),
    {
        let new_total = self.pre_commit_deposits + amount;
        if new_total < 0 {
            return Err(ActorError::illegal_state());
        }
        self.pre_commit_deposits = new_total;
        Ok(())
    }

    /// Adds `amount` (possibly negative) to the initial pledge requirement; fails if the
    /// total would become negative.
    pub fn add_initial_pledge(&mut self, amount: TokenAmount) -> (res: Result<(), ActorError>)
        requires
            fits_i128(old(self).initial_pledge + amount),
        ensures
            res is Ok <==> old(self).initial_pledge + amount >= 0,
            res is Ok ==> final(self).initial_pledge == old(self).initial_pledge + amount,
            res is Err ==> final(self).initial_pledge == old(self).initial_pledge,
            final(self).locked_funds == old(self).locked_funds,
            final(self).fee_debt == old(self).fee_debt,
            final(self).pre_commit_deposits == old(self).pre_commit_deposits,
            same_sectors(old(self), final(self)),
    {
        let new_total = self.initial_pledge + amount;
        if new_total < 0 {
            return Err(ActorError::illegal_state());
        }
        self.initial_pledge = new_total;
        Ok(())
    }

    /// Adds a penalty to the fee debt; a negative penalty is refused.
    pub fn apply_penalty(&mut self, penalty: TokenAmount) -> (res: Result<(), ActorError>)
        requires
            fits_i128(old(self).fee_debt + penalty),
        ensures
            res is Ok <==> penalty >= 0,
            res is Ok ==> final(self).fee_debt == old(self).fee_debt + penalty,
            res is Err ==> final(self).fee_debt == old(self).fee_debt,
            final(self).locked_funds == old(self).locked_funds,
            final(self).initial_pledge == old(self).initial_pledge,
            final(self).pre_commit_deposits == old(self).pre_commit_deposits,
            same_sectors(old(self), final(self)),
    {
        if penalty < 0 {
            Err(ActorError::illegal_argument())
        } else {
            self.fee_debt = self.fee_debt + penalty;
            Ok(())
        }
    }

    /// Unclaimed funds that are not locked: the balance less locked funds, pre-commit
    /// deposits and initial pledge. Fails when that is negative.
    pub fn get_unlocked_balance(&self, actor_balance: TokenAmount) -> (res: Result<TokenAmount, ActorError>)
        requires
            fits_i128(actor_balance - self.locked_funds),
            fits_i128(actor_balance - self.locked_funds - self.pre_commit_deposits),
            fits_i128(unlocked_spec(self, actor_balance as int)),
        ensures
            res is Ok <==> unlocked_spec(self, actor_balance as int) >= 0,
            res matches Ok(u) ==> u == unlocked_spec(self, actor_balance as int),
            res is Err ==> res->Err_0.exit_code == USR_ILLEGAL_STATE,
    {
        let unlocked = actor_balance - self.locked_funds - self.pre_commit_deposits - self.initial_pledge;
        if unlocked < 0 {
            return Err(ActorError::illegal_state());
        }
        Ok(unlocked)
    }

    /// Unclaimed funds less the fee debt; negative when the miner is in debt.
    pub fn get_available_balance(&self, actor_balance: TokenAmount) -> (res: Result<TokenAmount, ActorError>)
        requires
            fits_i128(actor_balance - self.locked_funds),
            fits_i128(actor_balance - self.locked_funds - self.pre_commit_deposits),
            fits_i128(unlocked_spec(self, actor_balance as int)),
            fits_i128(unlocked_spec(self, actor_balance as int) - self.fee_debt),
        ensures
            res is Ok <==> unlocked_spec(self, actor_balance as int) >= 0,
            res matches Ok(a) ==> a == unlocked_spec(self, actor_balance as int) - self.fee_debt,
    {
        let unlocked = self.get_unlocked_balance(actor_balance)?;
        Ok(unlocked - self.fee_debt)
    }

    /// Repays the whole fee debt from unlocked funds. Returns the amount to burn, and
    /// leaves the debt at zero; fails if unlocked funds do not cover the debt.
    pub fn repay_debts(&mut self, curr_balance: TokenAmount) -> (res: Result<TokenAmount, ActorError>)
        requires
            fits_i128(curr_balance - old(self).locked_funds),
            fits_i128(curr_balance - old(self).locked_funds - old(self).pre_commit_deposits),
            fits_i128(unlocked_spec(old(self), curr_balance as int)),
        ensures
            res is Ok <==> (unlocked_spec(old(self), curr_balance as int) >= 0
                && unlocked_spec(old(self), curr_balance as int) >= old(self).fee_debt),
            res matches Ok(burnt) ==> burnt == old(self).fee_debt && final(self).fee_debt == 0,
            res is Err ==> final(self).fee_debt == old(self).fee_debt,
            res is Err ==> res->Err_0.exit_code == if unlocked_spec(old(self), curr_balance as int) < 0 {
                USR_ILLEGAL_STATE
            } else {
                USR_INSUFFICIENT_FUNDS
            },
            final(self).locked_funds == old(self).locked_funds,
            final(self).initial_pledge == old(self).initial_pledge,
            final(self).pre_commit_deposits == old(self).pre_commit_deposits,
            same_sectors(old(self), final(self)),
    {
        let unlocked_balance = self.get_unlocked_balance(curr_balance)?;
        if unlocked_balance < self.fee_debt {
            return Err(ActorError::insufficient_funds());
        }
        let debt = self.fee_debt;
        self.fee_debt = 0;
        Ok(debt)
    }

    /// Records funds newly locked in the vesting table. `amount_unlocked` is what the table
    /// released, as vested, when the funds were added; it leaves the locked funds, and the
    /// new `vesting_sum` joins them. Returns the amount unlocked. A negative sum, or a release
    /// larger than the locked funds, is refused and changes nothing.
    pub fn add_locked_funds(&mut self, vesting_sum: TokenAmount, amount_unlocked: TokenAmount) -> (res: Result<TokenAmount, ActorError>)
        requires
            fits_i128(old(self).locked_funds - amount_unlocked),
            fits_i128(old(self).locked_funds - amount_unlocked + vesting_sum),
        ensures
            res is Ok <==> (vesting_sum >= 0 && old(self).locked_funds - amount_unlocked >= 0),
            res is Ok ==> res == Ok::<TokenAmount, ActorError>(amount_unlocked)
                && final(self).locked_funds == old(self).locked_funds - amount_unlocked + vesting_sum,
            res is Err ==> res->Err_0.exit_code == USR_ILLEGAL_STATE && final(self).locked_funds == old(self).locked_funds,
            final(self).fee_debt == old(self).fee_debt,
            final(self).initial_pledge == old(self).initial_pledge,
            final(self).pre_commit_deposits == old(self).pre_commit_deposits,
            same_sectors(old(self), final(self)),
    {
        if vesting_sum < 0 {
            return Err(ActorError::illegal_state());
        }
        let remaining = self.locked_funds - amount_unlocked;
        if remaining < 0 {
            return Err(ActorError::illegal_state());
        }
        self.locked_funds = remaining + vesting_sum;
        Ok(amount_unlocked)
    }

    /// Records the release of vested funds. When nothing is locked nothing is released and
    /// zero is returned; otherwise `amount_unlocked`, what the vesting table released,
    /// leaves the locked funds and is returned. A release larger than the locked funds is
    /// refused and changes nothing.
    pub fn unlock_vested_funds(&mut self, amount_unlocked: TokenAmount) -> (res: Result<TokenAmount, ActorError>)
        requires
            fits_i128(old(self).locked_funds - amount_unlocked),
        ensures
            old(self).locked_funds == 0 ==> res == Ok::<TokenAmount, ActorError>(0) && final(self).locked_funds == 0,
            old(self).locked_funds != 0 ==> {
                &&& (res is Ok <==> old(self).locked_funds - amount_unlocked >= 0)
                &&& res is Ok ==> res == Ok::<TokenAmount, ActorError>(amount_unlocked)
                    && final(self).locked_funds == old(self).locked_funds - amount_unlocked
                &&& res is Err ==> res->Err_0.exit_code == USR_ILLEGAL_STATE && final(self).locked_funds == old(self).locked_funds
            },
            final(self).fee_debt == old(self).fee_debt,
            final(self).initial_pledge == old(self).initial_pledge,
            final(self).pre_commit_deposits == old(self).pre_commit_deposits,
            same_sectors(old(self), final(self)),
    {
        if self.locked_funds == 0 {
            return Ok(0);
        }
        let remaining = self.locked_funds - amount_unlocked;
        if remaining < 0 {
            return Err(ActorError::illegal_state());
        }
        self.locked_funds = remaining;
        Ok(amount_unlocked)
    }

    /// Records the release of vested funds and then of unvested ones, soonest first, up to
    /// `target`. When `target` is zero or nothing is locked nothing is released. Otherwise
    /// `unlocked_vested` and `unlocked_unvested`, what the vesting table released, leave the
    /// locked funds; returns the unvested amount and the total. A release larger than the
    /// locked funds is refused and changes nothing.
    pub fn unlock_vested_and_unvested_funds(&mut self, target: TokenAmount, unlocked_vested: TokenAmount, unlocked_unvested: TokenAmount) -> (res: Result<(TokenAmount, TokenAmount), ActorError>)
        requires
            fits_i128(unlocked_vested + unlocked_unvested),
            fits_i128(old(self).locked_funds - (unlocked_vested + unlocked_unvested)),
        ensures
            (target == 0 || old(self).locked_funds == 0) ==> res == Ok::<(TokenAmount, TokenAmount), ActorError>((0, 0))
                && final(self).locked_funds == old(self).locked_funds,
            !(target == 0 || old(self).locked_funds == 0) ==> {
                let total = unlocked_vested + unlocked_unvested;
                &&& (res is Ok <==> old(self).locked_funds - total >= 0)
                &&& res is Ok ==> res == Ok::<(TokenAmount, TokenAmount), ActorError>((unlocked_unvested, total as i128))
                    && final(self).locked_funds == old(self).locked_funds - total
                &&& res is Err ==> res->Err_0.exit_code == USR_ILLEGAL_STATE && final(self).locked_funds == old(self).locked_funds
            },
            final(self).fee_debt == old(self).fee_debt,
            final(self).initial_pledge == old(self).initial_pledge,
            final(self).pre_commit_deposits == old(self).pre_commit_deposits,
            same_sectors(old(self), final(self)),
    {
        if target == 0 || self.locked_funds == 0 {
            return Ok((0, 0));
        }
        let total_unlocked = unlocked_vested + unlocked_unvested;
        let remaining = self.locked_funds - total_unlocked;
        if remaining < 0 {
            return Err(ActorError::illegal_state());
        }
        self.locked_funds = remaining;
        Ok((unlocked_unvested, total_unlocked))
    }

    /// Repays as much of the fee debt as it can. First the vesting table releases funds
    /// towards the debt (`unlocked_vested` and `unlocked_unvested`, as in
    /// `unlock_vested_and_unvested_funds`); then the smaller of the unlocked balance and the
    /// debt is burnt and taken off the debt. Returns the amount to burn and the total
    /// released. Refused, changing nothing, when the release is refused, when more unvested
    /// funds were released than the debt, or when the unlocked balance is negative.
    pub fn repay_partial_debt_in_priority_order(&mut self, curr_balance: TokenAmount, unlocked_vested: TokenAmount, unlocked_unvested: TokenAmount) -> (res: Result<(TokenAmount, TokenAmount), ActorError>)
        requires
            fits_i128(unlocked_vested + unlocked_unvested),
            fits_i128(old(self).locked_funds - (unlocked_vested + unlocked_unvested)),
            fits_i128(curr_balance - locked_after_release(old(self), old(self).fee_debt as int, unlocked_vested + unlocked_unvested)),
            fits_i128(curr_balance - locked_after_release(old(self), old(self).fee_debt as int, unlocked_vested + unlocked_unvested) - old(self).pre_commit_deposits),
            fits_i128(curr_balance - locked_after_release(old(self), old(self).fee_debt as int, unlocked_vested + unlocked_unvested) - old(self).pre_commit_deposits - old(self).initial_pledge),
        ensures
            ({
                let skip = old(self).fee_debt == 0 || old(self).locked_funds == 0;
                let total = unlocked_vested + unlocked_unvested;
                let locked = locked_after_release(old(self), old(self).fee_debt as int, total);
                let from_vesting = if skip { 0 } else { unlocked_unvested as int };
                let released = if skip { 0 } else { total };
                let unlocked = curr_balance - locked - old(self).pre_commit_deposits - old(self).initial_pledge;
                if (!skip && locked < 0) || from_vesting > old(self).fee_debt || unlocked < 0 {
                    &&& res is Err && res->Err_0.exit_code == USR_ILLEGAL_STATE
                    &&& final(self).locked_funds == old(self).locked_funds
                    &&& final(self).fee_debt == old(self).fee_debt
                } else {
                    let to_burn = if unlocked < old(self).fee_debt { unlocked } else { old(self).fee_debt as int };
                    &&& res is Ok
                    &&& res->Ok_0.0 == to_burn
                    &&& res->Ok_0.1 == released
                    &&& final(self).locked_funds == locked
                    &&& final(self).fee_debt == old(self).fee_debt - to_burn
                }
            }),
            final(self).initial_pledge == old(self).initial_pledge,
            final(self).pre_commit_deposits == old(self).pre_commit_deposits,
            same_sectors(old(self), final(self)),
    {
        let saved_locked = self.locked_funds;
        let fee_debt = self.fee_debt;
        let (from_vesting, total_unlocked) = self.unlock_vested_and_unvested_funds(fee_debt, unlocked_vested, unlocked_unvested)?;
        if from_vesting > self.fee_debt {
            self.locked_funds = saved_locked;
            return Err(ActorError::illegal_state());
        }
        let unlocked_balance = match self.get_unlocked_balance(curr_balance) {
            Ok(u) => u,
            Err(_) => {
                self.locked_funds = saved_locked;
                return Err(ActorError::illegal_state());
            },
        };
        let to_burn = if unlocked_balance < self.fee_debt { unlocked_balance } else { self.fee_debt };
        self.fee_debt = self.fee_debt - to_burn;
        Ok((to_burn, total_unlocked))
    }

    /// Checks that no fund total is negative and the balance covers deposits, locked funds
    /// and initial pledge.
    pub fn check_balance_invariants(&self, balance: TokenAmount) -> (res: Result<(), ActorError>)
        requires
            fits_i128(self.pre_commit_deposits + self.locked_funds + self.initial_pledge),
            fits_i128(self.pre_commit_deposits + self.locked_funds),
        ensures
            res is Ok <==> balance_invariants_hold(self, balance as int),
    {
        if self.pre_commit_deposits < 0 {
            return Err(ActorError::illegal_state());
        }
        if self.locked_funds < 0 {
            return Err(ActorError::illegal_state());
        }
        if self.initial_pledge < 0 {
            return Err(ActorError::illegal_state());
        }
        if self.fee_debt < 0 {
            return Err(ActorError::illegal_state());
        }
        let min_balance = self.pre_commit_deposits + self.locked_funds + self.initial_pledge;
        if balance < min_balance {
            return Err(ActorError::illegal_state());
        }
        Ok(())
    }

    /// Quantization for pre-commit expiry: one challenge window, offset by the proving
    /// period start.
    pub fn quant_spec_every_deadline(&self, policy: &Policy) -> (res: QuantSpec)
        ensures
            res.unit == policy.wpost_challenge_window,
            res.offset == self.proving_period_start,
    {
        QuantSpec { unit: policy.wpost_challenge_window, offset: self.proving_period_start }
    }

    /// Marks sector numbers as allocated. Under `DenyCollisions` fails, changing nothing,
    /// if any of them was already allocated.
    pub fn allocate_sector_numbers(&mut self, sector_numbers: &BitField, policy: CollisionPolicy) -> (res: Result<(), ActorError>)
        ensures
            res is Err <==> (policy == CollisionPolicy::DenyCollisions
                && !bits_of(old(self).allocated_sectors).disjoint(bits_of(*sector_numbers))),
            res is Ok ==> bits_of(final(self).allocated_sectors) == bits_of(old(self).allocated_sectors).union(bits_of(*sector_numbers)),
            res is Err ==> res->Err_0.exit_code == USR_ILLEGAL_ARGUMENT,
            res is Err ==> bits_of(final(self).allocated_sectors) == bits_of(old(self).allocated_sectors),
            final(self).pre_commit_deposits == old(self).pre_commit_deposits,
            final(self).locked_funds == old(self).locked_funds,
            final(self).fee_debt == old(self).fee_debt,
            final(self).initial_pledge == old(self).initial_pledge,
            final(self).proving_period_start == old(self).proving_period_start,
            final(self).current_deadline == old(self).current_deadline,
            bits_of(final(self).early_terminations) == bits_of(old(self).early_terminations),
            final(self).deadline_cron_active == old(self).deadline_cron_active,
            final(self).info@ == old(self).info@,
            final(self).pre_committed_sectors == old(self).pre_committed_sectors,
            final(self).sectors == old(self).sectors,
    {
        if policy != CollisionPolicy::AllowCollisions {
            let collisions = bitfield_intersection(&self.allocated_sectors, sector_numbers);
            if !bitfield_is_empty(&collisions) {
                proof {
                    if forall|y: u64| !bits_of(collisions).contains(y) {
                        assert(bits_of(collisions) =~= Set::<u64>::empty());
                    }
                    let x = choose|x: u64| bits_of(collisions).contains(x);
                    assert(bits_of(old(self).allocated_sectors).contains(x) && bits_of(*sector_numbers).contains(x));
                }
                return Err(ActorError::illegal_argument());
            }
            proof {
                assert forall|x: u64| !(bits_of(old(self).allocated_sectors).contains(x) && bits_of(*sector_numbers).contains(x)) by {
                    if bits_of(old(self).allocated_sectors).contains(x) && bits_of(*sector_numbers).contains(x) {
                        assert(bits_of(collisions).contains(x));
                    }
                }
            }
        }
        let new_allocation = bitfield_union(&self.allocated_sectors, sector_numbers);
        self.allocated_sectors = new_allocation;
        Ok(())
    }

    /// Whether any deadline has outstanding early-termination fees.
    pub fn have_pending_early_terminations(&self) -> (res: bool)
        ensures
            res == (bits_of(self.early_terminations) != Set::<u64>::empty()),
    {
        !bitfield_is_empty(&self.early_terminations)
    }
}

/// A penalty added to the fee debt keeps the balance invariants: the debt is not counted
/// against the balance.
pub proof fn lemma_penalty_keeps_invariants(before: &State, after: &State, balance: int, penalty: int)
    requires
        balance_invariants_hold(before, balance),
        penalty >= 0,
        after.fee_debt == before.fee_debt + penalty,
        after.locked_funds == before.locked_funds,
        after.initial_pledge == before.initial_pledge,
        after.pre_commit_deposits == before.pre_commit_deposits,
    ensures
        balance_invariants_hold(after, balance),
{
}

/// Repaying the whole fee debt from unlocked funds and burning it keeps the balance
/// invariants: the balance falls by the debt, which the unlocked funds covered.
pub proof fn lemma_repay_and_burn_keeps_invariants(before: &State, after: &State, balance: int, burnt: int)
    requires
        balance_invariants_hold(before, balance),
        unlocked_spec(before, balance) >= before.fee_debt,
        burnt == before.fee_debt,
        after.fee_debt == 0,
        after.locked_funds == before.locked_funds,
        after.initial_pledge == before.initial_pledge,
        after.pre_commit_deposits == before.pre_commit_deposits,
    ensures
        balance_invariants_hold(after, balance - burnt),
{
}

/// A pre-commit deposit drawn from the available balance (unlocked funds less the fee debt)
/// keeps the balance invariants.
pub proof fn lemma_funded_deposit_keeps_invariants(before: &State, after: &State, balance: int, deposit: int)
    requires
        balance_invariants_hold(before, balance),
        0 <= deposit <= unlocked_spec(before, balance) - before.fee_debt,
        after.pre_commit_deposits == before.pre_commit_deposits + deposit,
        after.locked_funds == before.locked_funds,
        after.initial_pledge == before.initial_pledge,
        after.fee_debt == before.fee_debt,
    ensures
        balance_invariants_hold(after, balance),
{
}

/// Sector numbers are never allocated twice under `DenyCollisions`: once a set of numbers has
/// been allocated, allocating any set that shares a number with it is refused.
pub proof fn lemma_allocated_numbers_never_reused(before: Set<u64>, first: Set<u64>, after: Set<u64>, second: Set<u64>)
    requires
        after == before.union(first),
        !first.disjoint(second),
    ensures
        !after.disjoint(second),
{
    let n = choose|n: u64| first.contains(n) && second.contains(n);
    assert(after.contains(n));
}


/// Partial repayment of the fee debt keeps the balance invariants: what is burnt comes from
/// the unlocked balance (after the vesting table's release) and never exceeds the debt.
pub proof fn lemma_partial_repay_keeps_invariants(before: &State, after: &State, balance: int, to_burn: int)
    requires
        balance_invariants_hold(before, balance),
        after.locked_funds >= 0,
        unlocked_spec(after, balance) >= 0,
        to_burn == if unlocked_spec(after, balance) < before.fee_debt { unlocked_spec(after, balance) } else { before.fee_debt as int },
        after.fee_debt == before.fee_debt - to_burn,
        after.initial_pledge == before.initial_pledge,
        after.pre_commit_deposits == before.pre_commit_deposits,
    ensures
        balance_invariants_hold(after, balance - to_burn),
        0 <= to_burn <= before.fee_debt,
{
}


/// Whether pre-commitments can all be stored: none is already pre-committed and no number
/// repeats.
pub open spec fn precommits_fresh(m: Map<u64, SectorPreCommitOnChainInfo>, ps: Seq<SectorPreCommitOnChainInfo>) -> bool {
    forall|i: int| 0 <= i < ps.len() ==> {
        &&& !m.dom().contains(#[trigger] ps[i].sector_number)
        &&& forall|j: int| 0 <= j < i ==> ps[j].sector_number != ps[i].sector_number
    }
}

/// Whether sector numbers are all present in a table, with no repeats.
pub open spec fn numbers_present<V>(m: Map<u64, V>, nums: Seq<u64>) -> bool {
    forall|i: int| 0 <= i < nums.len() ==> {
        &&& m.dom().contains(#[trigger] nums[i])
        &&& forall|j: int| 0 <= j < i ==> nums[j] != nums[i]
    }
}

/// The pre-commitments of the listed numbers that are present, in order, as plain values.
pub open spec fn found_precommits(m: Map<u64, SectorPreCommitOnChainInfo>, nums: Seq<u64>) -> Seq<(u64, i64, Seq<u8>, ChainEpoch, Seq<u64>, ChainEpoch, Option<Seq<u8>>, TokenAmount, ChainEpoch)>
    decreases nums.len(),
{
    if nums.len() == 0 {
        Seq::empty()
    } else if m.dom().contains(nums.last()) {
        found_precommits(m, nums.drop_last()).push(precommit_view(m[nums.last()]))
    } else {
        found_precommits(m, nums.drop_last())
    }
}

/// The error of loading the listed pre-commitments, requiring each to exist: the first
/// number above the largest sector number (illegal argument) or not pre-committed (not
/// found).
pub open spec fn get_precommits_error(m: Map<u64, SectorPreCommitOnChainInfo>, nums: Seq<u64>) -> Option<u32>
    decreases nums.len(),
{
    if nums.len() == 0 {
        None
    } else {
        match get_precommits_error(m, nums.drop_last()) {
            Some(c) => Some(c),
            None => if nums.last() > MAX_SECTOR_NUMBER {
                Some(USR_ILLEGAL_ARGUMENT)
            } else if !m.dom().contains(nums.last()) {
                Some(USR_NOT_FOUND)
            } else {
                None
            },
        }
    }
}

impl State {
    /// Stores pre-commitments; fails, changing nothing, if a number is already
    /// pre-committed or repeats.
    pub fn put_precommitted_sectors(&mut self, precommits: Vec<SectorPreCommitOnChainInfo>) -> (res: Result<(), ActorError>)
        requires
            old(self).tables_wf(),
        ensures
            final(self).tables_wf(),
            res is Ok <==> precommits_fresh(old(self).pre_committed_sectors.map(), precommits@),
            res is Err ==> res->Err_0.exit_code == USR_ILLEGAL_STATE
                && final(self).pre_committed_sectors.map() == old(self).pre_committed_sectors.map(),
            res is Ok ==> forall|k: u64| #[trigger] final(self).pre_committed_sectors.map().dom().contains(k) <==>
                (old(self).pre_committed_sectors.map().dom().contains(k) || exists|i: int| 0 <= i < precommits@.len() && precommits@[i].sector_number == k),
            res is Ok ==> forall|i: int| 0 <= i < precommits@.len() ==>
                final(self).pre_committed_sectors.map()[#[trigger] precommits@[i].sector_number] == precommits@[i],
            res is Ok ==> forall|k: u64| #[trigger] old(self).pre_committed_sectors.map().dom().contains(k) ==>
                final(self).pre_committed_sectors.map()[k] == old(self).pre_committed_sectors.map()[k],
            final(self).sectors == old(self).sectors,
            final(self).locked_funds == old(self).locked_funds,
            final(self).fee_debt == old(self).fee_debt,
            final(self).initial_pledge == old(self).initial_pledge,
            final(self).pre_commit_deposits == old(self).pre_commit_deposits,
            same_scalars(&*old(self), &*final(self)),
    {
        let ghost ps = precommits@;
        let ghost m0 = self.pre_committed_sectors.map();
        let n = precommits.len();
        let mut i: usize = 0;
        while i < n
            invariant
                n == ps.len(),
                ps == precommits@,
                self.pre_committed_sectors.wf(),
                self.sectors.wf(),
                m0 == self.pre_committed_sectors.map(),
                m0 == old(self).pre_committed_sectors.map(),
                i <= n,
                forall|a: int| 0 <= a < i ==> {
                    &&& !m0.dom().contains(#[trigger] ps[a].sector_number)
                    &&& forall|j: int| 0 <= j < a ==> ps[j].sector_number != ps[a].sector_number
                },
            decreases n - i,
        {
            let num = precommits[i].sector_number;
            if self.pre_committed_sectors.get(num).is_some() {
                return Err(ActorError::illegal_state());
            }
            let mut j: usize = 0;
            while j < i
                invariant
                    n == ps.len(),
                    ps == precommits@,
                    i < n,
                    self.pre_committed_sectors.wf(),
                    self.sectors.wf(),
                    num == ps[i as int].sector_number,
                    j <= i,
                    forall|b: int| 0 <= b < j ==> ps[b].sector_number != num,
                decreases i - j,
            {
                if precommits[j].sector_number == num {
                    return Err(ActorError::illegal_state());
                }
                j = j + 1;
            }
            i = i + 1;
        }
        let mut precommits = precommits;
        let mut k: usize = 0;
        while k < n
            invariant
                n == ps.len(),
                k <= n,
                precommits@ == ps.skip(k as int),
                self.pre_committed_sectors.wf(),
                self.sectors.wf(),
                self.sectors == old(self).sectors,
                self.locked_funds == old(self).locked_funds,
                self.fee_debt == old(self).fee_debt,
                self.initial_pledge == old(self).initial_pledge,
                self.pre_commit_deposits == old(self).pre_commit_deposits,
                same_scalars(&*old(self), &*self),
                precommits_fresh(m0, ps),
                forall|key: u64| #[trigger] self.pre_committed_sectors.map().dom().contains(key) <==>
                    (m0.dom().contains(key) || exists|a: int| 0 <= a < k && ps[a].sector_number == key),
                forall|a: int| 0 <= a < k ==> self.pre_committed_sectors.map()[#[trigger] ps[a].sector_number] == ps[a],
                forall|key: u64| #[trigger] m0.dom().contains(key) ==> self.pre_committed_sectors.map()[key] == m0[key],
            decreases n - k,
        {
            let p = precommits.remove(0);
            assert(p == ps[k as int]);
            assert(precommits@ =~= ps.skip(k + 1));
            let num = p.sector_number;
            self.pre_committed_sectors.set(num, p);
            proof {
                assert forall|key: u64| #[trigger] self.pre_committed_sectors.map().dom().contains(key) <==>
                    (m0.dom().contains(key) || exists|a: int| 0 <= a < k + 1 && ps[a].sector_number == key) by {
                    if key == num {
                        assert(ps[k as int].sector_number == key);
                    }
                }
                assert forall|a: int| 0 <= a < k + 1 implies self.pre_committed_sectors.map()[#[trigger] ps[a].sector_number] == ps[a] by {
                    if a < k {
                        assert(ps[a].sector_number != ps[k as int].sector_number);
                    }
                }
                assert forall|key: u64| #[trigger] m0.dom().contains(key) implies self.pre_committed_sectors.map()[key] == m0[key] by {
                    assert(!m0.dom().contains(ps[k as int].sector_number));
                }
            }
            k = k + 1;
        }
        Ok(())
    }

    /// Removes the listed pre-commitments; fails, changing nothing, if one is not
    /// pre-committed (a repeated number is not pre-committed the second time).
    pub fn delete_precommitted_sectors(&mut self, sector_nums: &[u64]) -> (res: Result<(), ActorError>)
        requires
            old(self).tables_wf(),
        ensures
            final(self).tables_wf(),
            res is Ok <==> numbers_present(old(self).pre_committed_sectors.map(), sector_nums@),
            res is Err ==> res->Err_0.exit_code == USR_ILLEGAL_STATE
                && final(self).pre_committed_sectors == old(self).pre_committed_sectors,
            res is Ok ==> final(self).pre_committed_sectors.map() == old(self).pre_committed_sectors.map().remove_keys(sector_nums@.to_set()),
            final(self).sectors == old(self).sectors,
            final(self).locked_funds == old(self).locked_funds,
            final(self).fee_debt == old(self).fee_debt,
            final(self).initial_pledge == old(self).initial_pledge,
            final(self).pre_commit_deposits == old(self).pre_commit_deposits,
            same_scalars(&*old(self), &*final(self)),
    {
        let ghost m0 = self.pre_committed_sectors.map();
        let ghost nums = sector_nums@;
        let n = sector_nums.len();
        let mut c: usize = 0;
        while c < n
            invariant
                n == nums.len(),
                nums == sector_nums@,
                c <= n,
                *self == *old(self),
                self.tables_wf(),
                m0 == self.pre_committed_sectors.map(),
                forall|a: int| 0 <= a < c ==> {
                    &&& m0.dom().contains(#[trigger] nums[a])
                    &&& forall|j: int| 0 <= j < a ==> nums[j] != nums[a]
                },
            decreases n - c,
        {
            let num = sector_nums[c];
            if self.pre_committed_sectors.get(num).is_none() {
                return Err(ActorError::illegal_state());
            }
            let mut j: usize = 0;
            while j < c
                invariant
                    n == nums.len(),
                    nums == sector_nums@,
                    c < n,
                    num == nums[c as int],
                    *self == *old(self),
                    self.tables_wf(),
                    j <= c,
                    forall|b: int| 0 <= b < j ==> nums[b] != num,
                decreases c - j,
            {
                if sector_nums[j] == num {
                    return Err(ActorError::illegal_state());
                }
                j = j + 1;
            }
            c = c + 1;
        }
        let mut i: usize = 0;
        while i < n
            invariant
                n == nums.len(),
                nums == sector_nums@,
                i <= n,
                self.pre_committed_sectors.wf(),
                self.sectors.wf(),
                self.sectors == old(self).sectors,
                self.locked_funds == old(self).locked_funds,
                self.fee_debt == old(self).fee_debt,
                self.initial_pledge == old(self).initial_pledge,
                self.pre_commit_deposits == old(self).pre_commit_deposits,
                same_scalars(&*old(self), &*self),
                numbers_present(m0, nums),
                m0 == old(self).pre_committed_sectors.map(),
                forall|a: int| 0 <= a < i ==> {
                    &&& m0.dom().contains(#[trigger] nums[a])
                    &&& forall|j: int| 0 <= j < a ==> nums[j] != nums[a]
                },
                self.pre_committed_sectors.map() == m0.remove_keys(Set::new(|k: u64| exists|a: int| 0 <= a < i && nums[a] == k)),
            decreases n - i,
        {
            let num = sector_nums[i];
            let ghost before = Set::new(|k: u64| exists|a: int| 0 <= a < i && nums[a] == k);
            let prev = self.pre_committed_sectors.delete(num);
            if prev.is_none() {
                proof {
                    if numbers_present(m0, nums) {
                        assert(m0.dom().contains(nums[i as int]));
                        assert(before.contains(num));
                        let a = choose|a: int| 0 <= a < i && nums[a] == num;
                        assert(nums[a] != nums[i as int]);
                    }
                }
                return Err(ActorError::illegal_state());
            }
            proof {
                assert(!before.contains(num));
                assert forall|j: int| 0 <= j < i implies nums[j] != nums[i as int] by {
                    if nums[j] == nums[i as int] {
                        assert(before.contains(nums[j]));
                    }
                }
                let after = Set::new(|k: u64| exists|a: int| 0 <= a < i + 1 && nums[a] == k);
                assert(after =~= before.insert(num));
                assert(self.pre_committed_sectors.map() =~= m0.remove_keys(after));
            }
            i = i + 1;
        }
        proof {
            assert(Set::new(|k: u64| exists|a: int| 0 <= a < n && nums[a] == k) =~= nums.to_set());
        }
        Ok(())
    }

    /// The pre-commitment of a sector, if any (a copy).
    pub fn get_precommitted_sector(&self, sector_num: u64) -> (res: Option<SectorPreCommitOnChainInfo>)
        requires
            self.tables_wf(),
        ensures
            res is Some <==> self.pre_committed_sectors.map().dom().contains(sector_num),
            res matches Some(p) ==> precommit_view(p) == precommit_view(self.pre_committed_sectors.map()[sector_num]),
    {
        match self.pre_committed_sectors.get(sector_num) {
            Some(p) => Some(copy_precommit(p)),
            None => None,
        }
    }

    /// The pre-commitments of the listed sectors that exist, in order (copies).
    pub fn find_precommitted_sectors(&self, sector_numbers: &[u64]) -> (res: Vec<SectorPreCommitOnChainInfo>)
        requires
            self.tables_wf(),
        ensures
            res@.map_values(|p: SectorPreCommitOnChainInfo| precommit_view(p)) == found_precommits(self.pre_committed_sectors.map(), sector_numbers@),
    {
        let ghost m = self.pre_committed_sectors.map();
        let mut out: Vec<SectorPreCommitOnChainInfo> = Vec::new();
        let mut i: usize = 0;
        while i < sector_numbers.len()
            invariant
                self.tables_wf(),
                m == self.pre_committed_sectors.map(),
                i <= sector_numbers@.len(),
                out@.map_values(|p: SectorPreCommitOnChainInfo| precommit_view(p)) == found_precommits(m, sector_numbers@.take(i as int)),
            decreases sector_numbers@.len() - i,
        {
            assert(sector_numbers@.take(i + 1).drop_last() =~= sector_numbers@.take(i as int));
            match self.pre_committed_sectors.get(sector_numbers[i]) {
                Some(p) => {
                    out.push(copy_precommit(p));
                    assert(out@.map_values(|p: SectorPreCommitOnChainInfo| precommit_view(p)) =~= found_precommits(m, sector_numbers@.take(i + 1)));
                },
                None => {},
            }
            i = i + 1;
        }
        assert(sector_numbers@.take(sector_numbers@.len() as int) =~= sector_numbers@);
        out
    }

    /// The pre-commitments of the listed sectors, each required to exist: a number above
    /// the largest sector number is an illegal argument and a missing one is not found.
    pub fn get_precommitted_sectors(&self, sector_nos: &[u64]) -> (res: Result<Vec<SectorPreCommitOnChainInfo>, ActorError>)
        requires
            self.tables_wf(),
        ensures
            match get_precommits_error(self.pre_committed_sectors.map(), sector_nos@) {
                Some(code) => res is Err && res->Err_0.exit_code == code,
                None => res is Ok && res->Ok_0@.map_values(|p: SectorPreCommitOnChainInfo| precommit_view(p))
                    == found_precommits(self.pre_committed_sectors.map(), sector_nos@)
                    && res->Ok_0@.len() == sector_nos@.len(),
            },
    {
        let ghost m = self.pre_committed_sectors.map();
        let mut out: Vec<SectorPreCommitOnChainInfo> = Vec::new();
        let mut i: usize = 0;
        while i < sector_nos.len()
            invariant
                self.tables_wf(),
                m == self.pre_committed_sectors.map(),
                i <= sector_nos@.len(),
                get_precommits_error(m, sector_nos@.take(i as int)) is None,
                out@.len() == i,
                out@.map_values(|p: SectorPreCommitOnChainInfo| precommit_view(p)) == found_precommits(m, sector_nos@.take(i as int)),
            decreases sector_nos@.len() - i,
        {
            let ghost pre = sector_nos@.take(i as int);
            let ghost next = sector_nos@.take(i + 1);
            assert(next.drop_last() =~= pre);
            let num = sector_nos[i];
            if num > MAX_SECTOR_NUMBER {
                proof { lemma_get_precommits_error_prefix(m, sector_nos@, i + 1); }
                return Err(ActorError::illegal_argument());
            }
            match self.pre_committed_sectors.get(num) {
                Some(p) => {
                    out.push(copy_precommit(p));
                    assert(out@.map_values(|p: SectorPreCommitOnChainInfo| precommit_view(p)) =~= found_precommits(m, next));
                },
                None => {
                    proof { lemma_get_precommits_error_prefix(m, sector_nos@, i + 1); }
                    return Err(ActorError { exit_code: USR_NOT_FOUND });
                },
            }
            i = i + 1;
        }
        assert(sector_nos@.take(sector_nos@.len() as int) =~= sector_nos@);
        Ok(out)
    }

    /// Whether a proven sector has this number.
    pub fn has_sector_number(&self, sector_num: u64) -> (res: bool)
        requires
            self.tables_wf(),
        ensures
            res == self.sectors.map().dom().contains(sector_num),
    {
        self.sectors.get(sector_num).is_some()
    }

    /// Stores sector records, each under its number, replacing any record already there.
    pub fn put_sectors(&mut self, new_sectors: Vec<SectorOnChainInfo>)
        requires
            old(self).tables_wf(),
        ensures
            final(self).tables_wf(),
            final(self).sectors.map() == sectors_after(old(self).sectors.map(), new_sectors@),
            final(self).pre_committed_sectors == old(self).pre_committed_sectors,
            final(self).locked_funds == old(self).locked_funds,
            final(self).fee_debt == old(self).fee_debt,
            final(self).initial_pledge == old(self).initial_pledge,
            final(self).pre_commit_deposits == old(self).pre_commit_deposits,
            same_scalars(&*old(self), &*final(self)),
    {
        let ghost ss = new_sectors@;
        let mut new_sectors = new_sectors;
        let n = new_sectors.len();
        let mut k: usize = 0;
        while k < n
            invariant
                n == ss.len(),
                k <= n,
                new_sectors@ == ss.skip(k as int),
                self.sectors.wf(),
                self.pre_committed_sectors == old(self).pre_committed_sectors,
                self.locked_funds == old(self).locked_funds,
                self.fee_debt == old(self).fee_debt,
                self.initial_pledge == old(self).initial_pledge,
                self.pre_commit_deposits == old(self).pre_commit_deposits,
                same_scalars(&*old(self), &*self),
                self.sectors.map() == sectors_after(old(self).sectors.map(), ss.take(k as int)),
            decreases n - k,
        {
            let rec = new_sectors.remove(0);
            assert(rec == ss[k as int]);
            assert(new_sectors@ =~= ss.skip(k + 1));
            assert(ss.take(k + 1).drop_last() =~= ss.take(k as int));
            let num = rec.sector_number;
            self.sectors.set(num, rec);
            k = k + 1;
        }
        assert(ss.take(n as int) =~= ss);
    }

    /// The record of a proven sector, if any.
    pub fn get_sector(&self, sector_num: u64) -> (res: Option<&SectorOnChainInfo>)
        requires
            self.tables_wf(),
        ensures
            res is Some <==> self.sectors.map().dom().contains(sector_num),
            res matches Some(s) ==> *s == self.sectors.map()[sector_num],
    {
        self.sectors.get(sector_num)
    }
}

/// A sector table after storing records in order, each under its number.
pub open spec fn sectors_after(m: Map<u64, SectorOnChainInfo>, ss: Seq<SectorOnChainInfo>) -> Map<u64, SectorOnChainInfo>
    decreases ss.len(),
{
    if ss.len() == 0 {
        m
    } else {
        sectors_after(m, ss.drop_last()).insert(ss.last().sector_number, ss.last())
    }
}

proof fn lemma_get_precommits_error_prefix(m: Map<u64, SectorPreCommitOnChainInfo>, nums: Seq<u64>, k: int)
    requires
        1 <= k <= nums.len(),
        get_precommits_error(m, nums.take(k - 1)) is None,
        get_precommits_error(m, nums.take(k)) is Some,
    ensures
        get_precommits_error(m, nums) == get_precommits_error(m, nums.take(k)),
    decreases nums.len() - k,
{
    if k < nums.len() {
        assert(nums.take(k + 1).drop_last() =~= nums.take(k));
        lemma_get_precommits_error_some(m, nums, k);
    } else {
        assert(nums.take(k) =~= nums);
    }
}

proof fn lemma_get_precommits_error_some(m: Map<u64, SectorPreCommitOnChainInfo>, nums: Seq<u64>, k: int)
    requires
        0 <= k <= nums.len(),
        get_precommits_error(m, nums.take(k)) is Some,
    ensures
        get_precommits_error(m, nums) == get_precommits_error(m, nums.take(k)),
    decreases nums.len() - k,
{
    if k < nums.len() {
        assert(nums.take(k + 1).drop_last() =~= nums.take(k));
        lemma_get_precommits_error_some(m, nums, k + 1);
    } else {
        assert(nums.take(k) =~= nums);
    }
}

/// The total deposit of the pre-commitments among `nums` that are in the table.
pub open spec fn expired_deposit(m: Map<u64, SectorPreCommitOnChainInfo>, nums: Seq<u64>) -> int
    decreases nums.len(),
{
    if nums.len() == 0 {
        0
    } else {
        expired_deposit(m, nums.drop_last()) + if m.dom().contains(nums.last()) {
            m[nums.last()].pre_commit_deposit as int
        } else {
            0
        }
    }
}

/// The numbers are in strictly increasing order.
pub open spec fn increasing(nums: Seq<u64>) -> bool {
    forall|i: int, j: int| 0 <= i < j < nums.len() ==> nums[i] < nums[j]
}

impl State {
    /// Removes the pre-commitments among `expired` (the sector numbers whose pre-commitment
    /// has expired by now, in increasing order, as the cleanup queue yields them) that are
    /// still pre-committed, and takes their deposits out of the pre-commit deposits. Returns
    /// the deposit to burn. Deposits that would become negative are an illegal state, and
    /// the state is then left to be abandoned with the transaction.
    pub fn cleanup_expired_pre_commits(&mut self, expired: &[u64]) -> (res: Result<TokenAmount, ActorError>)
        requires
            old(self).tables_wf(),
            increasing(expired@),
            forall|k: int| 0 <= k <= expired@.len()
                ==> fits_i128(#[trigger] expired_deposit(old(self).pre_committed_sectors.map(), expired@.take(k))),
            fits_i128(old(self).pre_commit_deposits - expired_deposit(old(self).pre_committed_sectors.map(), expired@)),
        ensures
            final(self).tables_wf(),
            same_scalars(&*old(self), &*final(self)),
            final(self).sectors == old(self).sectors,
            final(self).locked_funds == old(self).locked_funds,
            final(self).fee_debt == old(self).fee_debt,
            final(self).initial_pledge == old(self).initial_pledge,
            ({
                let burn = expired_deposit(old(self).pre_committed_sectors.map(), expired@);
                if old(self).pre_commit_deposits - burn < 0 {
                    res is Err && res->Err_0.exit_code == USR_ILLEGAL_STATE
                } else {
                    &&& res == Ok::<TokenAmount, ActorError>(burn as i128)
                    &&& final(self).pre_commit_deposits == old(self).pre_commit_deposits - burn
                    &&& final(self).pre_committed_sectors.map()
                        == old(self).pre_committed_sectors.map().remove_keys(expired@.to_set())
                }
            }),
    {
        let ghost m0 = self.pre_committed_sectors.map();
        let ghost nums = expired@;
        let mut to_delete: Vec<u64> = Vec::new();
        let mut burn: i128 = 0;
        let mut i: usize = 0;
        assert(nums.take(0) =~= Seq::<u64>::empty());
        while i < expired.len()
            invariant
                *self == *old(self),
                self.tables_wf(),
                m0 == self.pre_committed_sectors.map(),
                nums == expired@,
                i <= nums.len(),
                increasing(nums),
                forall|k: int| 0 <= k <= nums.len() ==> fits_i128(#[trigger] expired_deposit(m0, nums.take(k))),
                burn == expired_deposit(m0, nums.take(i as int)),
                numbers_present(m0, to_delete@),
                forall|a: int| 0 <= a < to_delete@.len() ==> exists|b: int| 0 <= b < i && nums[b] == #[trigger] to_delete@[a],
                forall|k: u64| #[trigger] m0.dom().contains(k) ==>
                    (to_delete@.contains(k) <==> exists|b: int| 0 <= b < i && nums[b] == k),
            decreases nums.len() - i,
        {
            let num = expired[i];
            assert(nums.take(i + 1).drop_last() =~= nums.take(i as int));
            assert(fits_i128(expired_deposit(m0, nums.take(i + 1))));
            match self.pre_committed_sectors.get(num) {
                Some(p) => {
                    burn = burn + p.pre_commit_deposit;
                    proof {
                        assert forall|a: int| 0 <= a < to_delete@.len() implies to_delete@[a] != num by {
                            let b = choose|b: int| 0 <= b < i && nums[b] == to_delete@[a];
                            assert(nums[b] < nums[i as int]);
                        }
                    }
                    let ghost old_del = to_delete@;
                    to_delete.push(num);
                    proof {
                        assert(to_delete@.drop_last() =~= old_del);
                        assert forall|a: int| 0 <= a < to_delete@.len() implies exists|b: int| 0 <= b < i + 1 && nums[b] == #[trigger] to_delete@[a] by {
                            if a == to_delete@.len() - 1 {
                                assert(nums[i as int] == to_delete@[a]);
                            } else {
                                let b = choose|b: int| 0 <= b < i && nums[b] == to_delete@[a];
                            }
                        }
                        assert forall|k: u64| #[trigger] m0.dom().contains(k) implies
                            (to_delete@.contains(k) <==> exists|b: int| 0 <= b < i + 1 && nums[b] == k) by {
                            if k == num {
                                assert(to_delete@[to_delete@.len() - 1] == k);
                            } else if to_delete@.contains(k) {
                                let a = choose|a: int| 0 <= a < to_delete@.len() && to_delete@[a] == k;
                                assert(a < to_delete@.len() - 1);
                                assert(to_delete@.drop_last()[a] == k);
                            } else if exists|b: int| 0 <= b < i + 1 && nums[b] == k {
                                let b = choose|b: int| 0 <= b < i + 1 && nums[b] == k;
                                assert(b < i);
                                assert(old_del.contains(k));
                                let a = choose|a: int| 0 <= a < old_del.len() && old_del[a] == k;
                                assert(to_delete@[a] == k);
                            }
                        }
                    }
                },
                None => {
                    proof {
                        assert forall|k: u64| #[trigger] m0.dom().contains(k) implies
                            (to_delete@.contains(k) <==> exists|b: int| 0 <= b < i + 1 && nums[b] == k) by {
                            if exists|b: int| 0 <= b < i + 1 && nums[b] == k {
                                let b = choose|b: int| 0 <= b < i + 1 && nums[b] == k;
                                assert(b != i);
                            }
                        }
                    }
                },
            }
            i = i + 1;
        }
        assert(nums.take(nums.len() as int) =~= nums);
        if self.delete_precommitted_sectors(to_delete.as_slice()).is_err() {
            return Err(ActorError::illegal_state());
        }
        proof {
            assert(self.pre_committed_sectors.map() =~= m0.remove_keys(nums.to_set()));
        }
        let deposits = self.pre_commit_deposits - burn;
        if deposits < 0 {
            return Err(ActorError::illegal_state());
        }
        self.pre_commit_deposits = deposits;
        Ok(burn)
    }
}

/// Law: pre-commitments that a table holds under their own numbers are all found again, in
/// the order of those numbers (as `put_precommitted_sectors` leaves them).
pub proof fn lemma_stored_precommits_found(m: Map<u64, SectorPreCommitOnChainInfo>, ps: Seq<SectorPreCommitOnChainInfo>)
    requires
        forall|i: int| 0 <= i < ps.len() ==> m.dom().contains(#[trigger] ps[i].sector_number)
            && m[ps[i].sector_number] == ps[i],
    ensures
        found_precommits(m, ps.map_values(|p: SectorPreCommitOnChainInfo| p.sector_number))
            == ps.map_values(|p: SectorPreCommitOnChainInfo| precommit_view(p)),
    decreases ps.len(),
{
    let nums = ps.map_values(|p: SectorPreCommitOnChainInfo| p.sector_number);
    if ps.len() > 0 {
        let front = ps.drop_last();
        assert forall|i: int| 0 <= i < front.len() implies m.dom().contains(#[trigger] front[i].sector_number)
            && m[front[i].sector_number] == front[i] by {
            assert(front[i] == ps[i]);
        }
        lemma_stored_precommits_found(m, front);
        assert(nums.drop_last() =~= front.map_values(|p: SectorPreCommitOnChainInfo| p.sector_number));
        assert(m.dom().contains(ps[ps.len() - 1].sector_number));
        assert(ps.map_values(|p: SectorPreCommitOnChainInfo| precommit_view(p))
            =~= front.map_values(|p: SectorPreCommitOnChainInfo| precommit_view(p)).push(precommit_view(ps.last())));
    } else {
        assert(nums =~= Seq::<u64>::empty());
        assert(ps.map_values(|p: SectorPreCommitOnChainInfo| precommit_view(p)) =~= Seq::empty());
    }
}

/// Law: after records with distinct numbers are stored, each is read back under its number,
/// and every other number reads as before (`put_sectors`).
pub proof fn lemma_stored_sectors_read_back(m: Map<u64, SectorOnChainInfo>, ss: Seq<SectorOnChainInfo>)
    requires
        forall|i: int, j: int| 0 <= i < j < ss.len() ==> ss[i].sector_number != ss[j].sector_number,
    ensures
        forall|i: int| 0 <= i < ss.len() ==> sectors_after(m, ss).dom().contains(#[trigger] ss[i].sector_number)
            && sectors_after(m, ss)[ss[i].sector_number] == ss[i],
        forall|k: u64| #![trigger sectors_after(m, ss).dom().contains(k)] #![trigger m.dom().contains(k)]
            (forall|i: int| 0 <= i < ss.len() ==> #[trigger] ss[i].sector_number != k) ==> {
            &&& (sectors_after(m, ss).dom().contains(k) <==> m.dom().contains(k))
            &&& (m.dom().contains(k) ==> sectors_after(m, ss)[k] == m[k])
        },
    decreases ss.len(),
{
    if ss.len() > 0 {
        let front = ss.drop_last();
        assert forall|i: int, j: int| 0 <= i < j < front.len() implies front[i].sector_number != front[j].sector_number by {
            assert(front[i] == ss[i] && front[j] == ss[j]);
        }
        lemma_stored_sectors_read_back(m, front);
        assert forall|i: int| 0 <= i < ss.len() implies sectors_after(m, ss).dom().contains(#[trigger] ss[i].sector_number)
            && sectors_after(m, ss)[ss[i].sector_number] == ss[i] by {
            if i < ss.len() - 1 {
                assert(front[i] == ss[i]);
                assert(ss[i].sector_number != ss[ss.len() - 1].sector_number);
            }
        }
        assert forall|k: u64| #![trigger sectors_after(m, ss).dom().contains(k)] #![trigger m.dom().contains(k)]
            (forall|i: int| 0 <= i < ss.len() ==> #[trigger] ss[i].sector_number != k) implies {
            &&& (sectors_after(m, ss).dom().contains(k) <==> m.dom().contains(k))
            &&& (m.dom().contains(k) ==> sectors_after(m, ss)[k] == m[k])
        } by {
            assert(ss[ss.len() - 1].sector_number != k);
            assert forall|i: int| 0 <= i < front.len() implies #[trigger] front[i].sector_number != k by {
                assert(front[i] == ss[i]);
                assert(ss[i].sector_number != k);
            }
            let f = sectors_after(m, front);
            assert(f.dom().contains(k) <==> m.dom().contains(k));
            assert(m.dom().contains(k) ==> f[k] == m[k]);
            assert(sectors_after(m, ss) == f.insert(ss.last().sector_number, ss.last()));
        }
    }
}

} // verus!
