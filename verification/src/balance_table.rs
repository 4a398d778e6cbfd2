//! The storage market's balance table: token balances keyed by address.

use vstd::prelude::*;
use crate::addr_map::AddrMap;
use crate::address::Address;
use crate::error::{ActorError, USR_ILLEGAL_ARGUMENT};
use crate::miner_state::fits_i128;
use crate::policy::TokenAmount;

verus! {

/// Sum of a sequence of amounts.
pub open spec fn sum_amounts(s: Seq<i128>) -> int
    decreases s.len(),
{
    if s.len() == 0 {
        0
    } else {
        sum_amounts(s.drop_last()) + s.last()
    }
}

/// Every prefix sum of `s` fits in i128.
pub open spec fn prefix_sums_fit(s: Seq<i128>) -> bool {
    forall|i: int| 0 <= i <= s.len() ==> fits_i128(#[trigger] sum_amounts(s.take(i)))
}

/// Balance recorded for `key`, zero when absent.
pub open spec fn balance_of(m: Map<Seq<u8>, i128>, key: Seq<u8>) -> int {
    if m.dom().contains(key) { m[key] as int } else { 0 }
}

proof fn lemma_sum_push(s: Seq<i128>, x: i128)
    ensures
        sum_amounts(s.push(x)) == sum_amounts(s) + x,
{
    assert(s.push(x).drop_last() =~= s);
}

proof fn lemma_sum_update(s: Seq<i128>, i: int, x: i128)
    requires
        0 <= i < s.len(),
    ensures
        sum_amounts(s.update(i, x)) == sum_amounts(s) - s[i] + x,
    decreases s.len(),
{
    if i == s.len() - 1 {
        assert(s.update(i, x).drop_last() =~= s.drop_last());
    } else {
        lemma_sum_update(s.drop_last(), i, x);
        assert(s.update(i, x).drop_last() =~= s.drop_last().update(i, x));
    }
}

proof fn lemma_sum_remove(s: Seq<i128>, i: int)
    requires
        0 <= i < s.len(),
    ensures
        sum_amounts(s.remove(i)) == sum_amounts(s) - s[i],
    decreases s.len(),
{
    if i == s.len() - 1 {
        assert(s.remove(i) =~= s.drop_last());
    } else {
        lemma_sum_remove(s.drop_last(), i);
        assert(s.remove(i).drop_last() =~= s.drop_last().remove(i));
        assert(s.remove(i).last() == s.last());
    }
}

/// Token balances keyed by address.
#[derive(Debug)]
pub struct BalanceTable {
    entries: AddrMap<TokenAmount>,
}

impl BalanceTable {
    /// The table's well-formedness.
    pub closed spec fn wf(&self) -> bool {
        self.entries.wf()
    }

    /// The recorded balances.
    pub closed spec fn balances(&self) -> Map<Seq<u8>, i128> {
        self.entries.map()
    }

    /// The recorded amounts, one per entry; their sum is the table's total.
    pub closed spec fn amounts(&self) -> Seq<i128> {
        self.entries.val_seq()
    }

    /// The total of all recorded balances.
    pub open spec fn total_spec(&self) -> int {
        sum_amounts(self.amounts())
    }

    /// An empty balance table.
    pub fn new() -> (res: BalanceTable)
        ensures
            res.wf(),
            res.balances() == Map::<Seq<u8>, i128>::empty(),
            res.total_spec() == 0,
    {
        BalanceTable { entries: AddrMap::new() }
    }

    /// The balance recorded for `key`, zero when absent.
    pub fn get(&self, key: &Address) -> (res: TokenAmount)
        requires
            self.wf(),
        ensures
            res == balance_of(self.balances(), key@),
    {
        match self.entries.get(key) {
            Some(v) => v,
            None => 0,
        }
    }

    /// Adds `value` (possibly negative) to the balance of `key`. Fails, changing nothing,
    /// if the balance would become negative; removes the entry when a non-zero balance
    /// becomes zero.
    pub fn add(&mut self, key: &Address, value: TokenAmount) -> (res: Result<(), ActorError>)
        requires
            old(self).wf(),
            fits_i128(balance_of(old(self).balances(), key@) + value),
        ensures
            final(self).wf(),
            res is Ok <==> balance_of(old(self).balances(), key@) + value >= 0,
            res is Err ==> res->Err_0.exit_code == USR_ILLEGAL_ARGUMENT
                && final(self).balances() == old(self).balances()
                && final(self).amounts() == old(self).amounts(),
            res is Ok ==> final(self).balances() == (
                if balance_of(old(self).balances(), key@) + value == 0
                    && balance_of(old(self).balances(), key@) != 0 {
                    old(self).balances().remove(key@)
                } else {
                    old(self).balances().insert(key@, (balance_of(old(self).balances(), key@) + value) as i128)
                }),
            res is Ok ==> final(self).total_spec() == old(self).total_spec() + value,
    {
        let prev = self.get(key);
        let sum = prev + value;
        if sum < 0 {
            Err(ActorError::illegal_argument())
        } else if sum == 0 && prev != 0 {
            let _ = self.entries.delete(key);
            proof {
                let i = choose|i: int| 0 <= i < old(self).amounts().len()
                    && old(self).balances()[key@] == old(self).amounts()[i]
                    && self.amounts() == old(self).amounts().remove(i);
                lemma_sum_remove(old(self).amounts(), i);
            }
            Ok(())
        } else {
            self.entries.set(key, sum);
            proof {
                if old(self).balances().dom().contains(key@) {
                    let i = choose|i: int| 0 <= i < old(self).amounts().len()
                        && old(self).balances()[key@] == old(self).amounts()[i]
                        && self.amounts() == old(self).amounts().update(i, sum);
                    lemma_sum_update(old(self).amounts(), i, sum);
                } else {
                    lemma_sum_push(old(self).amounts(), sum);
                }
            }
            Ok(())
        }
    }

    /// Subtracts up to `req` from the balance of `key` without taking it below `floor`;
    /// returns the amount subtracted, `min(max(0, balance - floor), req)`, which is never
    /// negative: a negative request subtracts nothing.
    pub fn subtract_with_minimum(&mut self, key: &Address, req: TokenAmount, floor: TokenAmount) -> (res: Result<TokenAmount, ActorError>)
        requires
            old(self).wf(),
            fits_i128(balance_of(old(self).balances(), key@) - floor),
        ensures
            final(self).wf(),
            ({
                let prev = balance_of(old(self).balances(), key@);
                let available = if prev - floor > 0 { prev - floor } else { 0 };
                let sub = if req < 0 { 0 } else if available < req { available } else { req as int };
                &&& res is Err <==> sub > 0 && prev - sub < 0
                &&& res is Err ==> res->Err_0.exit_code == USR_ILLEGAL_ARGUMENT
                &&& res is Ok ==> res->Ok_0 >= 0
                &&& res is Ok ==> res == Ok::<TokenAmount, ActorError>(sub as i128)
                &&& res is Ok && sub > 0 ==> balance_of(final(self).balances(), key@) == prev - sub
                &&& (res is Err || sub <= 0) ==> final(self).balances() == old(self).balances()
                &&& forall|k: Seq<u8>| k != key@ ==> balance_of(final(self).balances(), k) == balance_of(old(self).balances(), k)
                &&& res is Ok ==> final(self).total_spec() == old(self).total_spec() - (if sub > 0 { sub } else { 0 })
            }),
    {
        let prev = self.get(key);
        let diff = prev - floor;
        let available: TokenAmount = if diff > 0 { diff } else { 0 };
        let sub: TokenAmount = if req < 0 { 0 } else if available < req { available } else { req };
        if sub > 0 {
            self.add(key, -sub)?;
        }
        Ok(sub)
    }

    /// Subtracts `req` from the balance of `key`; fails, changing nothing, if the balance is
    /// smaller than `req`.
    pub fn must_subtract(&mut self, key: &Address, req: TokenAmount) -> (res: Result<(), ActorError>)
        requires
            old(self).wf(),
            req > i128::MIN,
            fits_i128(balance_of(old(self).balances(), key@) - req),
        ensures
            final(self).wf(),
            res is Ok <==> req <= balance_of(old(self).balances(), key@)
                && balance_of(old(self).balances(), key@) - req >= 0,
            res is Ok ==> balance_of(final(self).balances(), key@) == balance_of(old(self).balances(), key@) - req,
            res is Ok ==> final(self).total_spec() == old(self).total_spec() - req,
            res is Err ==> res->Err_0.exit_code == USR_ILLEGAL_ARGUMENT,
            res is Err ==> final(self).balances() == old(self).balances(),
            forall|k: Seq<u8>| k != key@ ==> balance_of(final(self).balances(), k) == balance_of(old(self).balances(), k),
    {
        let prev = self.get(key);
        if req > prev {
            Err(ActorError::illegal_argument())
        } else {
            self.add(key, -req)
        }
    }

    /// The total of all balances.
    pub fn total(&self) -> (res: TokenAmount)
        requires
            self.wf(),
            prefix_sums_fit(self.amounts()),
        ensures
            res == self.total_spec(),
    {
        let mut total: TokenAmount = 0;
        let n = self.entries.len();
        let mut i: usize = 0;
        while i < n
            invariant
                self.wf(),
                n == self.amounts().len(),
                i <= n,
                prefix_sums_fit(self.amounts()),
                total == sum_amounts(self.amounts().take(i as int)),
            decreases n - i,
        {
            let v = self.entries.value_at(i);
            proof {
                assert(self.amounts().take((i + 1) as int).drop_last() =~= self.amounts().take(i as int));
                assert(fits_i128(sum_amounts(self.amounts().take((i + 1) as int))));
            }
            total = total + v;
            i = i + 1;
        }
        assert(self.amounts().take(n as int) =~= self.amounts());
        total
    }
}

/// Adding an amount to a balance and then subtracting the same amount gives every balance
/// back as it was.
pub proof fn lemma_add_then_subtract_restores(m0: Map<Seq<u8>, i128>, m1: Map<Seq<u8>, i128>, m2: Map<Seq<u8>, i128>, key: Seq<u8>, value: int)
    requires
        balance_of(m0, key) + value >= 0,
        m1 == (if balance_of(m0, key) + value == 0 && balance_of(m0, key) != 0 {
            m0.remove(key)
        } else {
            m0.insert(key, (balance_of(m0, key) + value) as i128)
        }),
        fits_i128(balance_of(m0, key) + value),
        balance_of(m2, key) == balance_of(m1, key) - value,
        forall|k: Seq<u8>| k != key ==> balance_of(m2, k) == balance_of(m1, k),
    ensures
        forall|k: Seq<u8>| balance_of(m2, k) == balance_of(m0, k),
{
    assert forall|k: Seq<u8>| balance_of(m2, k) == balance_of(m0, k) by {
        if k != key {
            assert(balance_of(m1, k) == balance_of(m0, k));
        }
    }
}

} // verus!
