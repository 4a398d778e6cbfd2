//! The multisig actor's signer set and linear vesting of its locked balance.

use vstd::prelude::*;
use crate::address::{contains_address, Address};
use crate::error::ActorError;
use crate::id_map::IdMap;
use crate::miner_state::fits_i128;
use crate::policy::{ChainEpoch, TokenAmount};

verus! {

/// `n / d` rounded toward positive infinity, for `d > 0`.
pub open spec fn ceil_div(n: int, d: int) -> int {
    -((-n) / d)
}

/// The amount still locked `elapsed_epoch` epochs after the lock started: the whole initial
/// balance before the start, nothing once the duration has passed, and in between
/// `ceil(initial_balance * remaining / duration)`.
pub open spec fn amount_locked_spec(initial_balance: int, unlock_duration: int, elapsed_epoch: int) -> int {
    if elapsed_epoch >= unlock_duration {
        0
    } else if elapsed_epoch <= 0 {
        initial_balance
    } else {
        ceil_div(initial_balance * (unlock_duration - elapsed_epoch), unlock_duration)
    }
}

/// If `n == q * d + m` with `m >= 0`, then `n / d == q + m / d`.
proof fn lemma_div_split(n: int, q: int, m: int, d: int)
    requires
        d > 0,
        m >= 0,
        n == q * d + m,
    ensures
        n / d == q + m / d,
{
    vstd::arithmetic::div_mod::lemma_fundamental_div_mod(m, d);
    assert(n == (q + m / d) * d + m % d) by (nonlinear_arith)
        requires n == q * d + m, m == d * (m / d) + m % d;
    vstd::arithmetic::div_mod::lemma_fundamental_div_mod_converse(n, d, q + m / d, m % d);
}

/// For `n >= 0`, rounding up equals `(n + d - 1) / d`.
proof fn lemma_ceil_nonneg(n: int, d: int)
    requires
        d > 0,
        n >= 0,
    ensures
        ceil_div(n, d) == (n + d - 1) / d,
{
    vstd::arithmetic::div_mod::lemma_fundamental_div_mod(n, d);
    let q = n / d;
    let r = n % d;
    if r == 0 {
        assert(-n == (-q) * d + 0) by (nonlinear_arith) requires n == d * q + r, r == 0;
        vstd::arithmetic::div_mod::lemma_fundamental_div_mod_converse(-n, d, -q, 0);
        assert(n + d - 1 == q * d + (d - 1)) by (nonlinear_arith) requires n == d * q + r, r == 0;
        vstd::arithmetic::div_mod::lemma_fundamental_div_mod_converse(n + d - 1, d, q, d - 1);
    } else {
        assert(-n == (-q - 1) * d + (d - r)) by (nonlinear_arith) requires n == d * q + r;
        vstd::arithmetic::div_mod::lemma_fundamental_div_mod_converse(-n, d, -q - 1, d - r);
        assert(n + d - 1 == (q + 1) * d + (r - 1)) by (nonlinear_arith) requires n == d * q + r;
        vstd::arithmetic::div_mod::lemma_fundamental_div_mod_converse(n + d - 1, d, q + 1, r - 1);
    }
}

/// A proposed transaction waiting for approvals.
#[derive(Debug)]
pub struct Transaction {
    pub to: Address,
    pub value: TokenAmount,
    pub method: u64,
    pub params: Vec<u8>,
    /// The signers that have approved it, in order.
    pub approved: Vec<Address>,
}

/// A transaction as plain values: recipient bytes, value, method, parameters and the
/// approvers' address bytes.
pub open spec fn txn_view(t: Transaction) -> (Seq<u8>, i128, u64, Seq<u8>, Seq<Seq<u8>>) {
    (t.to@, t.value, t.method, t.params@, t.approved@.map_values(|a: Address| a@))
}

/// The pending transactions as plain values.
pub open spec fn pending_view(m: Map<i64, Transaction>) -> Map<i64, (Seq<u8>, i128, u64, Seq<u8>, Seq<Seq<u8>>)> {
    m.map_values(|t: Transaction| txn_view(t))
}

/// A list of addresses without the occurrences of `a`.
pub open spec fn without(s: Seq<Seq<u8>>, a: Seq<u8>) -> Seq<Seq<u8>>
    decreases s.len(),
{
    if s.len() == 0 {
        s
    } else if s.last() == a {
        without(s.drop_last(), a)
    } else {
        without(s.drop_last(), a).push(s.last())
    }
}

/// The pending transactions once `a`'s approvals are removed: a transaction that `a`
/// approved loses that approval, and is dropped if no approval is left.
pub open spec fn purged(m: Map<i64, (Seq<u8>, i128, u64, Seq<u8>, Seq<Seq<u8>>)>, a: Seq<u8>) -> Map<i64, (Seq<u8>, i128, u64, Seq<u8>, Seq<Seq<u8>>)> {
    Map::new(
        |k: i64| m.dom().contains(k) && (!m[k].4.contains(a) || without(m[k].4, a).len() > 0),
        |k: i64| if m[k].4.contains(a) { (m[k].0, m[k].1, m[k].2, m[k].3, without(m[k].4, a)) } else { m[k] },
    )
}

/// Multisig actor state.
#[derive(Debug)]
pub struct State {
    pub signers: Vec<Address>,
    pub num_approvals_threshold: u64,
    pub next_tx_id: i64,
    /// Balance locked at `start_epoch`, released linearly over `unlock_duration`.
    pub initial_balance: TokenAmount,
    pub start_epoch: ChainEpoch,
    pub unlock_duration: ChainEpoch,
    /// Transactions waiting for approvals, by transaction id.
    pub pending_txs: IdMap<i64, Transaction>,
}

fn copy_bytes(v: &Vec<u8>) -> (res: Vec<u8>)
    ensures
        res@ == v@,
{
    let res = v.clone();
    assert(res@ =~= v@);
    res
}

/// Copies the approvers other than `addr`, and tells whether `addr` was among them.
fn approvals_without(approved: &Vec<Address>, addr: &Address) -> (res: (Vec<Address>, bool))
    ensures
        res.0@.map_values(|a: Address| a@) == without(approved@.map_values(|a: Address| a@), addr@),
        res.1 == approved@.map_values(|a: Address| a@).contains(addr@),
{
    let ghost all = approved@.map_values(|a: Address| a@);
    let mut kept: Vec<Address> = Vec::new();
    let mut found = false;
    let mut i: usize = 0;
    while i < approved.len()
        invariant
            i <= approved@.len(),
            all == approved@.map_values(|a: Address| a@),
            kept@.map_values(|a: Address| a@) == without(all.subrange(0, i as int), addr@),
            found == all.subrange(0, i as int).contains(addr@),
        decreases approved@.len() - i,
    {
        let a = &approved[i];
        let ghost pre = all.subrange(0, i as int);
        let ghost pre1 = all.subrange(0, i + 1);
        assert(pre1.drop_last() =~= pre);
        assert(pre1.last() == a@);
        assert(pre1 =~= pre.push(a@));
        proof {
            vstd::seq_lib::lemma_seq_contains_after_push(pre, a@, addr@);
        }
        if a.same_as(addr) {
            found = true;
        } else {
            let ghost before = kept@;
            kept.push(a.clone());
            assert(kept@.map_values(|a: Address| a@) =~= before.map_values(|a: Address| a@).push(a@));
        }
        i = i + 1;
    }
    assert(all.subrange(0, all.len() as int) =~= all);
    (kept, found)
}

impl State {
    /// Whether `address` is one of the signers.
    pub fn is_signer(&self, address: &Address) -> (res: bool)
        ensures
            res == exists|i: int| 0 <= i < self.signers@.len() && (#[trigger] self.signers@[i])@ == address@,
    {
        contains_address(self.signers.as_slice(), address)
    }

    /// Sets the lock: `locked_amount` locked from `start_epoch`, released over `unlock_duration`.
    pub fn set_locked(&mut self, start_epoch: ChainEpoch, unlock_duration: ChainEpoch, locked_amount: TokenAmount)
        ensures
            final(self).start_epoch == start_epoch,
            final(self).unlock_duration == unlock_duration,
            final(self).initial_balance == locked_amount,
            final(self).signers@ == old(self).signers@,
            final(self).num_approvals_threshold == old(self).num_approvals_threshold,
            final(self).next_tx_id == old(self).next_tx_id,
            final(self).pending_txs == old(self).pending_txs,
    {
        self.start_epoch = start_epoch;
        self.unlock_duration = unlock_duration;
        self.initial_balance = locked_amount;
    }

    /// The amount locked `elapsed_epoch` epochs after the lock started.
    pub fn amount_locked(&self, elapsed_epoch: ChainEpoch) -> (res: TokenAmount)
        requires
            self.initial_balance > i128::MIN,
        ensures
            res == amount_locked_spec(self.initial_balance as int, self.unlock_duration as int, elapsed_epoch as int),
    {
        if elapsed_epoch >= self.unlock_duration {
            return 0;
        }
        if elapsed_epoch <= 0 {
            return self.initial_balance;
        }
        let d: i128 = self.unlock_duration as i128;
        let r: i128 = (self.unlock_duration - elapsed_epoch) as i128;
        let a: i128 = self.initial_balance;
        assert(0 < r < d);
        if a >= 0 {
            let q: i128 = a / d;
            let m: i128 = a % d;
            let ghost (ai, di, ri, qi, mi) = (a as int, d as int, r as int, q as int, m as int);
            proof {
                vstd::arithmetic::div_mod::lemma_fundamental_div_mod(ai, di);
                assert(0 <= mi * ri < di * di) by (nonlinear_arith) requires 0 <= mi < di, 0 < ri < di;
                assert(di * di <= 0x4000_0000_0000_0000_0000_0000_0000_0000) by (nonlinear_arith) requires 0 < di <= 0x7fff_ffff_ffff_ffff;
                assert(ai * ri == (qi * ri) * di + mi * ri) by (nonlinear_arith) requires ai == di * qi + mi;
                assert(0 <= qi * ri) by (nonlinear_arith) requires qi >= 0, ri > 0;
                lemma_ceil_nonneg(ai * ri, di);
                lemma_div_split(ai * ri + di - 1, qi * ri, mi * ri + di - 1, di);
                // the result is at most a
                assert(ai * ri + di - 1 <= (ai + 1) * di - 1) by (nonlinear_arith) requires ai >= 0, 0 < ri < di;
                vstd::arithmetic::div_mod::lemma_div_is_ordered(ai * ri + di - 1, (ai + 1) * di - 1, di);
                assert((ai + 1) * di - 1 == ai * di + (di - 1)) by (nonlinear_arith);
                vstd::arithmetic::div_mod::lemma_fundamental_div_mod_converse((ai + 1) * di - 1, di, ai, di - 1);
                assert(0 <= (mi * ri + di - 1) / di) by (nonlinear_arith) requires mi * ri >= 0, di > 0;
            }
            let part: i128 = (m * r + d - 1) / d;
            q * r + part
        } else {
            let b: i128 = -a;
            let q: i128 = b / d;
            let m: i128 = b % d;
            let ghost (bi, di, ri, qi, mi) = (b as int, d as int, r as int, q as int, m as int);
            proof {
                vstd::arithmetic::div_mod::lemma_fundamental_div_mod(bi, di);
                assert(0 <= mi * ri < di * di) by (nonlinear_arith) requires 0 <= mi < di, 0 < ri < di;
                assert(di * di <= 0x4000_0000_0000_0000_0000_0000_0000_0000) by (nonlinear_arith) requires 0 < di <= 0x7fff_ffff_ffff_ffff;
                assert(bi * ri == (qi * ri) * di + mi * ri) by (nonlinear_arith) requires bi == di * qi + mi;
                assert(0 <= qi * ri) by (nonlinear_arith) requires qi >= 0, ri > 0;
                lemma_div_split(bi * ri, qi * ri, mi * ri, di);
                assert(-((a as int) * ri) == bi * ri) by (nonlinear_arith) requires bi == -(a as int);
                assert(bi * ri <= bi * di) by (nonlinear_arith) requires bi >= 0, 0 < ri < di;
                vstd::arithmetic::div_mod::lemma_div_is_ordered(bi * ri, bi * di, di);
                vstd::arithmetic::div_mod::lemma_fundamental_div_mod_converse(bi * di, di, bi, 0);
                assert(0 <= (mi * ri) / di) by (nonlinear_arith) requires mi * ri >= 0, di > 0;
            }
            let part: i128 = (m * r) / d;
            -(q * r + part)
        }
    }

    /// Checks that `amount_to_spend` may leave the multisig at `curr_epoch`: it is not
    /// negative, not above the balance, and (unless zero) leaves at least the locked amount.
    pub fn check_available(&self, balance: TokenAmount, amount_to_spend: TokenAmount, curr_epoch: ChainEpoch) -> (res: Result<(), ActorError>)
        requires
            self.initial_balance > i128::MIN,
            fits_i128(balance - amount_to_spend),
            i64::MIN <= curr_epoch - self.start_epoch <= i64::MAX,
        ensures
            res is Ok <==> (amount_to_spend >= 0 && balance >= amount_to_spend
                && (amount_to_spend == 0 || balance - amount_to_spend >= amount_locked_spec(
                    self.initial_balance as int, self.unlock_duration as int, curr_epoch - self.start_epoch))),
            amount_to_spend < 0 ==> res == Err::<(), ActorError>(ActorError::illegal_argument_spec()),
            amount_to_spend >= 0 && res is Err ==> res == Err::<(), ActorError>(ActorError::insufficient_funds_spec()),
    {
        if amount_to_spend < 0 {
            return Err(ActorError::illegal_argument());
        }
        if balance < amount_to_spend {
            return Err(ActorError::insufficient_funds());
        }
        if amount_to_spend == 0 {
            return Ok(());
        }
        let remaining_balance = balance - amount_to_spend;
        let amount_locked = self.amount_locked(curr_epoch - self.start_epoch);
        if remaining_balance < amount_locked {
            return Err(ActorError::insufficient_funds());
        }
        Ok(())
    }

    /// Removes `addr`'s approval from every pending transaction, dropping the transactions
    /// left with no approval.
    pub fn purge_approvals(&mut self, addr: &Address) -> (res: Result<(), ActorError>)
        requires
            old(self).pending_txs.wf(),
        ensures
            res is Ok,
            final(self).pending_txs.wf(),
            pending_view(final(self).pending_txs.map()) == purged(pending_view(old(self).pending_txs.map()), addr@),
            final(self).signers@ == old(self).signers@,
            final(self).num_approvals_threshold == old(self).num_approvals_threshold,
            final(self).next_tx_id == old(self).next_tx_id,
            final(self).initial_balance == old(self).initial_balance,
            final(self).start_epoch == old(self).start_epoch,
            final(self).unlock_duration == old(self).unlock_duration,
    {
        let ghost old_view = pending_view(self.pending_txs.map());
        let ghost target = purged(old_view, addr@);
        let ghost keys = self.pending_txs.key_seq();
        proof { self.pending_txs.lemma_entries(); }
        let mut txns: IdMap<i64, Transaction> = IdMap::new();
        let mut i: usize = 0;
        let n = self.pending_txs.len();
        while i < n
            invariant
                i <= n,
                n == self.pending_txs.val_seq().len(),
                self.pending_txs.wf(),
                keys == self.pending_txs.key_seq(),
                keys.len() == n,
                old_view == pending_view(self.pending_txs.map()),
                target == purged(old_view, addr@),
                forall|a: int, b: int| 0 <= a < b < keys.len() ==> keys[a] != keys[b],
                forall|k: i64| #[trigger] self.pending_txs.map().dom().contains(k) <==> exists|j: int| 0 <= j < keys.len() && keys[j] == k,
                txns.wf(),
                pending_view(txns.map()) == target.restrict(Set::new(|k: i64| exists|j: int| 0 <= j < i && keys[j] == k)),
            decreases n - i,
        {
            let key = self.pending_txs.key_at(i);
            let txn = self.pending_txs.value_at(i);
            let ghost before = txns.map();
            let ghost seen = Set::new(|k: i64| exists|j: int| 0 <= j < i && keys[j] == k);
            let ghost seen_next = Set::new(|k: i64| exists|j: int| 0 <= j < i + 1 && keys[j] == k);
            assert(!seen.contains(key)) by {
                if seen.contains(key) {
                    let j = choose|j: int| 0 <= j < i && keys[j] == key;
                    assert(keys[j] != keys[i as int]);
                }
            }
            assert(seen_next =~= seen.insert(key)) by {
                assert forall|k: i64| seen_next.contains(k) implies seen.insert(key).contains(k) by {
                    let j = choose|j: int| 0 <= j < i + 1 && keys[j] == k;
                    if j < i {
                        assert(seen.contains(k));
                    }
                }
                assert forall|k: i64| seen.insert(key).contains(k) implies seen_next.contains(k) by {
                    if k != key {
                        let j = choose|j: int| 0 <= j < i && keys[j] == k;
                        assert(0 <= j < i + 1 && keys[j] == k);
                    }
                }
            }
            let (kept, found) = approvals_without(&txn.approved, addr);
            assert(old_view[key] == txn_view(*txn));
            if !found || kept.len() > 0 {
                let new_txn = Transaction {
                    to: txn.to.clone(),
                    value: txn.value,
                    method: txn.method,
                    params: copy_bytes(&txn.params),
                    approved: if found { kept } else { clone_addresses(&txn.approved) },
                };
                let ghost nv = txn_view(new_txn);
                txns.set(key, new_txn);
                assert(target.dom().contains(key));
                assert(nv == target[key]);
                proof {
                    let pv = pending_view(txns.map());
                    let pb = pending_view(before);
                    let tr = target.restrict(seen_next);
                    assert(txns.map() == before.insert(key, new_txn));
                    assert forall|k: i64| pv.dom().contains(k) <==> tr.dom().contains(k) by {
                        if k != key {
                            assert(pv.dom().contains(k) == pb.dom().contains(k));
                        }
                    }
                    assert forall|k: i64| pv.dom().contains(k) implies pv[k] == tr[k] by {
                        if k != key {
                            assert(pv[k] == pb[k]);
                        }
                    }
                    assert(pv =~= tr);
                }
            } else {
                assert(!target.dom().contains(key));
                assert(pending_view(txns.map()) =~= target.restrict(seen_next));
            }
            i = i + 1;
        }
        proof {
            assert(Set::new(|k: i64| exists|j: int| 0 <= j < n && keys[j] == k) =~= target.dom().union(Set::new(|k: i64| exists|j: int| 0 <= j < n && keys[j] == k)));
            assert(target.restrict(Set::new(|k: i64| exists|j: int| 0 <= j < n && keys[j] == k)) =~= target);
        }
        self.pending_txs = txns;
        Ok(())
    }
}

/// Copies a list of addresses.
fn clone_addresses(v: &Vec<Address>) -> (res: Vec<Address>)
    ensures
        res@.map_values(|a: Address| a@) == v@.map_values(|a: Address| a@),
{
    let mut out: Vec<Address> = Vec::new();
    let mut i: usize = 0;
    while i < v.len()
        invariant
            i <= v@.len(),
            out@.len() == i,
            out@.map_values(|a: Address| a@) == v@.subrange(0, i as int).map_values(|a: Address| a@),
        decreases v@.len() - i,
    {
        let ghost before = out@;
        let c = v[i].clone();
        out.push(c);
        proof {
            let lhs = out@.map_values(|a: Address| a@);
            let rhs = v@.subrange(0, i + 1).map_values(|a: Address| a@);
            let prev = before.map_values(|a: Address| a@);
            let prev_r = v@.subrange(0, i as int).map_values(|a: Address| a@);
            assert forall|j: int| 0 <= j < i + 1 implies #[trigger] lhs[j] == rhs[j] by {
                if j < i {
                    assert(out@[j] == before[j]);
                    assert(prev[j] == prev_r[j]);
                }
            }
            assert(lhs =~= rhs);
        }
        i = i + 1;
    }
    assert(v@.subrange(0, v@.len() as int) =~= v@);
    out
}

/// A list of addresses without `a` holds no `a`.
proof fn lemma_without_excludes(s: Seq<Seq<u8>>, a: Seq<u8>)
    ensures
        !without(s, a).contains(a),
    decreases s.len(),
{
    if s.len() > 0 {
        lemma_without_excludes(s.drop_last(), a);
        if s.last() != a {
            vstd::seq_lib::lemma_seq_contains_after_push(without(s.drop_last(), a), s.last(), a);
        }
    }
}

/// Removing `a` from a list that holds none changes nothing.
proof fn lemma_without_absent(s: Seq<Seq<u8>>, a: Seq<u8>)
    requires
        !s.contains(a),
    ensures
        without(s, a) == s,
    decreases s.len(),
{
    if s.len() > 0 {
        assert(!s.drop_last().contains(a)) by {
            if s.drop_last().contains(a) {
                let j = choose|j: int| 0 <= j < s.drop_last().len() && s.drop_last()[j] == a;
                assert(s[j] == a);
            }
        }
        lemma_without_absent(s.drop_last(), a);
        assert(s.last() != a) by {
            assert(s[s.len() - 1] == s.last());
        }
        assert(s.drop_last().push(s.last()) =~= s);
    }
}

/// After an approver's approvals are purged, no pending transaction lists that approver,
/// and purging the same approver again changes nothing.
pub proof fn lemma_purge_removes_approver(m: Map<i64, (Seq<u8>, i128, u64, Seq<u8>, Seq<Seq<u8>>)>, a: Seq<u8>)
    ensures
        forall|k: i64| #[trigger] purged(m, a).dom().contains(k) ==> !purged(m, a)[k].4.contains(a),
        purged(purged(m, a), a) == purged(m, a),
{
    let p = purged(m, a);
    assert forall|k: i64| #[trigger] p.dom().contains(k) implies !p[k].4.contains(a) by {
        lemma_without_excludes(m[k].4, a);
    }
    assert forall|k: i64| p.dom().contains(k) implies #[trigger] without(p[k].4, a) == p[k].4 by {
        lemma_without_excludes(m[k].4, a);
        lemma_without_absent(p[k].4, a);
    }
    assert(purged(p, a) =~= p);
}

/// A non-negative lock stays between zero and the initial balance, and never grows as time
/// passes.
pub proof fn lemma_amount_locked_bounded_and_decreasing(initial_balance: int, unlock_duration: int, e1: int, e2: int)
    requires
        initial_balance >= 0,
        e1 <= e2,
    ensures
        0 <= amount_locked_spec(initial_balance, unlock_duration, e1) <= initial_balance,
        amount_locked_spec(initial_balance, unlock_duration, e2) <= amount_locked_spec(initial_balance, unlock_duration, e1),
{
    lemma_locked_bounds(initial_balance, unlock_duration, e1);
    lemma_locked_bounds(initial_balance, unlock_duration, e2);
    if e2 < unlock_duration && e1 > 0 {
        let d = unlock_duration;
        let n1 = initial_balance * (d - e1);
        let n2 = initial_balance * (d - e2);
        assert(n2 <= n1) by (nonlinear_arith)
            requires
                initial_balance >= 0,
                e1 <= e2,
                n1 == initial_balance * (d - e1),
                n2 == initial_balance * (d - e2),
        ;
        vstd::arithmetic::div_mod::lemma_div_is_ordered(-n1, -n2, d);
    }
}

proof fn lemma_locked_bounds(initial_balance: int, unlock_duration: int, e: int)
    requires
        initial_balance >= 0,
    ensures
        0 <= amount_locked_spec(initial_balance, unlock_duration, e) <= initial_balance,
{
    if e < unlock_duration && e > 0 {
        let d = unlock_duration;
        let n = initial_balance * (d - e);
        assert(0 <= n <= initial_balance * d) by (nonlinear_arith)
            requires
                initial_balance >= 0,
                0 < d - e < d,
                n == initial_balance * (d - e),
        ;
        lemma_ceil_nonneg(n, d);
        vstd::arithmetic::div_mod::lemma_div_is_ordered(n + d - 1, initial_balance * d + d - 1, d);
        assert(initial_balance * d + d - 1 == initial_balance * d + (d - 1));
        vstd::arithmetic::div_mod::lemma_fundamental_div_mod_converse(initial_balance * d + d - 1, d, initial_balance, d - 1);
        assert(0 <= (n + d - 1) / d) by (nonlinear_arith)
            requires
                n >= 0,
                d > 0,
        ;
    }
}

} // verus!
