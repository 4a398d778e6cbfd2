//! The outcome of a batch operation: how many items succeeded, and the index and exit code
//! of each item that failed, in order.

use vstd::prelude::*;

verus! {

/// The index and exit code of one failed item of a batch.
#[derive(Clone, Copy, Debug, PartialEq, Eq, Structural)]
pub struct FailCode {
    pub idx: u32,
    pub code: u32,
}

/// Outcome of a batch: the number of successes and the failures, by increasing index.
#[derive(Debug)]
pub struct BatchReturn {
    pub success_count: u32,
    pub fail_codes: Vec<FailCode>,
}

/// The number of successes (zero codes) in a list of exit codes.
pub open spec fn count_ok(codes: Seq<u32>) -> nat
    decreases codes.len(),
{
    if codes.len() == 0 {
        0
    } else {
        count_ok(codes.drop_last()) + if codes.last() == 0 { 1nat } else { 0nat }
    }
}

/// The (index, code) pairs of the non-zero codes of a list, in order.
pub open spec fn fail_entries(codes: Seq<u32>) -> Seq<(u32, u32)>
    decreases codes.len(),
{
    if codes.len() == 0 {
        Seq::empty()
    } else if codes.last() != 0 {
        fail_entries(codes.drop_last()).push(((codes.len() - 1) as u32, codes.last()))
    } else {
        fail_entries(codes.drop_last())
    }
}

/// Failures as plain (index, code) pairs.
pub open spec fn fails_view(f: Seq<FailCode>) -> Seq<(u32, u32)> {
    f.map_values(|c: FailCode| (c.idx, c.code))
}

/// Whether `b` is the outcome of items with these exit codes (zero for success).
pub open spec fn records(b: BatchReturn, codes: Seq<u32>) -> bool {
    &&& b.success_count == count_ok(codes)
    &&& fails_view(b.fail_codes@) == fail_entries(codes)
}

proof fn lemma_count_and_fails(codes: Seq<u32>)
    ensures
        count_ok(codes) + fail_entries(codes).len() == codes.len(),
    decreases codes.len(),
{
    if codes.len() > 0 {
        lemma_count_and_fails(codes.drop_last());
    }
}

impl BatchReturn {
    /// The outcome of an empty batch.
    pub fn empty() -> (res: BatchReturn)
        ensures
            records(res, Seq::<u32>::empty()),
    {
        let res = BatchReturn { success_count: 0, fail_codes: Vec::new() };
        assert(fails_view(res.fail_codes@) =~= fail_entries(Seq::<u32>::empty()));
        res
    }

    /// The outcome of `n` items that all succeeded.
    pub fn ok(n: u32) -> (res: BatchReturn)
        ensures
            records(res, Seq::new(n as nat, |i: int| 0u32)),
    {
        let ghost zeros = Seq::new(n as nat, |i: int| 0u32);
        assert forall|k: nat| k <= n implies count_ok(#[trigger] zeros.take(k as int)) == k
            && fail_entries(zeros.take(k as int)) == Seq::<(u32, u32)>::empty() by {
            lemma_zeros(zeros, k);
        }
        assert(zeros.take(n as int) =~= zeros);
        let res = BatchReturn { success_count: n, fail_codes: Vec::new() };
        assert(fails_view(res.fail_codes@) =~= Seq::<(u32, u32)>::empty());
        res
    }

    /// The outcome of items with the given exit codes, zero meaning success.
    pub fn of(codes: &[u32]) -> (res: BatchReturn)
        requires
            codes@.len() <= u32::MAX,
        ensures
            records(res, codes@),
    {
        let mut success_count: u32 = 0;
        let mut fail_codes: Vec<FailCode> = Vec::new();
        let mut i: usize = 0;
        assert(codes@.subrange(0, 0) =~= Seq::<u32>::empty());
        assert(fails_view(fail_codes@) =~= Seq::<(u32, u32)>::empty());
        while i < codes.len()
            invariant
                codes@.len() <= u32::MAX,
                i <= codes@.len(),
                success_count == count_ok(codes@.subrange(0, i as int)),
                fails_view(fail_codes@) == fail_entries(codes@.subrange(0, i as int)),
            decreases codes@.len() - i,
        {
            let ghost prefix = codes@.subrange(0, i + 1);
            assert(prefix.drop_last() =~= codes@.subrange(0, i as int));
            proof {
                lemma_count_and_fails(prefix);
            }
            if codes[i] == 0 {
                success_count = success_count + 1;
            } else {
                fail_codes.push(FailCode { idx: i as u32, code: codes[i] });
                assert(fails_view(fail_codes@) =~= fail_entries(prefix));
            }
            i = i + 1;
        }
        assert(codes@.subrange(0, codes@.len() as int) =~= codes@);
        BatchReturn { success_count, fail_codes }
    }

    /// The number of items in the batch.
    pub fn size(&self) -> (res: usize)
        requires
            self.success_count + self.fail_codes@.len() <= usize::MAX,
        ensures
            res == self.success_count + self.fail_codes@.len(),
    {
        self.success_count as usize + self.fail_codes.len()
    }

    /// Whether every item succeeded.
    pub fn all_ok(&self) -> (res: bool)
        ensures
            res == (self.fail_codes@.len() == 0),
    {
        self.fail_codes.len() == 0
    }
}

proof fn lemma_zeros(zeros: Seq<u32>, k: nat)
    requires
        k <= zeros.len(),
        forall|i: int| 0 <= i < zeros.len() ==> zeros[i] == 0,
    ensures
        count_ok(zeros.take(k as int)) == k,
        fail_entries(zeros.take(k as int)) == Seq::<(u32, u32)>::empty(),
    decreases k,
{
    if k > 0 {
        assert(zeros.take(k as int).drop_last() =~= zeros.take(k - 1));
        lemma_zeros(zeros, (k - 1) as nat);
    }
}

/// A batch outcome accounts for every item: its successes and failures add up to the
/// number of items.
pub proof fn lemma_batch_accounts_for_every_item(b: BatchReturn, codes: Seq<u32>)
    requires
        records(b, codes),
    ensures
        b.success_count + b.fail_codes@.len() == codes.len(),
{
    lemma_count_and_fails(codes);
}

} // verus!
