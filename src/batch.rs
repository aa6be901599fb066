use vstd::prelude::*;

verus! {

/// Where a batch stands: how many transactions it holds, how many of them were
/// confirmed, in order from the first, and which one failed, if one did.
pub struct BatchView {
    pub total: nat,
    pub completed: nat,
    pub failed: Option<nat>,
}

pub open spec fn batch_start(total: nat) -> BatchView {
    BatchView { total, completed: 0, failed: None }
}

/// The index of the transaction to submit next; none once all are confirmed
/// or one has failed.
pub open spec fn batch_next(v: BatchView) -> Option<nat> {
    if v.failed is None && v.completed < v.total {
        Some(v.completed)
    } else {
        None
    }
}

/// The batch after the transaction `batch_next` named was confirmed or failed.
pub open spec fn batch_step(v: BatchView, confirmed: bool) -> BatchView {
    if batch_next(v) is None {
        v
    } else if confirmed {
        BatchView { completed: v.completed + 1, ..v }
    } else {
        BatchView { failed: Some(v.completed), ..v }
    }
}

/// The batch after the results of its submissions, in order.
pub open spec fn batch_run(v: BatchView, results: Seq<bool>) -> BatchView
    decreases results.len(),
{
    if results.len() == 0 {
        v
    } else {
        batch_run(batch_step(v, results[0]), results.drop_first())
    }
}

/// What a finished or stopped batch reports: the number of transactions that
/// were confirmed (indices `0..completed`), and the index of the one that
/// failed, if any. Transactions after a failure were never submitted.
#[derive(Clone, Copy, Debug, PartialEq, Eq)]
pub struct BatchOutcome {
    pub completed: usize,
    pub failed: Option<usize>,
}

/// Drives a batch of transactions one at a time, in index order: each must be
/// confirmed before the next is submitted, and the first failure stops the
/// batch. Confirmed transactions are not undone.
pub struct BatchSubmission {
    total: usize,
    completed: usize,
    failed: Option<usize>,
}

impl View for BatchSubmission {
    type V = BatchView;

    closed spec fn view(&self) -> BatchView {
        BatchView {
            total: self.total as nat,
            completed: self.completed as nat,
            failed: match self.failed {
                Some(i) => Some(i as nat),
                None => None,
            },
        }
    }
}

impl BatchSubmission {
    pub closed spec fn wf(&self) -> bool {
        &&& self.completed <= self.total
        &&& self.failed matches Some(i) ==> i == self.completed && i < self.total
    }

    pub fn new(total: usize) -> (r: Self)
        ensures
            r.wf(),
            r@ == batch_start(total as nat),
    {
        BatchSubmission { total, completed: 0, failed: None }
    }

    /// The index of the transaction to submit next, if any.
    pub fn next_index(&self) -> (r: Option<usize>)
        requires
            self.wf(),
        ensures
            r is None <==> batch_next(self@) is None,
            r matches Some(i) ==> batch_next(self@) == Some(i as nat),
    {
        if self.failed.is_none() && self.completed < self.total {
            Some(self.completed)
        } else {
            None
        }
    }

    /// Takes in whether the transaction `next_index` named was confirmed.
    pub fn record_result(&mut self, confirmed: bool)
        requires
            old(self).wf(),
        ensures
            final(self).wf(),
            final(self)@ == batch_step(old(self)@, confirmed),
    {
        if self.failed.is_none() && self.completed < self.total {
            if confirmed {
                self.completed = self.completed + 1;
            } else {
                self.failed = Some(self.completed);
            }
        }
    }

    pub fn outcome(&self) -> (r: BatchOutcome)
        ensures
            r.completed == self@.completed,
            r.failed is None <==> self@.failed is None,
            r.failed matches Some(i) ==> self@.failed == Some(i as nat),
    {
        BatchOutcome { completed: self.completed, failed: self.failed }
    }
}

proof fn lemma_run_confirmed_prefix(v: BatchView, results: Seq<bool>, k: nat)
    requires
        v.failed is None,
        v.completed + k <= v.total,
        k <= results.len(),
        forall|i: int| 0 <= i < k ==> #[trigger] results[i],
    ensures
        batch_run(v, results) == batch_run(
            BatchView { completed: v.completed + k, ..v },
            results.skip(k as int),
        ),
    decreases k,
{
    if k == 0 {
        assert(results.skip(0) == results);
        assert(BatchView { completed: v.completed + k, ..v } == v);
    } else {
        let rest = results.drop_first();
        assert forall|i: int| 0 <= i < k - 1 implies #[trigger] rest[i] by {
            assert(rest[i] == results[i + 1]);
        }
        lemma_run_confirmed_prefix(BatchView { completed: v.completed + 1, ..v }, rest, (k - 1) as nat);
        assert(rest.skip(k - 1) == results.skip(k as int));
    }
}

proof fn lemma_run_after_stop(v: BatchView, results: Seq<bool>)
    requires
        batch_next(v) is None,
    ensures
        batch_run(v, results) == v,
    decreases results.len(),
{
    if results.len() > 0 {
        lemma_run_after_stop(v, results.drop_first());
    }
}

/// A batch whose transactions `0..k` are confirmed and whose transaction `k`
/// fails reports `k` confirmed and `k` failed, and submits nothing after `k`,
/// whatever results would follow.
pub proof fn lemma_batch_stops_at_first_failure(total: nat, results: Seq<bool>, k: nat)
    requires
        k < total,
        k < results.len(),
        forall|i: int| 0 <= i < k ==> #[trigger] results[i],
        !results[k as int],
    ensures
        batch_run(batch_start(total), results) == (BatchView {
            total,
            completed: k,
            failed: Some(k),
        }),
        batch_next(batch_run(batch_start(total), results)) is None,
{
    lemma_run_confirmed_prefix(batch_start(total), results, k);
    let vk = BatchView { total, completed: k, failed: None };
    let rest = results.skip(k as int);
    assert(!rest[0]);
    let stopped = BatchView { total, completed: k, failed: Some(k) };
    assert(batch_step(vk, rest[0]) == stopped);
    lemma_run_after_stop(stopped, rest.drop_first());
}

/// A batch whose transactions are all confirmed reports every one of them and
/// no failure.
pub proof fn lemma_batch_all_confirmed(total: nat, results: Seq<bool>)
    requires
        total <= results.len(),
        forall|i: int| 0 <= i < total ==> #[trigger] results[i],
    ensures
        batch_run(batch_start(total), results) == (BatchView {
            total,
            completed: total,
            failed: None,
        }),
{
    lemma_run_confirmed_prefix(batch_start(total), results, total);
    lemma_run_after_stop(BatchView { total, completed: total, failed: None }, results.skip(total as int));
}

} // verus!
