//! One reconciliation cycle: which merge requests to process, and the
//! bounded fan-out that processes them.

use vstd::prelude::*;
use crate::cache::{snapshot_current, Cache};
use crate::snapshot::FullMergeRequest;
use crate::types::MergeRequest;

verus! {

/// Seconds between two cycles.
pub const POLL_INTERVAL_SECS: u64 = 300;

/// How many merge requests are processed at the same time.
pub const MAX_IN_FLIGHT: usize = 5;

/// "Changed since its snapshot in `snapshots` was taken".
pub open spec fn changed_in(snapshots: Map<u64, FullMergeRequest>) -> spec_fn(MergeRequest) -> bool {
    |mr: MergeRequest| !snapshot_current(snapshots, mr)
}

/// The merge requests of `mrs` that changed since their snapshot was
/// stored in `cache`, in order; the others are skipped.
pub fn select_changed(cache: &Cache, mrs: Vec<MergeRequest>) -> (r: Vec<MergeRequest>)
    ensures
        r@ == mrs@.filter(changed_in(cache.snapshots())),
{
    let ghost all = mrs@;
    let mut out: Vec<MergeRequest> = Vec::new();
    for mr in it: mrs.into_iter()
        invariant
            it.seq() == all,
            out@ == all.subrange(0, it.index() as int).filter(changed_in(cache.snapshots())),
    {
        let ghost i = it.index();
        let ghost sub = all.subrange(0, i + 1);
        assert(sub.drop_last() =~= all.subrange(0, i as int));
        assert(sub.last() == mr);
        proof {
            reveal(Seq::filter);
        }
        if cache.merge_request_changed(&mr) {
            out.push(mr);
        }
    }
    assert(all.subrange(0, all.len() as int) =~= all);
    out
}

/// Once a snapshot of a merge request is stored, the merge request counts
/// as unchanged for as long as its `updated_at` stays the same.
pub proof fn lemma_stored_snapshot_is_current(
    snapshots: Map<u64, FullMergeRequest>,
    full: FullMergeRequest,
    mr: MergeRequest,
)
    requires
        full.request.id == mr.id,
        full.request.updated_at == mr.updated_at,
    ensures
        snapshot_current(snapshots.insert(full.request.id, full), mr),
{
}

/// A cycle over merge requests that all have a current snapshot processes
/// none of them: nothing is fetched again.
pub proof fn lemma_unchanged_cycle_is_empty(snapshots: Map<u64, FullMergeRequest>, mrs: Seq<MergeRequest>)
    requires
        forall|i: int| 0 <= i < mrs.len() ==> snapshot_current(snapshots, #[trigger] mrs[i]),
    ensures
        mrs.filter(changed_in(snapshots)) == Seq::<MergeRequest>::empty(),
    decreases mrs.len(),
{
    reveal(Seq::filter);
    if mrs.len() > 0 {
        let t = mrs.drop_last();
        assert forall|i: int| 0 <= i < t.len() implies snapshot_current(snapshots, #[trigger] t[i]) by {
            assert(t[i] == mrs[i]);
        }
        lemma_unchanged_cycle_is_empty(snapshots, t);
        assert(snapshot_current(snapshots, mrs[mrs.len() - 1]));
    }
}

// Bounded fan-out.

/// Where the processing of one merge request stands.
#[derive(Clone, Copy, Debug, PartialEq, Eq)]
pub enum Outcome {
    Waiting,
    Running,
    Succeeded,
    Failed,
}

/// How many entries of `s` are `Running`.
pub open spec fn running_count(s: Seq<Outcome>) -> nat
    decreases s.len(),
{
    if s.len() == 0 {
        0
    } else {
        running_count(s.drop_last()) + if s.last() == Outcome::Running { 1nat } else { 0nat }
    }
}

proof fn lemma_running_count_update(s: Seq<Outcome>, i: int, x: Outcome)
    requires
        0 <= i < s.len(),
    ensures
        running_count(s.update(i, x)) + (if s[i] == Outcome::Running { 1nat } else { 0nat })
            == running_count(s) + (if x == Outcome::Running { 1nat } else { 0nat }),
    decreases s.len(),
{
    let u = s.update(i, x);
    if i < s.len() - 1 {
        assert(u.drop_last() =~= s.drop_last().update(i, x));
        lemma_running_count_update(s.drop_last(), i, x);
    } else {
        assert(u.drop_last() =~= s.drop_last());
    }
}

proof fn lemma_none_running(s: Seq<Outcome>)
    ensures
        running_count(s) == 0 <==> forall|i: int| 0 <= i < s.len() ==> #[trigger] s[i] != Outcome::Running,
    decreases s.len(),
{
    if s.len() > 0 {
        let t = s.drop_last();
        lemma_none_running(t);
        assert forall|i: int| 0 <= i < t.len() implies #[trigger] t[i] == s[i] by {}
        if running_count(s) == 0 {
            assert forall|i: int| 0 <= i < s.len() implies #[trigger] s[i] != Outcome::Running by {
                if i < t.len() {
                    assert(t[i] == s[i]);
                }
            }
        } else if forall|i: int| 0 <= i < s.len() ==> #[trigger] s[i] != Outcome::Running {
            assert(s.last() != Outcome::Running);
            assert forall|i: int| 0 <= i < t.len() implies #[trigger] t[i] != Outcome::Running by {
                assert(t[i] == s[i]);
            }
        }
    }
}

/// Processing of `n` items, at most `limit` at a time, started in order;
/// each item ends on its own, in success or failure.
pub struct FanOut {
    outcomes: Vec<Outcome>,
    next: usize,
    running: usize,
    limit: usize,
}

impl FanOut {
    /// Where each item stands.
    pub closed spec fn outcomes(&self) -> Seq<Outcome> {
        self.outcomes@
    }

    /// The most items processed at a time.
    pub closed spec fn limit(&self) -> nat {
        self.limit as nat
    }

    /// Items before this position were started; the others wait.
    pub closed spec fn started(&self) -> nat {
        self.next as nat
    }

    pub closed spec fn wf(&self) -> bool {
        &&& self.next <= self.outcomes@.len()
        &&& forall|i: int| 0 <= i < self.outcomes@.len() ==> ((#[trigger] self.outcomes@[i] == Outcome::Waiting) <==> i >= self.next)
        &&& self.running as nat == running_count(self.outcomes@)
        &&& self.running <= self.limit
    }

    /// `n` waiting items, processed at most `limit` at a time.
    pub fn new(n: usize, limit: usize) -> (r: FanOut)
        ensures
            r.wf(),
            r.outcomes() == Seq::new(n as nat, |i: int| Outcome::Waiting),
            r.limit() == limit,
            r.started() == 0,
    {
        let mut outcomes: Vec<Outcome> = Vec::new();
        let mut i: usize = 0;
        while i < n
            invariant
                i <= n,
                outcomes@ == Seq::new(i as nat, |k: int| Outcome::Waiting),
                running_count(outcomes@) == 0,
            decreases n - i,
        {
            outcomes.push(Outcome::Waiting);
            assert(outcomes@.drop_last() =~= Seq::new(i as nat, |k: int| Outcome::Waiting));
            i = i + 1;
            assert(outcomes@ =~= Seq::new(i as nat, |k: int| Outcome::Waiting));
        }
        FanOut { outcomes, next: 0, running: 0, limit }
    }

    /// Starts the next waiting item if a slot is free, and returns it.
    pub fn start_next(&mut self) -> (r: Option<usize>)
        requires
            old(self).wf(),
        ensures
            final(self).wf(),
            final(self).limit() == old(self).limit(),
            r is Some <==> (running_count(old(self).outcomes()) < old(self).limit()
                && old(self).started() < old(self).outcomes().len()),
            r matches Some(i) ==> i == old(self).started() && final(self).outcomes() == old(self).outcomes().update(
                i as int,
                Outcome::Running,
            ) && final(self).started() == old(self).started() + 1,
            r is None ==> *final(self) == *old(self),
    {
        if self.running < self.limit && self.next < self.outcomes.len() {
            let i = self.next;
            let ghost before = self.outcomes@;
            proof {
                lemma_running_count_update(before, i as int, Outcome::Running);
            }
            self.outcomes.set(i, Outcome::Running);
            self.next = i + 1;
            self.running = self.running + 1;
            Some(i)
        } else {
            None
        }
    }

    /// Records how item `i` ended; the other items are not touched.
    pub fn finish(&mut self, i: usize, ok: bool)
        requires
            old(self).wf(),
            i < old(self).outcomes().len(),
            old(self).outcomes()[i as int] == Outcome::Running,
        ensures
            final(self).wf(),
            final(self).limit() == old(self).limit(),
            final(self).started() == old(self).started(),
            final(self).outcomes() == old(self).outcomes().update(
                i as int,
                if ok { Outcome::Succeeded } else { Outcome::Failed },
            ),
    {
        let x = if ok { Outcome::Succeeded } else { Outcome::Failed };
        let ghost before = self.outcomes@;
        proof {
            lemma_running_count_update(before, i as int, x);
        }
        self.outcomes.set(i, x);
        self.running = self.running - 1;
    }

    /// Where item `i` stands.
    pub fn outcome(&self, i: usize) -> (r: Outcome)
        requires
            i < self.outcomes().len(),
        ensures
            r == self.outcomes()[i as int],
    {
        self.outcomes[i]
    }

    /// True when every item was started and none is running, that is,
    /// when every item has succeeded or failed.
    pub fn is_complete(&self) -> (r: bool)
        requires
            self.wf(),
        ensures
            r == (self.started() == self.outcomes().len() && running_count(self.outcomes()) == 0),
            r == forall|i: int| 0 <= i < self.outcomes().len()
                ==> (#[trigger] self.outcomes()[i] == Outcome::Succeeded || self.outcomes()[i] == Outcome::Failed),
    {
        proof {
            lemma_none_running(self.outcomes@);
            if self.next < self.outcomes@.len() {
                assert(self.outcomes@[self.next as int] == Outcome::Waiting);
            }
        }
        self.next == self.outcomes.len() && self.running == 0
    }
}

/// A failing item leaves every other item where it stood and frees its
/// slot, so the items still waiting can start and the others run to
/// completion; no more than `limit` items ever run at once.
pub proof fn lemma_failure_is_isolated(f: FanOut, g: FanOut, i: int)
    requires
        f.wf(),
        0 <= i < f.outcomes().len(),
        f.outcomes()[i] == Outcome::Running,
        g.outcomes() == f.outcomes().update(i, Outcome::Failed),
    ensures
        forall|j: int| 0 <= j < f.outcomes().len() && j != i ==> g.outcomes()[j] == f.outcomes()[j],
        g.outcomes()[i] == Outcome::Failed,
        running_count(g.outcomes()) + 1 == running_count(f.outcomes()),
        running_count(g.outcomes()) < f.limit(),
        running_count(f.outcomes()) <= f.limit(),
{
    lemma_running_count_update(f.outcomes(), i, Outcome::Failed);
}

/// The fan-out never stalls: until every item has succeeded or failed,
/// either a waiting item can be started or some item is running and will
/// report back. So items whose processing succeeds run to completion
/// whatever happens to the others.
pub proof fn lemma_fan_out_progress(f: FanOut)
    requires
        f.wf(),
        f.limit() > 0,
    ensures
        (forall|i: int| 0 <= i < f.outcomes().len()
            ==> (#[trigger] f.outcomes()[i] == Outcome::Succeeded || f.outcomes()[i] == Outcome::Failed))
        || (running_count(f.outcomes()) < f.limit() && f.started() < f.outcomes().len())
        || exists|i: int| 0 <= i < f.outcomes().len() && #[trigger] f.outcomes()[i] == Outcome::Running,
{
    lemma_none_running(f.outcomes());
    if running_count(f.outcomes()) == 0 && f.started() < f.outcomes().len() {
        assert(running_count(f.outcomes()) < f.limit());
    }
}

} // verus!
