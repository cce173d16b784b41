//! Admission of requests into the bounded work queue of the IDE server. The
//! queue keeps, for every admitted job, its size and its request identifiers,
//! and for every pending identifier whether it was cancelled; the requests
//! themselves travel alongside in the same order.

use vstd::prelude::*;
use std::collections::VecDeque;
use crate::rpc::{Id, IdView};

verus! {

/// Most jobs, and most pending identifiers, that the queue holds.
pub const MAX_PENDING: usize = 128;

/// Most request bytes that the queue holds.
pub const MAX_BYTES: usize = 4194304;

/// Largest batch that is admitted.
pub const MAX_BATCH: usize = 16;

/// One admitted request or batch.
pub struct QueuedJob {
    pub bytes: usize,
    pub ids: Vec<Id>,
}

/// The queue between the reader and the worker.
pub struct RequestQueue {
    jobs: VecDeque<QueuedJob>,
    pending: Vec<(Id, bool)>,
    bytes: usize,
    overflow: bool,
}

/// What happened to a request that arrived.
#[derive(Clone, Copy, Debug, PartialEq, Eq, Structural)]
pub enum Admission {
    /// An identifier is already pending or repeats in the batch: the
    /// connection must stop.
    Duplicate,
    /// Refused for its size or for a full queue; each request with an
    /// identifier is answered with a resource error.
    Rejected { oversized: bool },
    /// Queued for the worker.
    Admitted,
}

pub open spec fn ids_view(ids: Seq<Id>) -> Seq<IdView> {
    ids.map_values(|id: Id| id@)
}

pub open spec fn pending_view(pending: Seq<(Id, bool)>) -> Seq<(IdView, bool)> {
    pending.map_values(|p: (Id, bool)| (p.0@, p.1))
}

pub open spec fn is_pending(pending: Seq<(IdView, bool)>, id: IdView) -> bool {
    exists|i: int| 0 <= i < pending.len() && (#[trigger] pending[i]).0 == id
}

pub open spec fn distinct(ids: Seq<IdView>) -> bool {
    forall|i: int, j: int| 0 <= i < j < ids.len() ==> #[trigger] ids[i] != #[trigger] ids[j]
}

/// The sum of the sizes of the queued jobs.
pub open spec fn queued_bytes(jobs: Seq<QueuedJob>) -> nat
    decreases jobs.len(),
{
    if jobs.len() == 0 {
        0
    } else {
        queued_bytes(jobs.drop_last()) + jobs.last().bytes as nat
    }
}

/// The pending state after cancelling `cancels`: a pending identifier that
/// one of them names is marked, and nothing else changes.
pub open spec fn cancelled(pending: Seq<(IdView, bool)>, cancels: Seq<IdView>) -> Seq<(IdView, bool)> {
    pending.map_values(|p: (IdView, bool)| (p.0, p.1 || cancels.contains(p.0)))
}

impl RequestQueue {
    pub closed spec fn jobs_view(&self) -> Seq<QueuedJob> {
        self.jobs@
    }

    pub closed spec fn pending_spec(&self) -> Seq<(IdView, bool)> {
        pending_view(self.pending@)
    }

    pub closed spec fn bytes_spec(&self) -> nat {
        self.bytes as nat
    }

    pub closed spec fn overflow_spec(&self) -> bool {
        self.overflow
    }

    /// The queue is bounded and consistent: at most 128 jobs, 128 pending
    /// identifiers and 4 MiB of requests, no identifier pending twice, and
    /// the byte count equal to the sizes of the queued jobs.
    pub closed spec fn well_formed(&self) -> bool {
        &&& self.jobs@.len() <= MAX_PENDING
        &&& self.pending@.len() <= MAX_PENDING
        &&& self.bytes <= MAX_BYTES
        &&& self.bytes == queued_bytes(self.jobs@)
        &&& distinct(pending_view(self.pending@).map_values(|p: (IdView, bool)| p.0))
    }

    /// An empty queue.
    pub fn new() -> (queue: Self)
        ensures
            queue.well_formed(),
            queue.jobs_view().len() == 0,
            queue.pending_spec().len() == 0,
            queue.bytes_spec() == 0,
            !queue.overflow_spec(),
    {
        let queue = RequestQueue { jobs: VecDeque::new(), pending: Vec::new(), bytes: 0, overflow: false };
        assert(pending_view(queue.pending@).map_values(|p: (IdView, bool)| p.0) =~= Seq::<IdView>::empty());
        queue
    }
}

/// The pending entries whose identifiers are not in `ids`, in their order.
pub open spec fn without(pending: Seq<(IdView, bool)>, ids: Seq<IdView>) -> Seq<(IdView, bool)>
    decreases pending.len(),
{
    if pending.len() == 0 {
        Seq::empty()
    } else {
        let rest = without(pending.drop_last(), ids);
        if ids.contains(pending.last().0) {
            rest
        } else {
            rest.push(pending.last())
        }
    }
}

/// A batch is refused outright when an identifier is pending already or repeats in it.
pub open spec fn duplicate_ids(pending: Seq<(IdView, bool)>, ids: Seq<IdView>) -> bool {
    (exists|i: int| 0 <= i < ids.len() && is_pending(pending, #[trigger] ids[i])) || !distinct(ids)
}

/// A job for these identifiers and bytes does not fit the queue.
pub open spec fn queue_full(jobs: nat, pending: nat, queued: nat, ids: nat, bytes: nat) -> bool {
    jobs >= MAX_PENDING || pending + ids > MAX_PENDING || queued + bytes > MAX_BYTES
}

pub open spec fn fresh_entries(ids: Seq<IdView>) -> Seq<(IdView, bool)> {
    ids.map_values(|id: IdView| (id, false))
}

proof fn lemma_queued_bytes_front(jobs: Seq<QueuedJob>)
    requires
        jobs.len() > 0,
    ensures
        queued_bytes(jobs) == jobs[0].bytes + queued_bytes(jobs.drop_first()),
    decreases jobs.len(),
{
    if jobs.len() > 1 {
        lemma_queued_bytes_front(jobs.drop_last());
        assert(jobs.drop_last().drop_first() =~= jobs.drop_first().drop_last());
        assert(jobs.drop_last()[0] == jobs[0]);
    } else {
        assert(jobs.drop_first() =~= Seq::<QueuedJob>::empty());
        assert(jobs.drop_last() =~= Seq::<QueuedJob>::empty());
    }
}

fn contains_id(ids: &Vec<Id>, id: &Id) -> (r: bool)
    ensures
        r == ids_view(ids@).contains(id@),
{
    let mut i: usize = 0;
    while i < ids.len()
        invariant
            i <= ids@.len(),
            forall|j: int| 0 <= j < i ==> ids@[j]@ != id@,
        decreases ids.len() - i,
    {
        if ids[i].same(id) {
            assert(ids_view(ids@)[i as int] == id@);
            return true;
        }
        i = i + 1;
    }
    assert(!ids_view(ids@).contains(id@)) by {
        if ids_view(ids@).contains(id@) {
            let k = choose|k: int| 0 <= k < ids_view(ids@).len() && ids_view(ids@)[k] == id@;
            assert(ids@[k]@ == id@);
        }
    }
    false
}

impl RequestQueue {
    fn pending_has(&self, id: &Id) -> (r: bool)
        ensures
            r == is_pending(self.pending_spec(), id@),
    {
        let mut i: usize = 0;
        while i < self.pending.len()
            invariant
                i <= self.pending@.len(),
                forall|j: int| 0 <= j < i ==> self.pending@[j].0@ != id@,
            decreases self.pending.len() - i,
        {
            if self.pending[i].0.same(id) {
                assert(self.pending_spec()[i as int].0 == id@);
                return true;
            }
            i = i + 1;
        }
        assert(!is_pending(self.pending_spec(), id@)) by {
            if is_pending(self.pending_spec(), id@) {
                let k = choose|k: int| 0 <= k < self.pending_spec().len() && (#[trigger] self.pending_spec()[k]).0 == id@;
                assert(self.pending@[k].0@ == id@);
            }
        }
        false
    }

    /// Marks every pending identifier that one of `cancels` names.
    fn mark_cancellations(&mut self, cancels: &Vec<Id>)
        requires
            old(self).well_formed(),
        ensures
            final(self).well_formed(),
            final(self).pending_spec() == cancelled(old(self).pending_spec(), ids_view(cancels@)),
            final(self).jobs_view() == old(self).jobs_view(),
            final(self).bytes_spec() == old(self).bytes_spec(),
            final(self).overflow_spec() == old(self).overflow_spec(),
    {
        let ghost before = self.pending_spec();
        let mut i: usize = 0;
        while i < self.pending.len()
            invariant
                i <= self.pending@.len() == before.len(),
                self.jobs@ == old(self).jobs@,
                self.bytes == old(self).bytes,
                self.overflow == old(self).overflow,
                self.pending@.len() <= MAX_PENDING,
                forall|j: int| 0 <= j < i ==> #[trigger] self.pending_spec()[j] == cancelled(before, ids_view(cancels@))[j],
                forall|j: int| i <= j < before.len() ==> #[trigger] self.pending_spec()[j] == before[j],
            decreases self.pending.len() - i,
        {
            let hit = contains_id(cancels, &self.pending[i].0);
            let ghost old_pending = self.pending@;
            let ghost old_spec = self.pending_spec();
            if hit {
                let entry = self.pending.remove(i);
                self.pending.insert(i, (entry.0, true));
            }
            proof {
                assert(self.pending@.len() == old_pending.len());
                assert forall|j: int| 0 <= j < self.pending@.len() && j != i implies #[trigger] self.pending@[j] == old_pending[j] by {}
                assert(self.pending_spec()[i as int] == cancelled(before, ids_view(cancels@))[i as int]) by {
                    assert(old_spec[i as int] == before[i as int]);
                    assert(old_pending[i as int].0@ == before[i as int].0);
                }
                assert forall|j: int| 0 <= j < self.pending@.len() && j != i implies #[trigger] self.pending_spec()[j] == old_spec[j] by {
                    assert(self.pending@[j] == old_pending[j]);
                }
            }
            i = i + 1;
        }
        assert(self.pending_spec() =~= cancelled(before, ids_view(cancels@)));
        assert(self.pending_spec().map_values(|p: (IdView, bool)| p.0) =~= before.map_values(|p: (IdView, bool)| p.0));
    }
}

impl RequestQueue {
    /// Takes in a request or batch of `items` requests and `bytes` bytes whose
    /// requests carry the identifiers `ids`. `cancels` are the identifiers
    /// that the batch's cancel notifications name (none before the server is
    /// initialized); they take effect unless the batch is oversized, even
    /// when the queue is full. A full queue that misses a file-change
    /// notification records the overflow for the worker.
    pub fn enqueue(&mut self, ids: Vec<Id>, items: usize, bytes: usize, changes_files: bool, cancels: &Vec<Id>) -> (r: Admission)
        requires
            old(self).well_formed(),
        ensures
            final(self).well_formed(),
            ({
                let pending = old(self).pending_spec();
                let new_ids = ids_view(ids@);
                let full = queue_full(
                    old(self).jobs_view().len(),
                    pending.len(),
                    old(self).bytes_spec(),
                    new_ids.len(),
                    bytes as nat,
                );
                if duplicate_ids(pending, new_ids) {
                    &&& r == Admission::Duplicate
                    &&& final(self).pending_spec() == pending
                    &&& final(self).jobs_view() == old(self).jobs_view()
                    &&& final(self).bytes_spec() == old(self).bytes_spec()
                    &&& final(self).overflow_spec() == old(self).overflow_spec()
                } else if items > MAX_BATCH {
                    &&& r == (Admission::Rejected { oversized: true })
                    &&& final(self).pending_spec() == pending
                    &&& final(self).jobs_view() == old(self).jobs_view()
                    &&& final(self).bytes_spec() == old(self).bytes_spec()
                    &&& final(self).overflow_spec() == old(self).overflow_spec()
                } else if full {
                    &&& r == (Admission::Rejected { oversized: false })
                    &&& final(self).pending_spec() == cancelled(pending, ids_view(cancels@))
                    &&& final(self).jobs_view() == old(self).jobs_view()
                    &&& final(self).bytes_spec() == old(self).bytes_spec()
                    &&& final(self).overflow_spec() == (old(self).overflow_spec() || changes_files)
                } else {
                    &&& r == Admission::Admitted
                    &&& final(self).pending_spec() == cancelled(pending + fresh_entries(new_ids), ids_view(cancels@))
                    &&& final(self).jobs_view().len() == old(self).jobs_view().len() + 1
                    &&& final(self).jobs_view().drop_last() == old(self).jobs_view()
                    &&& final(self).jobs_view().last().bytes == bytes
                    &&& ids_view(final(self).jobs_view().last().ids@) == new_ids
                    &&& final(self).bytes_spec() == old(self).bytes_spec() + bytes
                    &&& final(self).overflow_spec() == old(self).overflow_spec()
                }
            }),
    {
        let ghost pending = self.pending_spec();
        let ghost new_ids = ids_view(ids@);
        let mut i: usize = 0;
        while i < ids.len()
            invariant
                i <= ids@.len(),
                new_ids == ids_view(ids@),
                *self == *old(self),
                self.well_formed(),
                pending == self.pending_spec(),
                forall|k: int| 0 <= k < i ==> !is_pending(pending, #[trigger] new_ids[k]),
                forall|k: int, l: int| 0 <= k < l < i ==> #[trigger] new_ids[k] != #[trigger] new_ids[l],
            decreases ids.len() - i,
        {
            if self.pending_has(&ids[i]) {
                assert(is_pending(pending, new_ids[i as int]));
                return Admission::Duplicate;
            }
            let mut j: usize = 0;
            while j < i
                invariant
                    j <= i < ids@.len(),
                    new_ids == ids_view(ids@),
                    *self == *old(self),
                    self.well_formed(),
                    forall|l: int| 0 <= l < j ==> new_ids[l] != new_ids[i as int],
                decreases i - j,
            {
                if ids[j].same(&ids[i]) {
                    assert(!distinct(new_ids)) by {
                        assert(new_ids[j as int] == new_ids[i as int]);
                    }
                    return Admission::Duplicate;
                }
                j = j + 1;
            }
            i = i + 1;
        }
        assert(!duplicate_ids(pending, new_ids));
        if items > MAX_BATCH {
            return Admission::Rejected { oversized: true };
        }
        let full = self.jobs.len() >= MAX_PENDING || ids.len() > MAX_PENDING - self.pending.len()
            || bytes > MAX_BYTES - self.bytes;
        self.mark_cancellations(cancels);
        if full {
            if changes_files {
                self.overflow = true;
            }
            return Admission::Rejected { oversized: false };
        }
        let ghost marked = self.pending_spec();
        let mut k: usize = 0;
        while k < ids.len()
            invariant
                k <= ids@.len(),
                new_ids == ids_view(ids@),
                self.pending@.len() == marked.len() + k,
                self.pending@.len() <= MAX_PENDING,
                marked.len() + ids@.len() <= MAX_PENDING,
                self.jobs@ == old(self).jobs@,
                self.bytes == old(self).bytes,
                self.overflow == old(self).overflow,
                self.pending_spec() == marked + fresh_entries(new_ids.subrange(0, k as int)),
            decreases ids.len() - k,
        {
            let id = ids[k].duplicate();
            let ghost prev = self.pending_spec();
            self.pending.push((id, false));
            proof {
                assert(self.pending_spec() =~= prev.push((new_ids[k as int], false)));
                assert(new_ids.subrange(0, k + 1) =~= new_ids.subrange(0, k as int).push(new_ids[k as int]));
                assert(fresh_entries(new_ids.subrange(0, k + 1)) =~= fresh_entries(new_ids.subrange(0, k as int)).push((new_ids[k as int], false)));
                assert(self.pending_spec() =~= marked + fresh_entries(new_ids.subrange(0, k + 1)));
            }
            k = k + 1;
        }
        assert(new_ids.subrange(0, ids@.len() as int) =~= new_ids);
        proof {
            let all = self.pending_spec().map_values(|p: (IdView, bool)| p.0);
            let old_ids = pending.map_values(|p: (IdView, bool)| p.0);
            assert(marked.map_values(|p: (IdView, bool)| p.0) =~= old_ids);
            assert(all =~= old_ids + new_ids);
            assert forall|a: int, b: int| 0 <= a < b < all.len() implies #[trigger] all[a] != #[trigger] all[b] by {
                if b >= old_ids.len() && a < old_ids.len() {
                    assert(!is_pending(pending, new_ids[b - old_ids.len()]));
                    assert(pending[a].0 == all[a]);
                }
            }
        }
        self.mark_cancellations(cancels);
        proof {
            assert(cancelled(cancelled(pending, ids_view(cancels@)) + fresh_entries(new_ids), ids_view(cancels@))
                =~= cancelled(pending + fresh_entries(new_ids), ids_view(cancels@)));
        }
        let ghost before_jobs = self.jobs@;
        self.bytes = self.bytes + bytes;
        self.jobs.push_back(QueuedJob { bytes, ids });
        proof {
            assert(self.jobs@.drop_last() =~= before_jobs);
        }
        Admission::Admitted
    }

    /// Hands the oldest job to the worker, with the overflow flag, which is cleared.
    pub fn take_job(&mut self) -> (r: (Option<QueuedJob>, bool))
        requires
            old(self).well_formed(),
        ensures
            final(self).well_formed(),
            r.1 == old(self).overflow_spec(),
            !final(self).overflow_spec(),
            final(self).pending_spec() == old(self).pending_spec(),
            old(self).jobs_view().len() == 0 ==> r.0 is None && final(self).jobs_view() == old(self).jobs_view()
                && final(self).bytes_spec() == old(self).bytes_spec(),
            old(self).jobs_view().len() > 0 ==> r.0 == Some(old(self).jobs_view()[0]) && final(self).jobs_view()
                == old(self).jobs_view().drop_first() && final(self).bytes_spec() == old(self).bytes_spec()
                - old(self).jobs_view()[0].bytes,
    {
        let overflow = self.overflow;
        self.overflow = false;
        if self.jobs.len() == 0 {
            return (None, overflow);
        }
        proof {
            lemma_queued_bytes_front(self.jobs@);
        }
        match self.jobs.pop_front() {
            Some(job) => {
                assert(self.jobs@ =~= old(self).jobs@.drop_first());
                self.bytes = self.bytes - job.bytes;
                (Some(job), overflow)
            },
            None => (None, overflow),
        }
    }

    /// Forgets the identifiers of responses that have been written.
    pub fn release(&mut self, ids: &Vec<Id>)
        requires
            old(self).well_formed(),
        ensures
            final(self).well_formed(),
            final(self).pending_spec() == without(old(self).pending_spec(), ids_view(ids@)),
            final(self).jobs_view() == old(self).jobs_view(),
            final(self).bytes_spec() == old(self).bytes_spec(),
            final(self).overflow_spec() == old(self).overflow_spec(),
    {
        let ghost before = self.pending_spec();
        let mut old_pending: Vec<(Id, bool)> = Vec::new();
        std::mem::swap(&mut old_pending, &mut self.pending);
        assert(pending_view(old_pending@) == before);
        let mut k: usize = 0;
        assert(before.subrange(0, 0) =~= Seq::<(IdView, bool)>::empty());
        while k < old_pending.len()
            invariant
                k <= old_pending@.len() == before.len() <= MAX_PENDING,
                before == pending_view(old_pending@),
                distinct(before.map_values(|p: (IdView, bool)| p.0)),
                self.jobs@ == old(self).jobs@,
                self.bytes == old(self).bytes,
                self.overflow == old(self).overflow,
                self.pending_spec() == without(before.subrange(0, k as int), ids_view(ids@)),
                self.pending@.len() <= k,
                forall|a: int| 0 <= a < self.pending@.len() ==> exists|b: int| 0 <= b < k && (#[trigger] self.pending_spec()[a]).0 == before[b].0,
                distinct(self.pending_spec().map_values(|p: (IdView, bool)| p.0)),
            decreases old_pending.len() - k,
        {
            let ghost prefix = before.subrange(0, k + 1);
            assert(prefix.drop_last() =~= before.subrange(0, k as int));
            let drop = contains_id(ids, &old_pending[k].0);
            if !drop {
                let ghost prev = self.pending_spec();
                let entry = (old_pending[k].0.duplicate(), old_pending[k].1);
                self.pending.push(entry);
                proof {
                    assert(self.pending_spec() =~= prev.push(before[k as int]));
                    let all = self.pending_spec().map_values(|p: (IdView, bool)| p.0);
                    assert forall|a: int, b: int| 0 <= a < b < all.len() implies #[trigger] all[a] != #[trigger] all[b] by {
                        if b == all.len() - 1 {
                            let c = choose|c: int| 0 <= c < k && prev[a].0 == before[c].0;
                            assert(before.map_values(|p: (IdView, bool)| p.0)[c] != before.map_values(|p: (IdView, bool)| p.0)[k as int]);
                        } else {
                            assert(prev.map_values(|p: (IdView, bool)| p.0)[a] == all[a]);
                            assert(prev.map_values(|p: (IdView, bool)| p.0)[b] == all[b]);
                        }
                    }
                    assert forall|a: int| 0 <= a < self.pending@.len() implies exists|b: int| 0 <= b < k + 1 && (#[trigger] self.pending_spec()[a]).0 == before[b].0 by {
                        if a == self.pending@.len() - 1 {
                            assert(self.pending_spec()[a].0 == before[k as int].0);
                        } else {
                            assert(self.pending_spec()[a] == prev[a]);
                        }
                    }
                }
            }
            k = k + 1;
        }
        assert(before.subrange(0, before.len() as int) =~= before);
    }

    /// Whether the pending request with this identifier was cancelled.
    pub fn is_cancelled(&self, id: &Id) -> (r: bool)
        ensures
            r == exists|i: int| 0 <= i < self.pending_spec().len() && (#[trigger] self.pending_spec()[i]).0 == id@
                && self.pending_spec()[i].1,
    {
        let mut i: usize = 0;
        while i < self.pending.len()
            invariant
                i <= self.pending@.len(),
                forall|j: int| 0 <= j < i ==> !(self.pending@[j].0@ == id@ && self.pending@[j].1),
            decreases self.pending.len() - i,
        {
            if self.pending[i].1 && self.pending[i].0.same(id) {
                assert(self.pending_spec()[i as int].0 == id@);
                return true;
            }
            i = i + 1;
        }
        assert forall|j: int| 0 <= j < self.pending_spec().len() && (#[trigger] self.pending_spec()[j]).0 == id@ implies !self.pending_spec()[j].1 by {
            assert(self.pending_spec()[j] == (self.pending@[j].0@, self.pending@[j].1));
        }
        false
    }
}

impl RequestQueue {
    /// Every queue that the operations above produce is bounded: at most 128
    /// jobs, at most 128 pending identifiers, none of them twice, and at most
    /// 4 MiB of queued requests, which is exactly what the queued jobs hold.
    pub proof fn lemma_queue_bounded(&self)
        requires
            self.well_formed(),
        ensures
            self.jobs_view().len() <= MAX_PENDING,
            self.pending_spec().len() <= MAX_PENDING,
            self.bytes_spec() <= MAX_BYTES,
            self.bytes_spec() == queued_bytes(self.jobs_view()),
            forall|i: int, j: int|
                0 <= i < j < self.pending_spec().len() ==> (#[trigger] self.pending_spec()[i]).0
                    != (#[trigger] self.pending_spec()[j]).0,
    {
        let ids = self.pending_spec().map_values(|p: (IdView, bool)| p.0);
        assert forall|i: int, j: int|
            0 <= i < j < self.pending_spec().len() implies (#[trigger] self.pending_spec()[i]).0
                != (#[trigger] self.pending_spec()[j]).0 by {
            assert(ids[i] == self.pending_spec()[i].0 && ids[j] == self.pending_spec()[j].0);
        }
    }
}

/// How an admission is answered. A refused batch answers each of its
/// requests with a `resource_limit` error that names what ran out, the
/// batch or the queue, and its limit: the largest batch, or the most
/// pending requests. A duplicate stops the connection and an admitted batch
/// is answered later, so neither is answered here.
pub fn refusal_reply(admission: Admission) -> (reply: Option<(&'static str, &'static str, usize)>)
    ensures
        match admission {
            Admission::Rejected { oversized } => reply matches Some((kind, resource, limit)) && kind@
                == "resource_limit"@ && resource@ == (if oversized {
                "batch"@
            } else {
                "queue"@
            }) && limit == (if oversized {
                MAX_BATCH
            } else {
                MAX_PENDING
            }),
            _ => reply is None,
        },
{
    match admission {
        Admission::Rejected { oversized } => if oversized {
            Some(("resource_limit", "batch", MAX_BATCH))
        } else {
            Some(("resource_limit", "queue", MAX_PENDING))
        },
        _ => None,
    }
}

} // verus!
