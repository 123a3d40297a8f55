//! A priority queue of download jobs: jobs of higher rank come out first.

use vstd::prelude::*;
use vstd::multiset::Multiset;
use vstd::seq_lib::group_to_multiset_ensures;
use crate::types::download_job::DownloadJob;

verus! {

/// A priority queue of download jobs. `pop` yields a job of highest rank
/// (see [`DownloadJob::rank`]): the largest file first, or the smallest first
/// for jobs that sort in reverse.
pub struct JobQueue {
    /// Held in ascending rank; the next job to come out is the last.
    jobs: Vec<DownloadJob>,
}

/// `s` is in ascending rank.
pub open spec fn ascending_rank(s: Seq<DownloadJob>) -> bool {
    forall|i: int, j: int| 0 <= i < j < s.len() ==> s[i].rank() <= s[j].rank()
}

/// `s` is in descending rank.
pub open spec fn descending_rank(s: Seq<DownloadJob>) -> bool {
    forall|i: int, j: int| 0 <= i < j < s.len() ==> s[i].rank() >= s[j].rank()
}

impl JobQueue {
    /// The queue is well formed: its jobs are held in ascending rank.
    pub closed spec fn wf(&self) -> bool {
        ascending_rank(self.jobs@)
    }

    /// The jobs in the queue, in the order in which `pop` yields them.
    pub closed spec fn drain_order(&self) -> Seq<DownloadJob> {
        self.jobs@.reverse()
    }

    /// The jobs in the queue.
    pub open spec fn items(&self) -> Multiset<DownloadJob> {
        self.drain_order().to_multiset()
    }

    /// An empty queue.
    pub fn new() -> (q: JobQueue)
        ensures
            q.wf(),
            q.drain_order() == Seq::<DownloadJob>::empty(),
            q.items() == Multiset::<DownloadJob>::empty(),
    {
        let q = JobQueue { jobs: Vec::new() };
        assert(q.drain_order() =~= Seq::<DownloadJob>::empty());
        proof {
            broadcast use group_to_multiset_ensures;
            assert(q.items() =~= Multiset::<DownloadJob>::empty());
        }
        q
    }

    /// The number of jobs in the queue.
    pub fn len(&self) -> (n: usize)
        ensures
            n == self.drain_order().len(),
            n == self.items().len(),
    {
        broadcast use group_to_multiset_ensures;

        self.jobs.len()
    }

    /// Whether the queue holds no job.
    pub fn is_empty(&self) -> (r: bool)
        ensures
            r == (self.items().len() == 0),
            r == (self.drain_order().len() == 0),
    {
        broadcast use group_to_multiset_ensures;

        self.jobs.len() == 0
    }

    /// The job that `pop` would yield next, if any.
    pub fn peek(&self) -> (r: Option<&DownloadJob>)
        ensures
            self.drain_order().len() == 0 ==> r is None,
            self.drain_order().len() > 0 ==> (r matches Some(j) && *j == self.drain_order()[0]),
    {
        if self.jobs.len() == 0 {
            None
        } else {
            Some(&self.jobs[self.jobs.len() - 1])
        }
    }

    /// Adds a job. It comes out after every queued job of higher rank and
    /// before every queued job of lower rank.
    pub fn push(&mut self, job: DownloadJob)
        requires
            old(self).wf(),
        ensures
            final(self).wf(),
            final(self).items() == old(self).items().insert(job),
            exists|p: int|
                0 <= p <= old(self).drain_order().len() && final(self).drain_order()
                    == old(self).drain_order().insert(p, job),
    {
        let ghost before = self.jobs@;
        let mut jobs: Vec<DownloadJob> = Vec::new();
        std::mem::swap(&mut jobs, &mut self.jobs);
        let mut p: usize = 0;
        while p < jobs.len() && !jobs[p].outranks(&job)
            invariant
                jobs@ == before,
                ascending_rank(before),
                p <= jobs.len(),
                forall|i: int| 0 <= i < p ==> before[i].rank() <= job.rank(),
            decreases jobs.len() - p,
        {
            p = p + 1;
        }
        jobs.insert(p, job);
        proof {
            let after = before.insert(p as int, job);
            assert(jobs@ == after);
            assert forall|i: int, j: int| 0 <= i < j < after.len() implies after[i].rank()
                <= after[j].rank() by {
                if j < p {
                } else if j == p {
                } else if i < p {
                    assert(before[p as int].rank() > job.rank());
                } else if i == p {
                    assert(before[p as int].rank() > job.rank());
                } else {
                }
            }
            let n: int = before.len() as int;
            assert(after.reverse() =~= before.reverse().insert(n - p, job));
            broadcast use group_to_multiset_ensures;
            before.lemma_reverse_to_multiset();
            after.lemma_reverse_to_multiset();
            assert(after.to_multiset() == before.to_multiset().insert(job));
        }
        self.jobs = jobs;
        assert(self.drain_order() == old(self).drain_order().insert(
            old(self).drain_order().len() - p,
            job,
        ));
    }

    /// Removes and returns the next job: one of highest rank.
    pub fn pop(&mut self) -> (r: Option<DownloadJob>)
        requires
            old(self).wf(),
        ensures
            final(self).wf(),
            old(self).drain_order().len() == 0 ==> r is None && final(self).drain_order()
                == old(self).drain_order(),
            old(self).drain_order().len() > 0 ==> r == Some(old(self).drain_order()[0])
                && final(self).drain_order() == old(self).drain_order().drop_first(),
            r matches Some(j) ==> old(self).items().count(j) > 0 && final(self).items() == old(
                self,
            ).items().remove(j) && forall|k: DownloadJob|
                old(self).items().count(k) > 0 ==> k.rank() <= j.rank(),
    {
        let ghost before = self.jobs@;
        let mut jobs: Vec<DownloadJob> = Vec::new();
        std::mem::swap(&mut jobs, &mut self.jobs);
        let r = jobs.pop();
        proof {
            if before.len() > 0 {
                let n: int = before.len() as int;
                assert(jobs@ =~= before.drop_last());
                assert(before.drop_last().reverse() =~= before.reverse().drop_first());
                assert(before.reverse()[0] == before[n - 1]);
                broadcast use group_to_multiset_ensures;
                before.lemma_reverse_to_multiset();
                jobs@.lemma_reverse_to_multiset();
                assert(before.drop_last() =~= before.remove(n - 1));
                let j = before[n - 1];
                assert(before.contains(j));
                assert forall|k: DownloadJob| before.reverse().to_multiset().count(k) > 0 implies k.rank()
                    <= j.rank() by {
                    assert(before.contains(k));
                    let i = choose|i: int| 0 <= i < n && before[i] == k;
                    assert(i == n - 1 || before[i].rank() <= before[n - 1].rank());
                }
            }
        }
        self.jobs = jobs;
        r
    }
}

/// A queue yields exactly the jobs it holds, in descending rank: the largest
/// file first; for jobs that sort in reverse, the smallest first.
pub proof fn law_drain_in_rank_order(q: JobQueue)
    requires
        q.wf(),
    ensures
        q.drain_order().to_multiset() == q.items(),
        descending_rank(q.drain_order()),
        (forall|i: int| 0 <= i < q.drain_order().len() ==> #[trigger] q.drain_order()[i].reverse)
            ==> forall|i: int, j: int|
            0 <= i < j < q.drain_order().len() ==> q.drain_order()[i].size
                <= q.drain_order()[j].size,
        (forall|i: int| 0 <= i < q.drain_order().len() ==> !#[trigger] q.drain_order()[i].reverse)
            ==> forall|i: int, j: int|
            0 <= i < j < q.drain_order().len() ==> q.drain_order()[i].size
                >= q.drain_order()[j].size,
{
    let d = q.drain_order();
    let n: nat = q.jobs@.len();
    assert forall|i: int, j: int| 0 <= i < j < d.len() implies d[i].rank() >= d[j].rank() by {
        assert(d[i] == q.jobs@[n - 1 - i]);
        assert(d[j] == q.jobs@[n - 1 - j]);
    }
    assert forall|i: int, j: int| 0 <= i < j < d.len() implies (d[i].reverse && d[j].reverse
        ==> d[i].size <= d[j].size) && (!d[i].reverse && !d[j].reverse ==> d[i].size
        >= d[j].size) by {
        assert(d[i].rank() >= d[j].rank());
    }
}

} // verus!
