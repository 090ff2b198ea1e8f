//! Queue of batched jobs per file, for processors that take all jobs of a file at once.
//!
//! The executor decides which batches start; the caller spawns the batches that
//! [`BatchQueueExecutor::take_started`] hands out and delivers the messages that
//! [`BatchQueueExecutor::take_control_messages`] hands out.
use vstd::prelude::*;

use crate::model::FileId;
use crate::scheduling::job_control::{broadcast_msg, push_broadcast, remove_running};

pub use crate::scheduling::job_control::{JobControlMsg, JobError, JobId};

verus! {

/// A waiting or started batch: its id, its file, and its jobs in order.
pub type Batch<J> = (JobId, FileId, Seq<J>);

/// The abstract state of a [`BatchQueueExecutor`].
pub ghost struct BatchQueueState<J> {
    pub max_running: nat,
    pub max_queued: nat,
    pub queue: Seq<Batch<J>>,
    pub accepting_new: bool,
    pub running: Seq<JobId>,
    pub next_job_id: nat,
    /// Batches started and not yet handed to the caller.
    pub started: Seq<Batch<J>>,
    /// Control messages not yet handed to the caller.
    pub control_out: Seq<(JobId, JobControlMsg)>,
}

/// Index of the last waiting batch of file `f`, or -1.
pub open spec fn last_file_batch<J>(q: Seq<Batch<J>>, f: FileId) -> int
    decreases q.len(),
{
    if q.len() == 0 {
        -1
    } else if q.last().1 == f {
        q.len() - 1
    } else {
        last_file_batch(q.drop_last(), f)
    }
}

/// The invariant of the executor's state.
pub open spec fn batch_queue_wf<J>(s: BatchQueueState<J>) -> bool {
    &&& s.max_running > 0
    &&& s.max_queued > 0
    &&& s.running.len() <= s.max_running
    &&& s.queue.len() <= s.max_queued
    &&& s.running.no_duplicates()
    &&& forall|i: int| 0 <= i < s.running.len() ==> (#[trigger] s.running[i]).0 <= s.next_job_id
    &&& forall|i: int| 0 <= i < s.queue.len() ==> (#[trigger] s.queue[i]).0.0 <= s.next_job_id
    &&& forall|i: int, j: int|
        0 <= i < s.queue.len() && 0 <= j < s.queue.len() && i != j ==> (#[trigger] s.queue[i]).0
            != (#[trigger] s.queue[j]).0
    &&& forall|i: int, k: int|
        0 <= i < s.queue.len() && 0 <= k < s.running.len() ==> (#[trigger] s.queue[i]).0
            != #[trigger] s.running[k]
}

/// State after `enqueue_job(f, job)`, and its result.
pub open spec fn batch_enqueue_spec<J>(s: BatchQueueState<J>, f: FileId, job: J) -> (BatchQueueState<J>, Result<JobId, J>) {
    let k = last_file_batch(s.queue, f);
    let id = JobId((s.next_job_id + 1) as u64);
    if k >= 0 {
        let b = s.queue[k];
        (BatchQueueState { queue: s.queue.update(k, (b.0, b.1, b.2.push(job))), ..s }, Ok(b.0))
    } else if s.accepting_new && s.running.len() < s.max_running {
        (
            BatchQueueState {
                next_job_id: s.next_job_id + 1,
                running: s.running.push(id),
                started: s.started.push((id, f, seq![job])),
                ..s
            },
            Ok(id),
        )
    } else if s.queue.len() < s.max_queued {
        (
            BatchQueueState {
                next_job_id: s.next_job_id + 1,
                queue: s.queue.push((id, f, seq![job])),
                ..s
            },
            Ok(id),
        )
    } else {
        (s, Err(job))
    }
}

/// Whether `try_dequeue` starts another batch in state `s`.
pub open spec fn batch_can_dequeue<J>(s: BatchQueueState<J>) -> bool {
    s.accepting_new && s.running.len() < s.max_running && s.queue.len() > 0
}

/// State after `try_dequeue`: the oldest batches start while new jobs are accepted and
/// fewer than `max_running` run.
pub open spec fn batch_dequeue_spec<J>(s: BatchQueueState<J>) -> BatchQueueState<J>
    decreases s.max_running - s.running.len(),
{
    if batch_can_dequeue(s) {
        batch_dequeue_spec(
            BatchQueueState {
                queue: s.queue.drop_first(),
                running: s.running.push(s.queue[0].0),
                started: s.started.push(s.queue[0]),
                ..s
            },
        )
    } else {
        s
    }
}

/// State after `pause_all`.
pub open spec fn batch_pause_spec<J>(s: BatchQueueState<J>) -> BatchQueueState<J> {
    BatchQueueState {
        accepting_new: false,
        control_out: s.control_out + broadcast_msg(s.running, JobControlMsg::Pause),
        ..s
    }
}

/// State after `resume_all`.
pub open spec fn batch_resume_spec<J>(s: BatchQueueState<J>) -> BatchQueueState<J> {
    BatchQueueState {
        accepting_new: true,
        control_out: s.control_out + broadcast_msg(s.running, JobControlMsg::Resume),
        ..s
    }
}

/// State after `cancel_all`.
pub open spec fn batch_cancel_spec<J>(s: BatchQueueState<J>) -> BatchQueueState<J> {
    BatchQueueState {
        accepting_new: false,
        control_out: s.control_out + broadcast_msg(s.running, JobControlMsg::Cancel),
        ..s
    }
}

/// A batch of jobs for one file that the executor started.
#[derive(Debug)]
pub struct StartedBatch<J> {
    pub job_id: JobId,
    pub file_id: FileId,
    pub jobs: Vec<J>,
}

pub open spec fn batch_view<J>(b: (JobId, FileId, Vec<J>)) -> Batch<J> {
    (b.0, b.1, b.2@)
}

pub open spec fn started_view<J>(b: StartedBatch<J>) -> Batch<J> {
    (b.job_id, b.file_id, b.jobs@)
}

/// Executor of batches: at most `max_running` batches run at once and at most `max_queued`
/// wait; jobs for a file that already waits join that file's batch.
pub struct BatchQueueExecutor<J> {
    max_running: usize,
    max_queued: usize,
    queue: Vec<(JobId, FileId, Vec<J>)>,
    accepting_new: bool,
    running_jobs: Vec<JobId>,
    next_job_id: u64,
    started: Vec<StartedBatch<J>>,
    control_out: Vec<(JobId, JobControlMsg)>,
}

impl<J> View for BatchQueueExecutor<J> {
    type V = BatchQueueState<J>;

    closed spec fn view(&self) -> BatchQueueState<J> {
        BatchQueueState {
            max_running: self.max_running as nat,
            max_queued: self.max_queued as nat,
            queue: self.queue@.map_values(|b: (JobId, FileId, Vec<J>)| batch_view(b)),
            accepting_new: self.accepting_new,
            running: self.running_jobs@,
            next_job_id: self.next_job_id as nat,
            started: self.started@.map_values(|b: StartedBatch<J>| started_view(b)),
            control_out: self.control_out@,
        }
    }
}

proof fn lemma_last_file_batch<J>(q: Seq<Batch<J>>, f: FileId, i: int)
    requires
        -1 <= i < q.len(),
        i >= 0 ==> q[i].1 == f,
        forall|k: int| i < k < q.len() ==> (#[trigger] q[k]).1 != f,
    ensures
        last_file_batch(q, f) == i,
    decreases q.len(),
{
    if q.len() > 0 && i != q.len() - 1 {
        assert(q.last().1 != f);
        lemma_last_file_batch(q.drop_last(), f, i);
    }
}

impl<J> BatchQueueExecutor<J> {
    /// An executor that accepts jobs and runs none.
    pub fn new(max_running: usize, max_queued: usize) -> (e: Self)
        requires
            max_running > 0,
            max_queued > 0,
        ensures
            batch_queue_wf(e@),
            e@ == (BatchQueueState::<J> {
                max_running: max_running as nat,
                max_queued: max_queued as nat,
                queue: Seq::empty(),
                accepting_new: true,
                running: Seq::empty(),
                next_job_id: 0,
                started: Seq::empty(),
                control_out: Seq::empty(),
            }),
    {
        let e = BatchQueueExecutor {
            max_running,
            max_queued,
            queue: Vec::new(),
            accepting_new: true,
            running_jobs: Vec::new(),
            next_job_id: 0,
            started: Vec::new(),
            control_out: Vec::new(),
        };
        proof {
            assert(e@.queue =~= Seq::<Batch<J>>::empty());
            assert(e@.started =~= Seq::<Batch<J>>::empty());
        }
        e
    }

    fn new_job_id(&mut self) -> (id: JobId)
        requires
            old(self)@.next_job_id < u64::MAX,
        ensures
            id.0 == old(self)@.next_job_id + 1,
            final(self)@ == (BatchQueueState { next_job_id: id.0 as nat, ..old(self)@ }),
    {
        self.next_job_id = self.next_job_id + 1;
        JobId(self.next_job_id)
    }

    fn start_job(&mut self, job_id: JobId, file_id: FileId, jobs: Vec<J>)
        requires
            old(self)@.running.len() < old(self)@.max_running,
        ensures
            final(self)@ == (BatchQueueState {
                running: old(self)@.running.push(job_id),
                started: old(self)@.started.push((job_id, file_id, jobs@)),
                ..old(self)@
            }),
    {
        let ghost s = self@;
        self.running_jobs.push(job_id);
        self.started.push(StartedBatch { job_id, file_id, jobs });
        proof {
            assert(self@.started =~= s.started.push((job_id, file_id, jobs@)));
        }
    }

    /// Adds a job for `file_id`: to the last waiting batch of that file (returning that
    /// batch's id), else to a new batch that starts at once when new jobs are accepted and
    /// fewer than `max_running` run, else to a new waiting batch when fewer than
    /// `max_queued` wait; otherwise the job is handed back.
    pub fn enqueue_job(&mut self, file_id: FileId, job: J) -> (r: Result<JobId, J>)
        requires
            batch_queue_wf(old(self)@),
            old(self)@.next_job_id < u64::MAX,
        ensures
            batch_queue_wf(final(self)@),
            (final(self)@, r) == batch_enqueue_spec(old(self)@, file_id, job),
    {
        let ghost s = self@;
        let mut i = self.queue.len();
        let mut found = false;
        while i > 0 && !found
            invariant
                i <= self@.queue.len(),
                self@ == s,
                found ==> i > 0 && self@.queue[i - 1].1 == file_id,
                forall|k: int| i <= k < self@.queue.len() ==> (#[trigger] self@.queue[k]).1
                    != file_id,
            decreases i + (if found { 0int } else { 1int }),
        {
            if self.queue[i - 1].1 == file_id {
                found = true;
            } else {
                i = i - 1;
            }
        }
        if !found {
            i = 0;
        }
        proof {
            assert forall|k: int| i - 1 < k < s.queue.len() implies (#[trigger] s.queue[k]).1
                != file_id by {
                if k >= i {
                    assert(self@.queue[k].1 != file_id);
                }
            }
            lemma_last_file_batch(s.queue, file_id, i - 1);
        }
        if i > 0 {
            let k = i - 1;
            let (id, f, mut jobs) = self.queue.remove(k);
            jobs.push(job);
            self.queue.insert(k, (id, f, jobs));
            proof {
                let b = s.queue[k as int];
                assert(self@.queue =~= s.queue.update(k as int, (b.0, b.1, b.2.push(job))));
                let t = self@;
                assert forall|a: int, c: int|
                    0 <= a < t.queue.len() && 0 <= c < t.queue.len() && a != c implies (#[trigger] t.queue[a]).0
                    != (#[trigger] t.queue[c]).0 by {
                    assert(t.queue[a].0 == s.queue[a].0);
                    assert(t.queue[c].0 == s.queue[c].0);
                }
                assert forall|a: int, c: int|
                    0 <= a < t.queue.len() && 0 <= c < t.running.len() implies (#[trigger] t.queue[a]).0
                    != #[trigger] t.running[c] by {
                    assert(t.queue[a].0 == s.queue[a].0);
                }
                assert forall|a: int| 0 <= a < t.queue.len() implies (#[trigger] t.queue[a]).0.0
                    <= t.next_job_id by {
                    assert(t.queue[a].0 == s.queue[a].0);
                }
            }
            Ok(id)
        } else if self.accepting_new && self.running_jobs.len() < self.max_running {
            let job_id = self.new_job_id();
            let mut jobs: Vec<J> = Vec::new();
            jobs.push(job);
            proof {
                assert(jobs@ =~= seq![job]);
            }
            self.start_job(job_id, file_id, jobs);
            Ok(job_id)
        } else if self.queue.len() < self.max_queued {
            let job_id = self.new_job_id();
            let mut jobs: Vec<J> = Vec::new();
            jobs.push(job);
            self.queue.push((job_id, file_id, jobs));
            proof {
                assert(jobs@ =~= seq![job]);
                assert(self@.queue =~= s.queue.push((job_id, file_id, seq![job])));
            }
            Ok(job_id)
        } else {
            Err(job)
        }
    }

    /// Starts the oldest waiting batches while new jobs are accepted and fewer than
    /// `max_running` run.
    pub fn try_dequeue(&mut self)
        requires
            batch_queue_wf(old(self)@),
        ensures
            batch_queue_wf(final(self)@),
            final(self)@ == batch_dequeue_spec(old(self)@),
    {
        let ghost target = batch_dequeue_spec(self@);
        while self.accepting_new && self.running_jobs.len() < self.max_running && self.queue.len()
            > 0
            invariant
                batch_queue_wf(self@),
                batch_dequeue_spec(self@) == target,
            decreases self@.max_running - self@.running.len(),
        {
            let ghost s = self@;
            let (job_id, file_id, jobs) = self.queue.remove(0);
            proof {
                assert(self@.queue =~= s.queue.drop_first());
                assert((job_id, file_id, jobs@) == s.queue[0]);
            }
            self.start_job(job_id, file_id, jobs);
            proof {
                let t = self@;
                assert forall|a: int, b: int|
                    0 <= a < t.running.len() && 0 <= b < t.running.len() && a != b implies t.running[a]
                    != t.running[b] by {
                    if a == t.running.len() - 1 || b == t.running.len() - 1 {
                        assert(s.queue[0].0 == job_id);
                    }
                }
                assert forall|i: int, k: int|
                    0 <= i < t.queue.len() && 0 <= k < t.running.len() implies (#[trigger] t.queue[i]).0
                    != #[trigger] t.running[k] by {
                    assert(t.queue[i] == s.queue[i + 1]);
                }
                assert forall|i: int, j: int|
                    0 <= i < t.queue.len() && 0 <= j < t.queue.len() && i != j implies (#[trigger] t.queue[i]).0
                    != (#[trigger] t.queue[j]).0 by {
                    assert(t.queue[i] == s.queue[i + 1]);
                    assert(t.queue[j] == s.queue[j + 1]);
                }
                assert forall|i: int| 0 <= i < t.queue.len() implies (#[trigger] t.queue[i]).0.0
                    <= t.next_job_id by {
                    assert(t.queue[i] == s.queue[i + 1]);
                }
            }
        }
    }

    /// Stops accepting new batches and asks every running batch to pause.
    pub fn pause_all(&mut self)
        requires
            batch_queue_wf(old(self)@),
        ensures
            batch_queue_wf(final(self)@),
            final(self)@ == batch_pause_spec(old(self)@),
    {
        self.accepting_new = false;
        push_broadcast(&mut self.control_out, &self.running_jobs, JobControlMsg::Pause);
    }

    /// Accepts new batches again and asks every running batch to resume.
    pub fn resume_all(&mut self)
        requires
            batch_queue_wf(old(self)@),
        ensures
            batch_queue_wf(final(self)@),
            final(self)@ == batch_resume_spec(old(self)@),
    {
        self.accepting_new = true;
        push_broadcast(&mut self.control_out, &self.running_jobs, JobControlMsg::Resume);
    }

    /// Stops accepting new batches and asks every running batch to cancel.
    pub fn cancel_all(&mut self)
        requires
            batch_queue_wf(old(self)@),
        ensures
            batch_queue_wf(final(self)@),
            final(self)@ == batch_cancel_spec(old(self)@),
    {
        self.accepting_new = false;
        push_broadcast(&mut self.control_out, &self.running_jobs, JobControlMsg::Cancel);
    }

    /// Records that a batch finished (an unknown id changes nothing) and starts waiting
    /// batches.
    pub fn on_job_finished(&mut self, job_id: JobId)
        requires
            batch_queue_wf(old(self)@),
        ensures
            batch_queue_wf(final(self)@),
            final(self)@ == batch_dequeue_spec(
                BatchQueueState { running: old(self)@.running.remove_value(job_id), ..old(self)@ },
            ),
    {
        let ghost s = self@;
        let mut present = false;
        let mut i: usize = 0;
        while i < self.running_jobs.len()
            invariant
                i <= self@.running.len(),
                self@ == s,
                present ==> s.running.contains(job_id),
                !present ==> forall|k: int| 0 <= k < i ==> s.running[k] != job_id,
            decreases self@.running.len() - i,
        {
            if self.running_jobs[i] == job_id {
                present = true;
            }
            i = i + 1;
        }
        if present {
            remove_running(&mut self.running_jobs, job_id);
            proof {
                let t = self@;
                s.running.index_of_first_ensures(job_id);
                let k = s.running.index_of_first(job_id).unwrap();
                assert(t.running == s.running.remove(k));
                assert forall|a: int, b: int|
                    0 <= a < t.running.len() && 0 <= b < t.running.len() && a != b implies t.running[a]
                    != t.running[b] by {
                    let a2 = if a < k { a } else { a + 1 };
                    let b2 = if b < k { b } else { b + 1 };
                    assert(t.running[a] == s.running[a2]);
                    assert(t.running[b] == s.running[b2]);
                }
                assert forall|a: int| 0 <= a < t.running.len() implies (#[trigger] t.running[a]).0
                    <= t.next_job_id by {
                    let a2 = if a < k { a } else { a + 1 };
                    assert(t.running[a] == s.running[a2]);
                }
                assert forall|q: int, a: int|
                    0 <= q < t.queue.len() && 0 <= a < t.running.len() implies (#[trigger] t.queue[q]).0
                    != #[trigger] t.running[a] by {
                    let a2 = if a < k { a } else { a + 1 };
                    assert(t.running[a] == s.running[a2]);
                }
            }
        } else {
            proof {
                s.running.index_of_first_ensures(job_id);
                assert(s.running.remove_value(job_id) == s.running);
            }
        }
        self.try_dequeue();
    }

    /// Number of waiting batches.
    pub fn queued(&self) -> (n: usize)
        ensures
            n == self@.queue.len(),
    {
        self.queue.len()
    }

    /// Hands out the batches started since the last call, in the order they started.
    pub fn take_started(&mut self) -> (batches: Vec<StartedBatch<J>>)
        ensures
            batches@.map_values(|b: StartedBatch<J>| started_view(b)) == old(self)@.started,
            final(self)@ == (BatchQueueState { started: Seq::empty(), ..old(self)@ }),
    {
        let mut out: Vec<StartedBatch<J>> = Vec::new();
        std::mem::swap(&mut out, &mut self.started);
        proof {
            assert(self@.started =~= Seq::<Batch<J>>::empty());
        }
        out
    }

    /// Hands out the control messages for running batches produced since the last call.
    pub fn take_control_messages(&mut self) -> (msgs: Vec<(JobId, JobControlMsg)>)
        ensures
            msgs@ == old(self)@.control_out,
            final(self)@ == (BatchQueueState { control_out: Seq::empty(), ..old(self)@ }),
    {
        let mut out: Vec<(JobId, JobControlMsg)> = Vec::new();
        std::mem::swap(&mut out, &mut self.control_out);
        proof {
            assert(self@.control_out =~= Seq::<(JobId, JobControlMsg)>::empty());
        }
        out
    }
}

/// A job for a file that already waits always joins that file's last batch, whatever the
/// executor's load; a job is handed back only when no batch of its file waits, no new batch
/// may start, and the queue is full.
pub proof fn lemma_batch_enqueue_joins_or_refuses<J>(s: BatchQueueState<J>, f: FileId, job: J)
    requires
        batch_queue_wf(s),
    ensures
        ({
            let (t, r) = batch_enqueue_spec(s, f, job);
            let k = last_file_batch(s.queue, f);
            &&& k >= 0 ==> r == Ok::<JobId, J>(s.queue[k].0) && t.queue[k].2.last() == job
                && t.queue.len() == s.queue.len()
            &&& r is Err <==> (k < 0 && !(s.accepting_new && s.running.len() < s.max_running)
                && s.queue.len() >= s.max_queued)
            &&& r is Err ==> t == s
        }),
{
    lemma_last_file_batch_range(s.queue, f);
}

proof fn lemma_last_file_batch_range<J>(q: Seq<Batch<J>>, f: FileId)
    ensures
        -1 <= last_file_batch(q, f) < q.len(),
    decreases q.len(),
{
    if q.len() > 0 && q.last().1 != f {
        lemma_last_file_batch_range(q.drop_last(), f);
    }
}

} // verus!
