//! Queue of video packaging jobs.
//!
//! The processor decides which jobs start; the caller spawns the jobs that
//! [`VideoJobProcessor::take_started`] hands out and delivers the messages that
//! [`VideoJobProcessor::take_control_messages`] hands out.
use vstd::prelude::*;

use crate::scheduling::job_control::{
    broadcast_msg, push_broadcast, remove_running, JobControlMsg, JobId,
};

verus! {

/// The abstract state of a [`VideoJobProcessor`].
pub ghost struct VideoQueueState<J> {
    pub max_running: nat,
    pub max_queued: nat,
    pub queue: Seq<(JobId, J)>,
    pub accepting_new: bool,
    pub shut_down: bool,
    pub running: Seq<JobId>,
    pub next_job_id: nat,
    /// Jobs started and not yet handed to the caller.
    pub started: Seq<(JobId, J)>,
    /// Control messages not yet handed to the caller.
    pub control_out: Seq<(JobId, JobControlMsg)>,
}

/// The invariant of the processor's state.
pub open spec fn video_queue_wf<J>(s: VideoQueueState<J>) -> bool {
    &&& s.max_running > 0
    &&& s.max_queued > 0
    &&& s.running.len() <= s.max_running
    &&& s.queue.len() <= s.max_queued
    &&& s.running.no_duplicates()
    &&& forall|i: int| 0 <= i < s.running.len() ==> (#[trigger] s.running[i]).0 <= s.next_job_id
    &&& forall|i: int| 0 <= i < s.queue.len() ==> (#[trigger] s.queue[i]).0.0 <= s.next_job_id
    &&& forall|i: int, j: int|
        0 <= i < s.queue.len() && 0 <= j < s.queue.len() && i != j ==> (#[trigger] s.queue[i]).0
            != (#[trigger] s.queue[j]).0
    &&& forall|i: int, k: int|
        0 <= i < s.queue.len() && 0 <= k < s.running.len() ==> (#[trigger] s.queue[i]).0
            != #[trigger] s.running[k]
}

/// State after `enqueue_job(job)`, and its result.
pub open spec fn video_enqueue_spec<J>(s: VideoQueueState<J>, job: J) -> (VideoQueueState<J>, Result<JobId, J>) {
    if !s.accepting_new || s.queue.len() >= s.max_queued {
        (s, Err(job))
    } else {
        let id = JobId((s.next_job_id + 1) as u64);
        if s.running.len() < s.max_running {
            (
                VideoQueueState {
                    next_job_id: s.next_job_id + 1,
                    running: s.running.push(id),
                    started: s.started.push((id, job)),
                    ..s
                },
                Ok(id),
            )
        } else {
            (
                VideoQueueState { next_job_id: s.next_job_id + 1, queue: s.queue.push((id, job)), ..s },
                Ok(id),
            )
        }
    }
}

/// Whether `enqueue_job` starts the job at once in state `s`.
pub open spec fn video_enqueue_starts<J>(s: VideoQueueState<J>) -> bool {
    s.accepting_new && s.queue.len() < s.max_queued && s.running.len() < s.max_running
}

/// Whether `try_dequeue` starts another job in state `s`.
pub open spec fn video_can_dequeue<J>(s: VideoQueueState<J>) -> bool {
    s.accepting_new && s.running.len() < s.max_running && s.queue.len() > 0
}

/// State after `try_dequeue`: the oldest jobs start while new jobs are accepted and fewer
/// than `max_running` run.
pub open spec fn video_dequeue_spec<J>(s: VideoQueueState<J>) -> VideoQueueState<J>
    decreases s.max_running - s.running.len(),
{
    if video_can_dequeue(s) {
        video_dequeue_spec(
            VideoQueueState {
                queue: s.queue.drop_first(),
                running: s.running.push(s.queue[0].0),
                started: s.started.push(s.queue[0]),
                ..s
            },
        )
    } else {
        s
    }
}

/// State after `pause_all`.
pub open spec fn video_pause_spec<J>(s: VideoQueueState<J>) -> VideoQueueState<J> {
    VideoQueueState {
        accepting_new: false,
        control_out: s.control_out + broadcast_msg(s.running, JobControlMsg::Pause),
        ..s
    }
}

/// State after `resume_all`.
pub open spec fn video_resume_spec<J>(s: VideoQueueState<J>) -> VideoQueueState<J> {
    VideoQueueState {
        accepting_new: true,
        control_out: s.control_out + broadcast_msg(s.running, JobControlMsg::Resume),
        ..s
    }
}

/// State after `cancel_all`.
pub open spec fn video_cancel_spec<J>(s: VideoQueueState<J>) -> VideoQueueState<J> {
    VideoQueueState {
        accepting_new: false,
        control_out: s.control_out + broadcast_msg(s.running, JobControlMsg::Cancel),
        ..s
    }
}

/// Queue of video jobs: at most `max_running` run at once and at most `max_queued` wait.
pub struct VideoJobProcessor<J> {
    max_running: usize,
    max_queued: usize,
    queue: Vec<(JobId, J)>,
    accepting_new: bool,
    shut_down: bool,
    running_jobs: Vec<JobId>,
    next_job_id: u64,
    started: Vec<(JobId, J)>,
    control_out: Vec<(JobId, JobControlMsg)>,
}

impl<J> View for VideoJobProcessor<J> {
    type V = VideoQueueState<J>;

    closed spec fn view(&self) -> VideoQueueState<J> {
        VideoQueueState {
            max_running: self.max_running as nat,
            max_queued: self.max_queued as nat,
            queue: self.queue@,
            accepting_new: self.accepting_new,
            shut_down: self.shut_down,
            running: self.running_jobs@,
            next_job_id: self.next_job_id as nat,
            started: self.started@,
            control_out: self.control_out@,
        }
    }
}

impl<J> VideoJobProcessor<J> {
    /// A processor that accepts jobs and runs none.
    pub fn new(max_running: usize, max_queued: usize) -> (p: Self)
        requires
            max_running > 0,
            max_queued > 0,
        ensures
            video_queue_wf(p@),
            p@ == (VideoQueueState::<J> {
                max_running: max_running as nat,
                max_queued: max_queued as nat,
                queue: Seq::empty(),
                accepting_new: true,
                shut_down: false,
                running: Seq::empty(),
                next_job_id: 0,
                started: Seq::empty(),
                control_out: Seq::empty(),
            }),
    {
        VideoJobProcessor {
            max_running,
            max_queued,
            queue: Vec::new(),
            accepting_new: true,
            shut_down: false,
            running_jobs: Vec::new(),
            next_job_id: 0,
            started: Vec::new(),
            control_out: Vec::new(),
        }
    }

    fn new_job_id(&mut self) -> (id: JobId)
        requires
            old(self)@.next_job_id < u64::MAX,
        ensures
            id.0 == old(self)@.next_job_id + 1,
            final(self)@ == (VideoQueueState { next_job_id: id.0 as nat, ..old(self)@ }),
    {
        self.next_job_id = self.next_job_id + 1;
        JobId(self.next_job_id)
    }

    fn start_job(&mut self, job_id: JobId, job: J)
        requires
            old(self)@.running.len() < old(self)@.max_running,
            !old(self)@.shut_down,
        ensures
            final(self)@ == (VideoQueueState {
                running: old(self)@.running.push(job_id),
                started: old(self)@.started.push((job_id, job)),
                ..old(self)@
            }),
    {
        self.running_jobs.push(job_id);
        self.started.push((job_id, job));
    }

    /// Offers a job. It is refused (handed back) when new jobs are not accepted or
    /// `max_queued` jobs wait; otherwise it starts at once when fewer than `max_running`
    /// jobs run, or waits.
    pub fn enqueue_job(&mut self, job: J) -> (r: Result<JobId, J>)
        requires
            video_queue_wf(old(self)@),
            old(self)@.next_job_id < u64::MAX,
            old(self)@.shut_down ==> !video_enqueue_starts(old(self)@),
        ensures
            video_queue_wf(final(self)@),
            (final(self)@, r) == video_enqueue_spec(old(self)@, job),
    {
        if !self.accepting_new || self.queue.len() >= self.max_queued {
            return Err(job);
        }
        let job_id = self.new_job_id();
        if self.running_jobs.len() < self.max_running {
            self.start_job(job_id, job);
        } else {
            self.queue.push((job_id, job));
        }
        Ok(job_id)
    }

    /// Starts the oldest waiting jobs while new jobs are accepted and fewer than
    /// `max_running` run.
    pub fn try_dequeue(&mut self)
        requires
            video_queue_wf(old(self)@),
            old(self)@.shut_down ==> !video_can_dequeue(old(self)@),
        ensures
            video_queue_wf(final(self)@),
            final(self)@ == video_dequeue_spec(old(self)@),
    {
        let ghost target = video_dequeue_spec(self@);
        while self.accepting_new && self.running_jobs.len() < self.max_running && self.queue.len()
            > 0
            invariant
                video_queue_wf(self@),
                self@.shut_down ==> !video_can_dequeue(self@),
                video_dequeue_spec(self@) == target,
            decreases self@.max_running - self@.running.len(),
        {
            let ghost s = self@;
            let (job_id, job) = self.queue.remove(0);
            self.start_job(job_id, job);
            proof {
                let t = self@;
                assert(t.queue =~= s.queue.drop_first());
                assert forall|a: int, b: int|
                    0 <= a < t.running.len() && 0 <= b < t.running.len() && a != b implies t.running[a]
                    != t.running[b] by {
                    if a == t.running.len() - 1 || b == t.running.len() - 1 {
                        assert(s.queue[0].0 == job_id);
                    }
                }
                assert forall|i: int, k: int|
                    0 <= i < t.queue.len() && 0 <= k < t.running.len() implies (#[trigger] t.queue[i]).0
                    != #[trigger] t.running[k] by {
                    assert(t.queue[i] == s.queue[i + 1]);
                }
                assert forall|i: int, j: int|
                    0 <= i < t.queue.len() && 0 <= j < t.queue.len() && i != j implies (#[trigger] t.queue[i]).0
                    != (#[trigger] t.queue[j]).0 by {
                    assert(t.queue[i] == s.queue[i + 1]);
                    assert(t.queue[j] == s.queue[j + 1]);
                }
                assert forall|i: int| 0 <= i < t.queue.len() implies (#[trigger] t.queue[i]).0.0
                    <= t.next_job_id by {
                    assert(t.queue[i] == s.queue[i + 1]);
                }
            }
        }
    }

    /// Stops accepting new jobs and asks every running job to pause.
    pub fn pause_all(&mut self)
        requires
            video_queue_wf(old(self)@),
        ensures
            video_queue_wf(final(self)@),
            final(self)@ == video_pause_spec(old(self)@),
    {
        self.accepting_new = false;
        push_broadcast(&mut self.control_out, &self.running_jobs, JobControlMsg::Pause);
    }

    /// Accepts new jobs again and asks every running job to resume.
    pub fn resume_all(&mut self)
        requires
            video_queue_wf(old(self)@),
        ensures
            video_queue_wf(final(self)@),
            final(self)@ == video_resume_spec(old(self)@),
    {
        self.accepting_new = true;
        push_broadcast(&mut self.control_out, &self.running_jobs, JobControlMsg::Resume);
    }

    /// Stops accepting new jobs and asks every running job to cancel.
    pub fn cancel_all(&mut self)
        requires
            video_queue_wf(old(self)@),
        ensures
            video_queue_wf(final(self)@),
            final(self)@ == video_cancel_spec(old(self)@),
    {
        self.accepting_new = false;
        push_broadcast(&mut self.control_out, &self.running_jobs, JobControlMsg::Cancel);
    }

    /// Cancels all jobs; no job starts afterwards until the processor accepts jobs again.
    pub fn shutdown(&mut self)
        requires
            video_queue_wf(old(self)@),
        ensures
            video_queue_wf(final(self)@),
            final(self)@ == (VideoQueueState { shut_down: true, ..video_cancel_spec(old(self)@) }),
    {
        self.cancel_all();
        self.shut_down = true;
    }

    /// Records that a running job finished and starts waiting jobs.
    pub fn on_job_finished(&mut self, job_id: JobId)
        requires
            video_queue_wf(old(self)@),
            old(self)@.running.contains(job_id),
            old(self)@.shut_down ==> !video_can_dequeue(
                VideoQueueState { running: old(self)@.running.remove_value(job_id), ..old(self)@ },
            ),
        ensures
            video_queue_wf(final(self)@),
            final(self)@ == video_dequeue_spec(
                VideoQueueState { running: old(self)@.running.remove_value(job_id), ..old(self)@ },
            ),
    {
        let ghost s = self@;
        remove_running(&mut self.running_jobs, job_id);
        proof {
            let t = self@;
            s.running.index_of_first_ensures(job_id);
            let k = s.running.index_of_first(job_id).unwrap();
            assert(t.running == s.running.remove(k));
            assert forall|a: int, b: int|
                0 <= a < t.running.len() && 0 <= b < t.running.len() && a != b implies t.running[a]
                != t.running[b] by {
                let a2 = if a < k { a } else { a + 1 };
                let b2 = if b < k { b } else { b + 1 };
                assert(t.running[a] == s.running[a2]);
                assert(t.running[b] == s.running[b2]);
            }
            assert forall|a: int| 0 <= a < t.running.len() implies (#[trigger] t.running[a]).0
                <= t.next_job_id by {
                let a2 = if a < k { a } else { a + 1 };
                assert(t.running[a] == s.running[a2]);
            }
            assert forall|i: int, a: int|
                0 <= i < t.queue.len() && 0 <= a < t.running.len() implies (#[trigger] t.queue[i]).0
                != #[trigger] t.running[a] by {
                let a2 = if a < k { a } else { a + 1 };
                assert(t.running[a] == s.running[a2]);
            }
        }
        self.try_dequeue();
    }

    /// Number of waiting jobs.
    pub fn queued(&self) -> (n: usize)
        ensures
            n == self@.queue.len(),
    {
        self.queue.len()
    }

    /// Hands out the jobs started since the last call, in the order they started.
    pub fn take_started(&mut self) -> (jobs: Vec<(JobId, J)>)
        ensures
            jobs@ == old(self)@.started,
            final(self)@ == (VideoQueueState { started: Seq::empty(), ..old(self)@ }),
    {
        let mut out: Vec<(JobId, J)> = Vec::new();
        std::mem::swap(&mut out, &mut self.started);
        proof {
            assert(self@.started =~= Seq::<(JobId, J)>::empty());
        }
        out
    }

    /// Hands out the control messages for running jobs produced since the last call.
    pub fn take_control_messages(&mut self) -> (msgs: Vec<(JobId, JobControlMsg)>)
        ensures
            msgs@ == old(self)@.control_out,
            final(self)@ == (VideoQueueState { control_out: Seq::empty(), ..old(self)@ }),
    {
        let mut out: Vec<(JobId, JobControlMsg)> = Vec::new();
        std::mem::swap(&mut out, &mut self.control_out);
        proof {
            assert(self@.control_out =~= Seq::<(JobId, JobControlMsg)>::empty());
        }
        out
    }
}

/// Dequeueing moves jobs from the queue to the running set one for one, oldest first, and
/// stops only when new jobs are not accepted, `max_running` jobs run, or nothing waits.
pub proof fn lemma_video_dequeue_moves_jobs<J>(s: VideoQueueState<J>)
    requires
        video_queue_wf(s),
    ensures
        ({
            let t = video_dequeue_spec(s);
            let n = (t.running.len() - s.running.len()) as int;
            &&& 0 <= n <= s.queue.len()
            &&& t.queue.len() + t.running.len() == s.queue.len() + s.running.len()
            &&& t.queue == s.queue.subrange(n, s.queue.len() as int)
            &&& t.started == s.started + s.queue.subrange(0, n)
            &&& (!t.accepting_new || t.running.len() == t.max_running || t.queue.len() == 0)
        }),
    decreases s.max_running - s.running.len(),
{
    if video_can_dequeue(s) {
        let n = VideoQueueState {
            queue: s.queue.drop_first(),
            running: s.running.push(s.queue[0].0),
            started: s.started.push(s.queue[0]),
            ..s
        };
        assert(video_queue_wf(n)) by {
            assert forall|a: int, b: int|
                0 <= a < n.running.len() && 0 <= b < n.running.len() && a != b implies n.running[a]
                != n.running[b] by {
                if a == n.running.len() - 1 || b == n.running.len() - 1 {
                    assert(s.queue[0].0 == n.running[n.running.len() - 1]);
                }
            }
            assert forall|i: int, k: int|
                0 <= i < n.queue.len() && 0 <= k < n.running.len() implies (#[trigger] n.queue[i]).0
                != #[trigger] n.running[k] by {
                assert(n.queue[i] == s.queue[i + 1]);
            }
            assert forall|i: int, j: int|
                0 <= i < n.queue.len() && 0 <= j < n.queue.len() && i != j implies (#[trigger] n.queue[i]).0
                != (#[trigger] n.queue[j]).0 by {
                assert(n.queue[i] == s.queue[i + 1]);
                assert(n.queue[j] == s.queue[j + 1]);
            }
            assert forall|i: int| 0 <= i < n.queue.len() implies (#[trigger] n.queue[i]).0.0
                <= n.next_job_id by {
                assert(n.queue[i] == s.queue[i + 1]);
            }
        }
        lemma_video_dequeue_moves_jobs(n);
        let t = video_dequeue_spec(s);
        let k = (t.running.len() - s.running.len()) as int;
        let k1 = (t.running.len() - n.running.len()) as int;
        assert(k == k1 + 1);
        assert(t.queue == n.queue.subrange(k1, n.queue.len() as int));
        assert forall|i: int| 0 <= i < t.queue.len() implies t.queue[i] == s.queue.subrange(
            k,
            s.queue.len() as int,
        )[i] by {
            assert(t.queue[i] == n.queue[k1 + i]);
            assert(n.queue[k1 + i] == s.queue[k1 + i + 1]);
        }
        assert(t.queue =~= s.queue.subrange(k, s.queue.len() as int));
        assert(t.started == n.started + n.queue.subrange(0, k1));
        assert forall|i: int| 0 <= i < t.started.len() implies t.started[i] == (s.started
            + s.queue.subrange(0, k))[i] by {
            if i < s.started.len() {
            } else if i == s.started.len() {
            } else {
                assert(t.started[i] == n.queue.subrange(0, k1)[i - s.started.len() - 1]);
                assert(n.queue[i - s.started.len() - 1] == s.queue[i - s.started.len()]);
            }
        }
        assert(t.started =~= s.started + s.queue.subrange(0, k));
    } else {
        assert(s.queue =~= s.queue.subrange(0, s.queue.len() as int));
        assert(s.started =~= s.started + s.queue.subrange(0, 0));
    }
}

} // verus!
