//! Queue of image processing jobs, batched per file.
//!
//! The processor decides which jobs start; the caller spawns the jobs that
//! [`ImageJobProcessor::take_started`] hands out and delivers the messages that
//! [`ImageJobProcessor::take_control_messages`] hands out.
use vstd::prelude::*;

use crate::catalog::operation::ConvertImage;
use crate::catalog::package_video::PackageVideo;
use crate::model::{FileId, ThumbnailFormat, ThumbnailType};
use crate::scheduling::job_control::{
    broadcast_msg, push_broadcast, remove_running, JobControlMsg, JobId, StartedJob,
};

verus! {

/// A job of the image processor.
#[derive(Debug, Clone)]
pub enum ImageJob {
    /// Create thumbnails of each of the kinds in each of the formats.
    CreateThumbnail { thumbnail_types: Vec<ThumbnailType>, formats: Vec<ThumbnailFormat> },
    /// Compute the thumbhash of the file.
    CreateThumbhash,
    /// Convert the image to another representation.
    ConvertImage(ConvertImage),
    /// Package the video for streaming.
    PackageVideo(PackageVideo),
}

/// Queued batches: per file, the jobs waiting for it, oldest first.
pub type Batches<J> = Seq<(FileId, Seq<(JobId, J)>)>;

/// The abstract state of an [`ImageJobProcessor`].
pub ghost struct ImageQueueState<J> {
    pub max_running: nat,
    pub max_queued: nat,
    pub queue: Batches<J>,
    pub accepting_new: bool,
    pub shut_down: bool,
    pub running: Seq<JobId>,
    pub next_job_id: nat,
    /// Jobs started and not yet handed to the caller.
    pub started: Seq<StartedJob<J>>,
    /// Control messages not yet handed to the caller.
    pub control_out: Seq<(JobId, JobControlMsg)>,
}

/// Number of jobs waiting in `q`.
pub open spec fn queued_count<J>(q: Batches<J>) -> nat
    decreases q.len(),
{
    if q.len() == 0 {
        0
    } else {
        q[0].1.len() + queued_count(q.drop_first())
    }
}

/// Index of the last batch of file `f`, or -1.
pub open spec fn last_batch_index<J>(q: Batches<J>, f: FileId) -> int
    decreases q.len(),
{
    if q.len() == 0 {
        -1
    } else if q.last().0 == f {
        q.len() - 1
    } else {
        last_batch_index(q.drop_last(), f)
    }
}

/// Whether job id `id` waits in `q`.
pub open spec fn queued_job_id<J>(q: Batches<J>, id: JobId) -> bool {
    exists|i: int, j: int| 0 <= i < q.len() && 0 <= j < q[i].1.len() && (#[trigger] q[i].1[j]).0 == id
}

/// The invariant of the processor's state.
pub open spec fn image_queue_wf<J>(s: ImageQueueState<J>) -> bool {
    &&& s.max_running > 0
    &&& s.max_queued > 0
    &&& s.running.len() <= s.max_running
    &&& s.running.no_duplicates()
    &&& queued_count(s.queue) <= s.max_queued
    &&& forall|i: int| 0 <= i < s.queue.len() ==> (#[trigger] s.queue[i]).1.len() > 0
    &&& forall|i: int| 0 <= i < s.running.len() ==> (#[trigger] s.running[i]).0 <= s.next_job_id
    &&& forall|i: int, j: int|
        0 <= i < s.queue.len() && 0 <= j < s.queue[i].1.len() ==> (#[trigger] s.queue[i].1[j]).0.0
            <= s.next_job_id
    &&& queued_ids_distinct(s.queue)
    &&& forall|i: int, j: int, k: int|
        0 <= i < s.queue.len() && 0 <= j < s.queue[i].1.len() && 0 <= k < s.running.len()
            ==> (#[trigger] s.queue[i].1[j]).0 != #[trigger] s.running[k]
}

/// No job id waits twice.
pub open spec fn queued_ids_distinct<J>(q: Batches<J>) -> bool {
    forall|i1: int, j1: int, i2: int, j2: int|
        0 <= i1 < q.len() && 0 <= j1 < q[i1].1.len() && 0 <= i2 < q.len() && 0 <= j2 < q[i2].1.len()
            && (i1 != i2 || j1 != j2) ==> (#[trigger] q[i1].1[j1]).0 != (#[trigger] q[i2].1[j2]).0
}

/// State after `enqueue_job(f, job)`, and its result.
pub open spec fn image_enqueue_spec<J>(s: ImageQueueState<J>, f: FileId, job: J) -> (
    ImageQueueState<J>,
    Result<JobId, J>,
) {
    if !s.accepting_new || queued_count(s.queue) >= s.max_queued {
        (s, Err(job))
    } else {
        let id = JobId((s.next_job_id + 1) as u64);
        let k = last_batch_index(s.queue, f);
        if k >= 0 {
            (
                ImageQueueState {
                    next_job_id: s.next_job_id + 1,
                    queue: s.queue.update(k, (f, s.queue[k].1.push((id, job)))),
                    ..s
                },
                Ok(id),
            )
        } else if s.running.len() < s.max_running {
            (
                ImageQueueState {
                    next_job_id: s.next_job_id + 1,
                    running: s.running.push(id),
                    started: s.started.push(StartedJob { job_id: id, file_id: f, job }),
                    ..s
                },
                Ok(id),
            )
        } else {
            (
                ImageQueueState {
                    next_job_id: s.next_job_id + 1,
                    queue: s.queue.push((f, seq![(id, job)])),
                    ..s
                },
                Ok(id),
            )
        }
    }
}

/// Whether `enqueue_job(f, _)` starts the job at once in state `s`.
pub open spec fn image_enqueue_starts<J>(s: ImageQueueState<J>, f: FileId) -> bool {
    &&& s.accepting_new
    &&& queued_count(s.queue) < s.max_queued
    &&& last_batch_index(s.queue, f) < 0
    &&& s.running.len() < s.max_running
}

/// Whether `try_dequeue` starts another job in state `s`.
pub open spec fn image_can_dequeue<J>(s: ImageQueueState<J>) -> bool {
    s.accepting_new && s.running.len() < s.max_running && s.queue.len() > 0 && s.queue[0].1.len()
        > 0
}

/// State after starting the oldest job of the oldest batch.
pub open spec fn image_dequeue_one<J>(s: ImageQueueState<J>) -> ImageQueueState<J> {
    let f = s.queue[0].0;
    let jobs = s.queue[0].1;
    let id = jobs[0].0;
    let job = jobs[0].1;
    let q2 = if jobs.len() == 1 {
        s.queue.drop_first()
    } else {
        s.queue.update(0, (f, jobs.drop_first()))
    };
    ImageQueueState {
        queue: q2,
        running: s.running.push(id),
        started: s.started.push(StartedJob { job_id: id, file_id: f, job }),
        ..s
    }
}

/// State after `try_dequeue`: jobs start, oldest first, while new jobs are accepted and
/// fewer than `max_running` run.
pub open spec fn image_dequeue_spec<J>(s: ImageQueueState<J>) -> ImageQueueState<J>
    decreases s.max_running - s.running.len(),
{
    if image_can_dequeue(s) {
        image_dequeue_spec(image_dequeue_one(s))
    } else {
        s
    }
}

/// Starting queued jobs changes neither whether jobs are accepted nor whether the processor
/// was shut down.
pub proof fn lemma_dequeue_keeps_flags<J>(s: ImageQueueState<J>)
    ensures
        image_dequeue_spec(s).accepting_new == s.accepting_new,
        image_dequeue_spec(s).shut_down == s.shut_down,
    decreases s.max_running - s.running.len(),
{
    if image_can_dequeue(s) {
        lemma_dequeue_keeps_flags(image_dequeue_one(s));
    }
}

/// State after a job finished: it no longer runs, and queued jobs start.
pub open spec fn image_finished_spec<J>(s: ImageQueueState<J>, id: JobId) -> ImageQueueState<J> {
    image_dequeue_spec(ImageQueueState { running: s.running.remove_value(id), ..s })
}

/// State after `pause_all`.
pub open spec fn image_pause_spec<J>(s: ImageQueueState<J>) -> ImageQueueState<J> {
    ImageQueueState {
        accepting_new: false,
        control_out: s.control_out + broadcast_msg(s.running, JobControlMsg::Pause),
        ..s
    }
}

/// State after `resume_all`.
pub open spec fn image_resume_spec<J>(s: ImageQueueState<J>) -> ImageQueueState<J> {
    ImageQueueState {
        accepting_new: true,
        control_out: s.control_out + broadcast_msg(s.running, JobControlMsg::Resume),
        ..s
    }
}

/// State after `cancel_all`.
pub open spec fn image_cancel_spec<J>(s: ImageQueueState<J>) -> ImageQueueState<J> {
    ImageQueueState {
        accepting_new: false,
        control_out: s.control_out + broadcast_msg(s.running, JobControlMsg::Cancel),
        ..s
    }
}

pub open spec fn batches_view<J>(q: Seq<(FileId, Vec<(JobId, J)>)>) -> Batches<J> {
    q.map_values(|b: (FileId, Vec<(JobId, J)>)| (b.0, b.1@))
}

/// Queue of image jobs: at most `max_running` run at once, at most `max_queued` wait, and
/// jobs for a file that already waits join that file's batch.
pub struct ImageJobProcessor<J> {
    max_running: usize,
    max_queued: usize,
    queue: Vec<(FileId, Vec<(JobId, J)>)>,
    n_queued: usize,
    accepting_new: bool,
    shut_down: bool,
    running_jobs: Vec<JobId>,
    next_job_id: u64,
    started: Vec<StartedJob<J>>,
    control_out: Vec<(JobId, JobControlMsg)>,
}

impl<J> View for ImageJobProcessor<J> {
    type V = ImageQueueState<J>;

    closed spec fn view(&self) -> ImageQueueState<J> {
        ImageQueueState {
            max_running: self.max_running as nat,
            max_queued: self.max_queued as nat,
            queue: batches_view(self.queue@),
            accepting_new: self.accepting_new,
            shut_down: self.shut_down,
            running: self.running_jobs@,
            next_job_id: self.next_job_id as nat,
            started: self.started@,
            control_out: self.control_out@,
        }
    }
}

proof fn lemma_count_push<J>(q: Batches<J>, b: (FileId, Seq<(JobId, J)>))
    ensures
        queued_count(q.push(b)) == queued_count(q) + b.1.len(),
    decreases q.len(),
{
    let p = q.push(b);
    if q.len() > 0 {
        lemma_count_push(q.drop_first(), b);
        assert(p.drop_first() =~= q.drop_first().push(b));
        assert(p[0] == q[0]);
    } else {
        assert(p.drop_first() =~= Seq::<(FileId, Seq<(JobId, J)>)>::empty());
        assert(queued_count(p.drop_first()) == 0);
        assert(p[0] == b);
    }
}

proof fn lemma_count_update<J>(q: Batches<J>, k: int, b: (FileId, Seq<(JobId, J)>))
    requires
        0 <= k < q.len(),
    ensures
        queued_count(q.update(k, b)) + q[k].1.len() == queued_count(q) + b.1.len(),
    decreases q.len(),
{
    if k == 0 {
        assert(q.update(k, b).drop_first() =~= q.drop_first());
    } else {
        lemma_count_update(q.drop_first(), k - 1, b);
        assert(q.update(k, b).drop_first() =~= q.drop_first().update(k - 1, b));
    }
}

proof fn lemma_last_batch_index<J>(q: Batches<J>, f: FileId, i: int)
    requires
        -1 <= i < q.len(),
        i >= 0 ==> q[i].0 == f,
        forall|k: int| i < k < q.len() ==> (#[trigger] q[k]).0 != f,
    ensures
        last_batch_index(q, f) == i,
    decreases q.len(),
{
    if q.len() > 0 && i != q.len() - 1 {
        assert(q.last().0 != f);
        lemma_last_batch_index(q.drop_last(), f, i);
    }
}

impl<J> ImageJobProcessor<J> {
    /// Whether the state is consistent.
    pub open spec fn wf(&self) -> bool {
        image_queue_wf(self@) && self.count_matches()
    }

    pub closed spec fn count_matches(&self) -> bool {
        self.n_queued == queued_count(self@.queue)
    }

    /// A processor that accepts jobs and runs none.
    pub fn new(max_running: usize, max_queued: usize) -> (p: Self)
        requires
            max_running > 0,
            max_queued > 0,
        ensures
            p.wf(),
            p@ == (ImageQueueState::<J> {
                max_running: max_running as nat,
                max_queued: max_queued as nat,
                queue: Seq::empty(),
                accepting_new: true,
                shut_down: false,
                running: Seq::empty(),
                next_job_id: 0,
                started: Seq::empty(),
                control_out: Seq::empty(),
            }),
    {
        let p = ImageJobProcessor {
            max_running,
            max_queued,
            queue: Vec::new(),
            n_queued: 0,
            accepting_new: true,
            shut_down: false,
            running_jobs: Vec::new(),
            next_job_id: 0,
            started: Vec::new(),
            control_out: Vec::new(),
        };
        proof {
            assert(p@.queue =~= Seq::<(FileId, Seq<(JobId, J)>)>::empty());
        }
        p
    }

    fn new_job_id(&mut self) -> (id: JobId)
        requires
            old(self).next_job_id < u64::MAX,
        ensures
            id.0 == old(self).next_job_id + 1,
            final(self).next_job_id == id.0,
            final(self).queue == old(self).queue,
            final(self).n_queued == old(self).n_queued,
            final(self).max_running == old(self).max_running,
            final(self).max_queued == old(self).max_queued,
            final(self).accepting_new == old(self).accepting_new,
            final(self).shut_down == old(self).shut_down,
            final(self).running_jobs == old(self).running_jobs,
            final(self).started == old(self).started,
            final(self).control_out == old(self).control_out,
    {
        self.next_job_id = self.next_job_id + 1;
        JobId(self.next_job_id)
    }

    fn start_job(&mut self, file_id: FileId, job_id: JobId, job: J)
        requires
            old(self).running_jobs@.len() < old(self).max_running,
            !old(self).shut_down,
        ensures
            final(self)@ == (ImageQueueState {
                running: old(self)@.running.push(job_id),
                started: old(self)@.started.push(StartedJob { job_id, file_id, job }),
                ..old(self)@
            }),
            final(self).n_queued == old(self).n_queued,
    {
        self.running_jobs.push(job_id);
        self.started.push(StartedJob { job_id, file_id, job });
    }

    /// Offers a job for `file_id`. It is refused (handed back) when new jobs are not
    /// accepted or `max_queued` jobs wait; otherwise it joins the last waiting batch of the
    /// same file, starts at once when fewer than `max_running` jobs run, or waits in a new
    /// batch.
    pub fn enqueue_job(&mut self, file_id: FileId, job: J) -> (r: Result<JobId, J>)
        requires
            old(self).wf(),
            old(self)@.next_job_id < u64::MAX,
            old(self)@.shut_down ==> !image_enqueue_starts(old(self)@, file_id),
        ensures
            final(self).wf(),
            (final(self)@, r) == image_enqueue_spec(old(self)@, file_id, job),
    {
        if !self.accepting_new || self.n_queued >= self.max_queued {
            return Err(job);
        }
        let ghost s = self@;
        let job_id = self.new_job_id();
        let mut i = self.queue.len();
        let mut found = false;
        while i > 0 && !found
            invariant
                i <= self.queue@.len(),
                self@ == (ImageQueueState { next_job_id: s.next_job_id + 1, ..s }),
                found ==> i > 0 && self@.queue[i - 1].0 == file_id,
                forall|k: int| i <= k < self@.queue.len() ==> (#[trigger] self@.queue[k]).0
                    != file_id,
            decreases i + (if found { 0int } else { 1int }),
        {
            if self.queue[i - 1].0 == file_id {
                found = true;
            } else {
                i = i - 1;
            }
        }
        if !found {
            i = 0;
        }
        proof {
            assert(self@.queue == s.queue);
            assert forall|k: int| i - 1 < k < s.queue.len() implies (#[trigger] s.queue[k]).0
                != file_id by {
                if k >= i {
                    assert(self@.queue[k].0 != file_id);
                }
            }
            lemma_last_batch_index(s.queue, file_id, i - 1);
        }
        if i > 0 {
            let k = i - 1;
            let (f, mut jobs) = self.queue.remove(k);
            jobs.push((job_id, job));
            self.queue.insert(k, (f, jobs));
            self.n_queued = self.n_queued + 1;
            proof {
                let b = (file_id, s.queue[k as int].1.push((job_id, job)));
                assert(self@.queue =~= s.queue.update(k as int, b));
                lemma_count_update(s.queue, k as int, b);
            }
        } else if self.running_jobs.len() < self.max_running {
            self.start_job(file_id, job_id, job);
        } else {
            let mut jobs: Vec<(JobId, J)> = Vec::new();
            jobs.push((job_id, job));
            self.queue.push((file_id, jobs));
            self.n_queued = self.n_queued + 1;
            proof {
                let b = (file_id, seq![(job_id, job)]);
                assert(jobs@ =~= seq![(job_id, job)]);
                assert(self@.queue =~= s.queue.push(b));
                lemma_count_push(s.queue, b);
            }
        }
        proof {
            let t = self@;
            assert forall|a: int, b: int|
                0 <= a < t.queue.len() && 0 <= b < t.queue[a].1.len() implies (#[trigger] t.queue[a].1[b]).0.0
                <= t.next_job_id by {
                if a < s.queue.len() && b < s.queue[a].1.len() {
                    assert(t.queue[a].1[b] == s.queue[a].1[b]);
                }
            }
        }
        Ok(job_id)
    }

    /// Starts waiting jobs, oldest first, while new jobs are accepted and fewer than
    /// `max_running` run.
    pub fn try_dequeue(&mut self)
        requires
            old(self).wf(),
            old(self)@.shut_down ==> !image_can_dequeue(old(self)@),
        ensures
            final(self).wf(),
            final(self)@ == image_dequeue_spec(old(self)@),
    {
        let ghost target = image_dequeue_spec(self@);
        while self.accepting_new && self.running_jobs.len() < self.max_running && self.queue.len()
            > 0
            invariant
                self.wf(),
                self@.shut_down ==> !image_can_dequeue(self@),
                image_dequeue_spec(self@) == target,
            decreases self.max_running - self.running_jobs@.len(),
        {
            let ghost s = self@;
            proof {
                assert(s.queue[0].1.len() > 0);
                assert(image_can_dequeue(s));
            }
            let (f, mut jobs) = self.queue.remove(0);
            let (job_id, job) = jobs.remove(0);
            self.n_queued = self.n_queued - 1;
            let ghost rest = jobs@;
            if jobs.len() > 0 {
                self.queue.insert(0, (f, jobs));
                proof {
                    assert(self@.queue =~= s.queue.update(0, (f, rest)));
                    lemma_count_update(s.queue, 0, (f, rest));
                }
            } else {
                proof {
                    assert(self@.queue =~= s.queue.drop_first());
                }
            }
            self.start_job(f, job_id, job);
            proof {
                let t = self@;
                let n = image_dequeue_one(s);
                assert(rest =~= s.queue[0].1.drop_first());
                assert(t.queue =~= n.queue);
                assert(t == n);
                assert(t.running.no_duplicates()) by {
                    assert forall|a: int, b: int|
                        0 <= a < t.running.len() && 0 <= b < t.running.len() && a != b implies t.running[a]
                        != t.running[b] by {
                        if a == t.running.len() - 1 || b == t.running.len() - 1 {
                            assert(s.queue[0].1[0].0 == job_id);
                        }
                    }
                }
                assert forall|a: int, b: int|
                    0 <= a < t.queue.len() && 0 <= b < t.queue[a].1.len() implies (#[trigger] t.queue[a].1[b]).0.0
                    <= t.next_job_id by {
                    if jobs@.len() > 0 && a == 0 {
                        assert(t.queue[a].1[b] == s.queue[0].1[b + 1]);
                    } else if jobs@.len() > 0 {
                        assert(t.queue[a] == s.queue[a]);
                    } else {
                        assert(t.queue[a] == s.queue[a + 1]);
                    }
                }
                assert forall|a: int| 0 <= a < t.queue.len() implies (#[trigger] t.queue[a]).1.len()
                    > 0 by {
                    if jobs@.len() > 0 && a == 0 {
                    } else if jobs@.len() > 0 {
                        assert(t.queue[a] == s.queue[a]);
                    } else {
                        assert(t.queue[a] == s.queue[a + 1]);
                    }
                }
            }
        }
        proof {
            if image_can_dequeue(self@) {
                assert(self@.queue.len() > 0);
            }
        }
    }

    /// Stops accepting new jobs and asks every running job to pause.
    pub fn pause_all(&mut self)
        requires
            old(self).wf(),
        ensures
            final(self).wf(),
            final(self)@ == image_pause_spec(old(self)@),
    {
        self.accepting_new = false;
        push_broadcast(&mut self.control_out, &self.running_jobs, JobControlMsg::Pause);
    }

    /// Accepts new jobs again and asks every running job to resume.
    pub fn resume_all(&mut self)
        requires
            old(self).wf(),
        ensures
            final(self).wf(),
            final(self)@ == image_resume_spec(old(self)@),
    {
        self.accepting_new = true;
        push_broadcast(&mut self.control_out, &self.running_jobs, JobControlMsg::Resume);
    }

    /// Stops accepting new jobs and asks every running job to cancel.
    pub fn cancel_all(&mut self)
        requires
            old(self).wf(),
        ensures
            final(self).wf(),
            final(self)@ == image_cancel_spec(old(self)@),
    {
        self.accepting_new = false;
        push_broadcast(&mut self.control_out, &self.running_jobs, JobControlMsg::Cancel);
    }

    /// Cancels all jobs; no job starts afterwards until the processor accepts jobs again.
    pub fn shutdown(&mut self)
        requires
            old(self).wf(),
        ensures
            final(self).wf(),
            final(self)@ == (ImageQueueState { shut_down: true, ..image_cancel_spec(old(self)@) }),
    {
        self.cancel_all();
        self.shut_down = true;
    }

    /// Records that a running job finished and starts waiting jobs.
    pub fn on_job_finished(&mut self, job_id: JobId)
        requires
            old(self).wf(),
            old(self)@.running.contains(job_id),
            old(self)@.shut_down ==> !image_can_dequeue(
                ImageQueueState { running: old(self)@.running.remove_value(job_id), ..old(self)@ },
            ),
        ensures
            final(self).wf(),
            final(self)@ == image_finished_spec(old(self)@, job_id),
    {
        let ghost s = self@;
        remove_running(&mut self.running_jobs, job_id);
        proof {
            let t = self@;
            s.running.index_of_first_ensures(job_id);
            let k = s.running.index_of_first(job_id).unwrap();
            assert(t.running == s.running.remove(k));
            assert forall|a: int, b: int|
                0 <= a < t.running.len() && 0 <= b < t.running.len() && a != b implies t.running[a]
                != t.running[b] by {
                let a2 = if a < k { a } else { a + 1 };
                let b2 = if b < k { b } else { b + 1 };
                assert(t.running[a] == s.running[a2]);
                assert(t.running[b] == s.running[b2]);
            }
            assert forall|a: int| 0 <= a < t.running.len() implies (#[trigger] t.running[a]).0
                <= t.next_job_id by {
                let a2 = if a < k { a } else { a + 1 };
                assert(t.running[a] == s.running[a2]);
            }
        }
        self.try_dequeue();
    }

    /// Whether the job `id` runs.
    pub fn is_running(&self, id: JobId) -> (b: bool)
        ensures
            b == self@.running.contains(id),
    {
        let mut i: usize = 0;
        while i < self.running_jobs.len()
            invariant
                i <= self@.running.len(),
                self@.running == self.running_jobs@,
                forall|k: int| 0 <= k < i ==> self@.running[k] != id,
            decreases self@.running.len() - i,
        {
            if self.running_jobs[i] == id {
                return true;
            }
            i = i + 1;
        }
        false
    }

    /// Whether a fresh job id can still be assigned.
    pub fn can_assign_job_id(&self) -> (b: bool)
        ensures
            b == (self@.next_job_id < u64::MAX),
    {
        self.next_job_id < u64::MAX
    }

    /// Number of waiting jobs.
    pub fn queued(&self) -> (n: usize)
        requires
            self.wf(),
        ensures
            n == queued_count(self@.queue),
    {
        self.n_queued
    }

    /// Hands out the jobs started since the last call, in the order they started.
    pub fn take_started(&mut self) -> (jobs: Vec<StartedJob<J>>)
        requires
            old(self).wf(),
        ensures
            final(self).wf(),
            jobs@ == old(self)@.started,
            final(self)@ == (ImageQueueState { started: Seq::empty(), ..old(self)@ }),
    {
        let mut out: Vec<StartedJob<J>> = Vec::new();
        std::mem::swap(&mut out, &mut self.started);
        proof {
            assert(self@.started =~= Seq::<StartedJob<J>>::empty());
        }
        out
    }

    /// Hands out the control messages for running jobs produced since the last call.
    pub fn take_control_messages(&mut self) -> (msgs: Vec<(JobId, JobControlMsg)>)
        requires
            old(self).wf(),
        ensures
            final(self).wf(),
            msgs@ == old(self)@.control_out,
            final(self)@ == (ImageQueueState { control_out: Seq::empty(), ..old(self)@ }),
    {
        let mut out: Vec<(JobId, JobControlMsg)> = Vec::new();
        std::mem::swap(&mut out, &mut self.control_out);
        proof {
            assert(self@.control_out =~= Seq::<(JobId, JobControlMsg)>::empty());
        }
        out
    }
}

/// An accepted job gets a fresh id, and afterwards either runs or waits; a refused job is
/// refused only when new jobs are not accepted or the queue is full, and nothing changes.
pub proof fn lemma_image_enqueue_accepts<J>(s: ImageQueueState<J>, f: FileId, job: J)
    requires
        image_queue_wf(s),
        s.next_job_id < u64::MAX,
    ensures
        ({
            let (t, r) = image_enqueue_spec(s, f, job);
            match r {
                Ok(id) => {
                    &&& !s.running.contains(id)
                    &&& !queued_job_id(s.queue, id)
                    &&& (t.running.contains(id) || queued_job_id(t.queue, id))
                    &&& queued_count(t.queue) + t.running.len() == queued_count(s.queue)
                        + s.running.len() + 1
                },
                Err(back) => {
                    &&& back == job
                    &&& t == s
                    &&& (!s.accepting_new || queued_count(s.queue) >= s.max_queued)
                },
            }
        }),
{
    let (t, r) = image_enqueue_spec(s, f, job);
    if r is Ok {
        let id = JobId((s.next_job_id + 1) as u64);
        assert(!s.running.contains(id)) by {
            if s.running.contains(id) {
                let k = choose|k: int| 0 <= k < s.running.len() && s.running[k] == id;
                assert(s.running[k].0 <= s.next_job_id);
            }
        }
        assert(!queued_job_id(s.queue, id)) by {
            if queued_job_id(s.queue, id) {
                let (a, b) = choose|a: int, b: int|
                    0 <= a < s.queue.len() && 0 <= b < s.queue[a].1.len() && (#[trigger] s.queue[a].1[b]).0
                        == id;
                assert(s.queue[a].1[b].0.0 <= s.next_job_id);
            }
        }
        let k = last_batch_index(s.queue, f);
        lemma_last_batch_index_range(s.queue, f);
        if k >= 0 {
            let b = (f, s.queue[k].1.push((id, job)));
            lemma_count_update(s.queue, k, b);
            assert(t.queue[k].1[s.queue[k].1.len() as int] == (id, job));
        } else if s.running.len() < s.max_running {
            assert(t.running[s.running.len() as int] == id);
        } else {
            let b = (f, seq![(id, job)]);
            lemma_count_push(s.queue, b);
            assert(t.queue[s.queue.len() as int].1[0] == (id, job));
        }
    }
}

proof fn lemma_last_batch_index_range<J>(q: Batches<J>, f: FileId)
    ensures
        -1 <= last_batch_index(q, f) < q.len(),
        last_batch_index(q, f) >= 0 ==> q[last_batch_index(q, f)].0 == f,
    decreases q.len(),
{
    if q.len() > 0 && q.last().0 != f {
        lemma_last_batch_index_range(q.drop_last(), f);
    }
}

/// Dequeueing moves jobs from the queue to the running set one for one, and stops only when
/// new jobs are not accepted, `max_running` jobs run, or nothing waits.
pub proof fn lemma_image_dequeue_moves_jobs<J>(s: ImageQueueState<J>)
    requires
        image_queue_wf(s),
    ensures
        ({
            let t = image_dequeue_spec(s);
            &&& queued_count(t.queue) + t.running.len() == queued_count(s.queue) + s.running.len()
            &&& t.started.len() - s.started.len() == t.running.len() - s.running.len()
            &&& (!t.accepting_new || t.running.len() == t.max_running || t.queue.len() == 0)
            &&& t.accepting_new == s.accepting_new
            &&& t.max_running == s.max_running
        }),
    decreases s.max_running - s.running.len(),
{
    if image_can_dequeue(s) {
        let n = image_dequeue_one(s);
        let jobs = s.queue[0].1;
        if jobs.len() == 1 {
            assert(queued_count(s.queue) == jobs.len() + queued_count(s.queue.drop_first()));
        } else {
            lemma_count_update(s.queue, 0, (s.queue[0].0, jobs.drop_first()));
        }
        lemma_image_dequeue_one_wf(s);
        lemma_image_dequeue_moves_jobs(n);
    } else {
        if s.accepting_new && s.running.len() < s.max_running && s.queue.len() > 0 {
            assert(s.queue[0].1.len() > 0);
        }
    }
}

proof fn lemma_image_dequeue_one_wf<J>(s: ImageQueueState<J>)
    requires
        image_queue_wf(s),
        image_can_dequeue(s),
    ensures
        image_queue_wf(image_dequeue_one(s)),
{
    let t = image_dequeue_one(s);
    let jobs = s.queue[0].1;
    let job_id = jobs[0].0;
    if jobs.len() == 1 {
        assert(queued_count(s.queue) == jobs.len() + queued_count(s.queue.drop_first()));
    } else {
        lemma_count_update(s.queue, 0, (s.queue[0].0, jobs.drop_first()));
    }
    assert forall|a: int, b: int|
        0 <= a < t.running.len() && 0 <= b < t.running.len() && a != b implies t.running[a]
        != t.running[b] by {
        if a == t.running.len() - 1 || b == t.running.len() - 1 {
            assert(s.queue[0].1[0].0 == job_id);
        }
    }
    assert forall|a: int, b: int|
        0 <= a < t.queue.len() && 0 <= b < t.queue[a].1.len() implies (#[trigger] t.queue[a].1[b]).0.0
        <= t.next_job_id by {
        if jobs.len() > 1 && a == 0 {
            assert(t.queue[a].1[b] == s.queue[0].1[b + 1]);
        } else if jobs.len() > 1 {
            assert(t.queue[a] == s.queue[a]);
        } else {
            assert(t.queue[a] == s.queue[a + 1]);
        }
    }
    assert forall|a: int| 0 <= a < t.queue.len() implies (#[trigger] t.queue[a]).1.len() > 0 by {
        if jobs.len() > 1 && a == 0 {
        } else if jobs.len() > 1 {
            assert(t.queue[a] == s.queue[a]);
        } else {
            assert(t.queue[a] == s.queue[a + 1]);
        }
    }
}

/// Pausing and then resuming leaves the queue and the running jobs as they were, accepts
/// new jobs, and asks every running job to pause and then to resume.
pub proof fn lemma_image_pause_resume<J>(s: ImageQueueState<J>)
    ensures
        ({
            let t = image_resume_spec(image_pause_spec(s));
            &&& t.queue == s.queue
            &&& t.running == s.running
            &&& t.accepting_new
            &&& t.control_out == s.control_out + broadcast_msg(s.running, JobControlMsg::Pause)
                + broadcast_msg(s.running, JobControlMsg::Resume)
        }),
{
}

} // verus!
