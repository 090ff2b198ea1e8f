//! The scheduler's decisions: what each message to it and each report from the indexing actor
//! and the image processor leads to.
//!
//! The driver reads and writes the catalog, talks to the actors and hands the resulting jobs
//! to [`Scheduler::enqueue_image_job`].
use vstd::prelude::*;

use crate::actor::indexing::MsgFromIndexing;
use crate::catalog::operation::{ConvertImage, CreateAssetThumbnail};
use crate::catalog::package_video::PackageVideo;
use crate::model::{AssetId, AssetRootDirId, FileId};
use crate::scheduling::image_processor::{
    image_cancel_spec, image_enqueue_spec, lemma_dequeue_keeps_flags, image_finished_spec, image_pause_spec,
    image_resume_spec, queued_count, ImageJob, ImageJobProcessor, ImageQueueState,
};
use crate::scheduling::job_control::JobId;

verus! {

/// Most image jobs run at once.
pub const MAX_RUNNING_IMAGE_JOBS: usize = 4;

/// Most image jobs waiting.
pub const MAX_QUEUED_IMAGE_JOBS: usize = 1000;

/// A request of a user.
#[derive(Debug, Clone, PartialEq, Eq)]
pub enum UserRequest {
    ReindexAssetRoot(AssetRootDirId),
    RegenerateThumbnails(Option<Vec<FileId>>),
    DisableGhiStreaming(Vec<FileId>),
}

/// A message to the scheduler.
#[derive(Debug, Clone, PartialEq, Eq)]
pub enum SchedulerMessage {
    Startup,
    Timer,
    UserRequest(UserRequest),
    PauseAllProcessing,
    ResumeAllProcessing,
    PauseVideoPackaging,
    ResumeVideoPackaging,
    Shutdown,
}

/// What the driver does after a message to the scheduler.
#[derive(Debug, Clone, PartialEq, Eq)]
pub enum SchedulerAction {
    /// Nothing to do.
    Nothing,
    /// Ask the indexing actor to index an asset root.
    IndexAssetRoot(AssetRootDirId),
    /// Disable streaming of the originals of these files, then enqueue the video packaging
    /// that they require.
    DisableGhiStreaming(Vec<FileId>),
    /// Delete the thumbnails of these files (of all files for `None`), then enqueue the
    /// thumbnails that they require.
    RegenerateThumbnails(Option<Vec<FileId>>),
    /// Rebuild the timeline, enqueue every image job that the catalog requires, and reindex
    /// every asset root.
    StartUp,
    /// Ask the indexing actor to shut down, and report the shutdown once every actor has.
    ShutDown,
}

/// What the driver does after a report from the indexing actor.
#[derive(Debug, Clone, Copy, PartialEq, Eq, Structural)]
pub enum IndexingFollowUp {
    /// Nothing to do.
    Nothing,
    /// Enqueue the jobs that a new asset requires.
    NewAsset(AssetId),
}

/// The scheduler's state.
pub struct Scheduler {
    /// Whether a shutdown was requested; every later message is ignored.
    pub waiting_for_shutdown: bool,
    /// Whether an image job was refused since the image queue last ran empty.
    pub dropped_image_jobs: bool,
    /// Whether the indexing actor dropped a request since it was last idle.
    pub indexing_has_dropped_msgs: bool,
    /// The image job queue.
    pub image_proc: ImageJobProcessor<ImageJob>,
}

/// What `handle_message` leads to: the scheduler's state afterwards (shutdown flag, image
/// queue) and the driver's action.
pub open spec fn handle_message_spec(
    waiting: bool,
    q: ImageQueueState<ImageJob>,
    msg: SchedulerMessage,
) -> (bool, ImageQueueState<ImageJob>, SchedulerAction) {
    if waiting {
        (waiting, q, SchedulerAction::Nothing)
    } else {
        match msg {
            SchedulerMessage::Timer => (waiting, q, SchedulerAction::Nothing),
            SchedulerMessage::UserRequest(UserRequest::ReindexAssetRoot(id)) => (
                waiting,
                q,
                SchedulerAction::IndexAssetRoot(id),
            ),
            SchedulerMessage::UserRequest(UserRequest::DisableGhiStreaming(ids)) => (
                waiting,
                q,
                SchedulerAction::DisableGhiStreaming(ids),
            ),
            SchedulerMessage::UserRequest(UserRequest::RegenerateThumbnails(ids)) => (
                waiting,
                q,
                SchedulerAction::RegenerateThumbnails(ids),
            ),
            SchedulerMessage::PauseAllProcessing => (waiting, image_pause_spec(q), SchedulerAction::Nothing),
            SchedulerMessage::ResumeAllProcessing => (waiting, image_resume_spec(q), SchedulerAction::Nothing),
            SchedulerMessage::Shutdown => (true, image_cancel_spec(q), SchedulerAction::ShutDown),
            SchedulerMessage::Startup => (waiting, q, SchedulerAction::StartUp),
            // not handled by the scheduler; `handle_message` does not accept them
            SchedulerMessage::PauseVideoPackaging => (waiting, q, SchedulerAction::Nothing),
            SchedulerMessage::ResumeVideoPackaging => (waiting, q, SchedulerAction::Nothing),
        }
    }
}

/// Image queue and dropped flag after offering one job (see [`Scheduler::enqueue_image_job`]).
pub open spec fn enqueue_one_spec(
    q: ImageQueueState<ImageJob>,
    dropped: bool,
    file_id: FileId,
    job: ImageJob,
) -> (ImageQueueState<ImageJob>, bool) {
    if q.next_job_id < u64::MAX {
        let (q2, r) = image_enqueue_spec(q, file_id, job);
        (q2, dropped || r is Err)
    } else {
        (q, true)
    }
}

/// Image queue and dropped flag after offering `jobs` one after another.
pub open spec fn enqueue_all_spec(
    q: ImageQueueState<ImageJob>,
    dropped: bool,
    jobs: Seq<(FileId, ImageJob)>,
) -> (ImageQueueState<ImageJob>, bool)
    decreases jobs.len(),
{
    if jobs.len() == 0 {
        (q, dropped)
    } else {
        let (q1, d1) = enqueue_all_spec(q, dropped, jobs.drop_last());
        enqueue_one_spec(q1, d1, jobs.last().0, jobs.last().1)
    }
}

/// The image job that creates the thumbnails `c` asks for.
pub open spec fn thumbnail_job(c: CreateAssetThumbnail) -> (FileId, ImageJob) {
    (c.file_id, ImageJob::CreateThumbnail { thumbnail_types: c.thumbnail_types, formats: c.formats })
}

/// The image job that performs the conversion `c`.
pub open spec fn conversion_job(c: ConvertImage) -> (FileId, ImageJob) {
    (c.file_id, ImageJob::ConvertImage(c))
}

/// The image job that performs the packaging `p`.
pub open spec fn packaging_job(p: PackageVideo) -> (FileId, ImageJob) {
    (p.file_id, ImageJob::PackageVideo(p))
}

/// The image job that computes the thumbhash of `f`.
pub open spec fn thumbhash_job(f: FileId) -> (FileId, ImageJob) {
    (f, ImageJob::CreateThumbhash)
}

/// What the scheduler enqueues for a newly indexed asset besides its thumbnails.
#[derive(Debug, Clone)]
pub enum NewAssetWork {
    /// A video and the packaging it requires.
    Video(Vec<PackageVideo>),
    /// An image (whose representative file is `rep_file_id`) and the conversions it requires.
    Image { conversions: Vec<ConvertImage>, rep_file_id: FileId },
}

/// The jobs enqueued for a newly indexed asset: its thumbnails when any kind is missing, then
/// its packaging (a video), or its conversions and its thumbhash (an image).
pub open spec fn new_asset_jobs(thumbnails: CreateAssetThumbnail, work: NewAssetWork) -> Seq<(FileId, ImageJob)> {
    (if thumbnails.thumbnail_types@.len() == 0 {
        Seq::empty()
    } else {
        seq![thumbnail_job(thumbnails)]
    }) + match work {
        NewAssetWork::Video(packaging) => packaging@.map_values(|p: PackageVideo| packaging_job(p)),
        NewAssetWork::Image { conversions, rep_file_id } => conversions@.map_values(
            |c: ConvertImage| conversion_job(c),
        ).push(thumbhash_job(rep_file_id)),
    }
}

/// The jobs of `items`, in order, each made by `job`.
fn push_jobs<T>(out: &mut Vec<(FileId, ImageJob)>, items: Vec<T>, job: impl Fn(T) -> (FileId, ImageJob), Ghost(job_spec): Ghost<spec_fn(T) -> (FileId, ImageJob)>)
    requires
        forall|t: T| #[trigger] job.requires((t,)),
        forall|t: T, r: (FileId, ImageJob)| job.ensures((t,), r) ==> r == job_spec(t),
    ensures
        final(out)@ == old(out)@ + items@.map_values(job_spec),
{
    let ghost start = out@;
    let ghost all = items@;
    let n = items.len();
    let mut rest = items;
    let mut done: usize = 0;
    while rest.len() > 0
        invariant
            forall|t: T| #[trigger] job.requires((t,)),
            forall|t: T, r: (FileId, ImageJob)| job.ensures((t,), r) ==> r == job_spec(t),
            done + rest@.len() == all.len(),
            all.len() == n,
            rest@ == all.subrange(done as int, all.len() as int),
            out@ == start + all.subrange(0, done as int).map_values(job_spec),
        decreases rest@.len(),
    {
        let ghost before = rest@;
        let t = rest.remove(0);
        proof {
            assert(before[0] == t);
            assert(rest@ =~= all.subrange(done + 1, all.len() as int));
        }
        let j = job(t);
        out.push(j);
        proof {
            assert(all.subrange(0, done + 1).map_values(job_spec) =~= all.subrange(0, done as int).map_values(job_spec).push(job_spec(all[done as int])));
        }
        done = done + 1;
    }
    proof {
        assert(all.subrange(0, done as int) =~= all);
    }
}

impl Scheduler {
    /// The scheduler's invariant: its image queue is consistent and was never shut down.
    pub open spec fn wf(&self) -> bool {
        self.image_proc.wf() && !self.image_proc@.shut_down
    }

    /// A scheduler with an empty image queue that accepts jobs.
    pub fn new() -> (s: Self)
        ensures
            s.wf(),
            !s.waiting_for_shutdown,
            !s.dropped_image_jobs,
            !s.indexing_has_dropped_msgs,
            s.image_proc@.max_running == MAX_RUNNING_IMAGE_JOBS,
            s.image_proc@.max_queued == MAX_QUEUED_IMAGE_JOBS,
            s.image_proc@.accepting_new,
            s.image_proc@.queue.len() == 0,
            s.image_proc@.running.len() == 0,
    {
        Scheduler {
            waiting_for_shutdown: false,
            dropped_image_jobs: false,
            indexing_has_dropped_msgs: false,
            image_proc: ImageJobProcessor::new(MAX_RUNNING_IMAGE_JOBS, MAX_QUEUED_IMAGE_JOBS),
        }
    }

    /// Offers an image job for `file_id` to the image queue; a refused job (or one that can no
    /// longer get a fresh id) is remembered as dropped.
    pub fn enqueue_image_job(&mut self, file_id: FileId, job: ImageJob)
        requires
            old(self).wf(),
        ensures
            final(self).wf(),
            final(self).waiting_for_shutdown == old(self).waiting_for_shutdown,
            final(self).indexing_has_dropped_msgs == old(self).indexing_has_dropped_msgs,
            old(self).image_proc@.next_job_id < u64::MAX ==> {
                let (q, r) = image_enqueue_spec(old(self).image_proc@, file_id, job);
                &&& final(self).image_proc@ == q
                &&& final(self).dropped_image_jobs == (old(self).dropped_image_jobs || r is Err)
            },
            old(self).image_proc@.next_job_id >= u64::MAX ==> final(self).image_proc@ == old(
                self,
            ).image_proc@ && final(self).dropped_image_jobs,
    {
        if !self.image_proc.can_assign_job_id() {
            self.dropped_image_jobs = true;
            return;
        }
        let r = self.image_proc.enqueue_job(file_id, job);
        if r.is_err() {
            self.dropped_image_jobs = true;
        }
    }

    /// Offers each of `jobs` to the image queue in order (see [`Scheduler::enqueue_image_job`]).
    pub fn enqueue_image_jobs(&mut self, jobs: Vec<(FileId, ImageJob)>)
        requires
            old(self).wf(),
        ensures
            final(self).wf(),
            final(self).waiting_for_shutdown == old(self).waiting_for_shutdown,
            final(self).indexing_has_dropped_msgs == old(self).indexing_has_dropped_msgs,
            (final(self).image_proc@, final(self).dropped_image_jobs) == enqueue_all_spec(
                old(self).image_proc@,
                old(self).dropped_image_jobs,
                jobs@,
            ),
    {
        let ghost all = jobs@;
        let n = jobs.len();
        let mut rest = jobs;
        let mut done: usize = 0;
        while rest.len() > 0
            invariant
                self.wf(),
                self.waiting_for_shutdown == old(self).waiting_for_shutdown,
                self.indexing_has_dropped_msgs == old(self).indexing_has_dropped_msgs,
                done + rest@.len() == all.len(),
                all.len() == n,
                rest@ == all.subrange(done as int, all.len() as int),
                (self.image_proc@, self.dropped_image_jobs) == enqueue_all_spec(
                    old(self).image_proc@,
                    old(self).dropped_image_jobs,
                    all.subrange(0, done as int),
                ),
            decreases rest@.len(),
        {
            let ghost before = rest@;
            let (file_id, job) = rest.remove(0);
            proof {
                assert(before[0] == all[done as int]);
                assert(rest@ =~= all.subrange(done + 1, all.len() as int));
                assert(all.subrange(0, done + 1).drop_last() =~= all.subrange(0, done as int));
            }
            self.enqueue_image_job(file_id, job);
            done = done + 1;
        }
        proof {
            assert(all.subrange(0, done as int) =~= all);
        }
    }

    /// Enqueues the image jobs that the catalog requires, in this order: thumbhashes of
    /// `thumbhash_missing`, then `thumbnails`, then `conversions`, then `packaging`.
    pub fn enqueue_required_image_jobs(
        &mut self,
        thumbhash_missing: Vec<FileId>,
        thumbnails: Vec<CreateAssetThumbnail>,
        conversions: Vec<ConvertImage>,
        packaging: Vec<PackageVideo>,
    )
        requires
            old(self).wf(),
        ensures
            final(self).wf(),
            final(self).waiting_for_shutdown == old(self).waiting_for_shutdown,
            final(self).indexing_has_dropped_msgs == old(self).indexing_has_dropped_msgs,
            (final(self).image_proc@, final(self).dropped_image_jobs) == enqueue_all_spec(
                old(self).image_proc@,
                old(self).dropped_image_jobs,
                thumbhash_missing@.map_values(|f: FileId| thumbhash_job(f)) + thumbnails@.map_values(
                    |c: CreateAssetThumbnail| thumbnail_job(c),
                ) + conversions@.map_values(|c: ConvertImage| conversion_job(c))
                    + packaging@.map_values(|p: PackageVideo| packaging_job(p)),
            ),
    {
        let mut jobs: Vec<(FileId, ImageJob)> = Vec::new();
        push_jobs(&mut jobs, thumbhash_missing, |f: FileId| -> (r: (FileId, ImageJob))
            ensures r == thumbhash_job(f)
        { (f, ImageJob::CreateThumbhash) }, Ghost(|f: FileId| thumbhash_job(f)));
        push_jobs(&mut jobs, thumbnails, |c: CreateAssetThumbnail| -> (r: (FileId, ImageJob))
            ensures r == thumbnail_job(c)
        { (c.file_id, ImageJob::CreateThumbnail { thumbnail_types: c.thumbnail_types, formats: c.formats }) }, Ghost(|c: CreateAssetThumbnail| thumbnail_job(c)));
        push_jobs(&mut jobs, conversions, |c: ConvertImage| -> (r: (FileId, ImageJob))
            ensures r == conversion_job(c)
        { (c.file_id, ImageJob::ConvertImage(c)) }, Ghost(|c: ConvertImage| conversion_job(c)));
        push_jobs(&mut jobs, packaging, |p: PackageVideo| -> (r: (FileId, ImageJob))
            ensures r == packaging_job(p)
        { (p.file_id, ImageJob::PackageVideo(p)) }, Ghost(|p: PackageVideo| packaging_job(p)));
        self.enqueue_image_jobs(jobs);
    }

    /// Enqueues the image jobs of a newly indexed asset (see [`new_asset_jobs`]).
    pub fn on_new_asset_indexed(&mut self, thumbnails: CreateAssetThumbnail, work: NewAssetWork)
        requires
            old(self).wf(),
        ensures
            final(self).wf(),
            final(self).waiting_for_shutdown == old(self).waiting_for_shutdown,
            final(self).indexing_has_dropped_msgs == old(self).indexing_has_dropped_msgs,
            (final(self).image_proc@, final(self).dropped_image_jobs) == enqueue_all_spec(
                old(self).image_proc@,
                old(self).dropped_image_jobs,
                new_asset_jobs(thumbnails, work),
            ),
    {
        let ghost spec_jobs = new_asset_jobs(thumbnails, work);
        let mut jobs: Vec<(FileId, ImageJob)> = Vec::new();
        if thumbnails.thumbnail_types.len() > 0 {
            jobs.push(
                (
                    thumbnails.file_id,
                    ImageJob::CreateThumbnail {
                        thumbnail_types: thumbnails.thumbnail_types,
                        formats: thumbnails.formats,
                    },
                ),
            );
        }
        let ghost first = jobs@;
        match work {
            NewAssetWork::Video(packaging) => {
                push_jobs(&mut jobs, packaging, |p: PackageVideo| -> (r: (FileId, ImageJob))
                    ensures r == packaging_job(p)
                { (p.file_id, ImageJob::PackageVideo(p)) }, Ghost(|p: PackageVideo| packaging_job(p)));
            },
            NewAssetWork::Image { conversions, rep_file_id } => {
                push_jobs(&mut jobs, conversions, |c: ConvertImage| -> (r: (FileId, ImageJob))
                    ensures r == conversion_job(c)
                { (c.file_id, ImageJob::ConvertImage(c)) }, Ghost(|c: ConvertImage| conversion_job(c)));
                jobs.push((rep_file_id, ImageJob::CreateThumbhash));
            },
        }
        proof {
            assert(jobs@ =~= spec_jobs);
        }
        self.enqueue_image_jobs(jobs);
    }

    /// Handles a message to the scheduler. While a shutdown is awaited every message is
    /// ignored. Pausing and resuming all processing pause and resume the image queue; a
    /// shutdown cancels the image jobs; the other messages hand work to the driver.
    pub fn handle_message(&mut self, msg: SchedulerMessage) -> (action: SchedulerAction)
        requires
            old(self).wf(),
            !old(self).waiting_for_shutdown ==> !(msg is PauseVideoPackaging)
                && !(msg is ResumeVideoPackaging),
        ensures
            final(self).wf(),
            (final(self).waiting_for_shutdown, final(self).image_proc@, action)
                == handle_message_spec(old(self).waiting_for_shutdown, old(self).image_proc@, msg),
            final(self).dropped_image_jobs == old(self).dropped_image_jobs,
            final(self).indexing_has_dropped_msgs == old(self).indexing_has_dropped_msgs,
    {
        if self.waiting_for_shutdown {
            return SchedulerAction::Nothing;
        }
        match msg {
            SchedulerMessage::Timer => SchedulerAction::Nothing,
            SchedulerMessage::UserRequest(user_request) => match user_request {
                UserRequest::ReindexAssetRoot(root_dir_id) => SchedulerAction::IndexAssetRoot(
                    root_dir_id,
                ),
                UserRequest::DisableGhiStreaming(file_ids) => SchedulerAction::DisableGhiStreaming(
                    file_ids,
                ),
                UserRequest::RegenerateThumbnails(file_ids) => SchedulerAction::RegenerateThumbnails(
                    file_ids,
                ),
            },
            SchedulerMessage::PauseAllProcessing => {
                self.image_proc.pause_all();
                SchedulerAction::Nothing
            },
            SchedulerMessage::ResumeAllProcessing => {
                self.image_proc.resume_all();
                SchedulerAction::Nothing
            },
            SchedulerMessage::PauseVideoPackaging => SchedulerAction::Nothing,
            SchedulerMessage::ResumeVideoPackaging => SchedulerAction::Nothing,
            SchedulerMessage::Shutdown => {
                self.waiting_for_shutdown = true;
                self.image_proc.cancel_all();
                SchedulerAction::ShutDown
            },
            SchedulerMessage::Startup => SchedulerAction::StartUp,
        }
    }

    /// Handles a report from the indexing actor: remembers dropped requests until the actor is
    /// idle again, and hands new assets to the driver.
    pub fn on_indexing_msg(&mut self, msg: &MsgFromIndexing) -> (follow_up: IndexingFollowUp)
        requires
            old(self).wf(),
        ensures
            final(self).wf(),
            final(self).waiting_for_shutdown == old(self).waiting_for_shutdown,
            final(self).dropped_image_jobs == old(self).dropped_image_jobs,
            final(self).image_proc@ == old(self).image_proc@,
            final(self).indexing_has_dropped_msgs == match *msg {
                MsgFromIndexing::ActivityChange { running_tasks, queued_tasks } => old(
                    self,
                ).indexing_has_dropped_msgs && !(running_tasks == 0 && queued_tasks == 0),
                MsgFromIndexing::DroppedMessage => true,
                _ => old(self).indexing_has_dropped_msgs,
            },
            follow_up == match *msg {
                MsgFromIndexing::NewAsset(id) => IndexingFollowUp::NewAsset(id),
                _ => IndexingFollowUp::Nothing,
            },
    {
        match msg {
            MsgFromIndexing::ActivityChange { running_tasks, queued_tasks } => {
                let is_idle = *running_tasks == 0 && *queued_tasks == 0;
                if is_idle && self.indexing_has_dropped_msgs {
                    self.indexing_has_dropped_msgs = false;
                }
                IndexingFollowUp::Nothing
            },
            MsgFromIndexing::DroppedMessage => {
                self.indexing_has_dropped_msgs = true;
                IndexingFollowUp::Nothing
            },
            MsgFromIndexing::NewAsset(asset_id) => IndexingFollowUp::NewAsset(*asset_id),
            _ => IndexingFollowUp::Nothing,
        }
    }

    /// Handles the end of the image job `job_id`: the queue moves on, and once it has run
    /// empty after jobs were dropped, the driver is to enqueue every image job that the
    /// catalog requires (the result is `true`).
    pub fn on_image_msg(&mut self, job_id: JobId) -> (enqueue_required: bool)
        requires
            old(self).wf(),
            old(self).image_proc@.running.contains(job_id),
        ensures
            final(self).wf(),
            final(self).waiting_for_shutdown == old(self).waiting_for_shutdown,
            final(self).indexing_has_dropped_msgs == old(self).indexing_has_dropped_msgs,
            final(self).image_proc@ == image_finished_spec(old(self).image_proc@, job_id),
            enqueue_required == (old(self).dropped_image_jobs && queued_count(
                final(self).image_proc@.queue,
            ) == 0),
            final(self).dropped_image_jobs == (old(self).dropped_image_jobs && !enqueue_required),
    {
        proof {
            lemma_dequeue_keeps_flags(
                ImageQueueState {
                    running: self.image_proc@.running.remove_value(job_id),
                    ..self.image_proc@
                },
            );
        }
        self.image_proc.on_job_finished(job_id);
        if self.dropped_image_jobs && self.image_proc.queued() == 0 {
            self.dropped_image_jobs = false;
            true
        } else {
            false
        }
    }
}

/// Once a shutdown is requested, every later message leaves the scheduler as it is and asks
/// nothing of the driver.
pub proof fn lemma_shutdown_is_final(q: ImageQueueState<ImageJob>, msg: SchedulerMessage)
    ensures
        handle_message_spec(true, q, msg) == (true, q, SchedulerAction::Nothing),
{
}

/// A shutdown request cancels every running image job and stops the queue from taking jobs.
pub proof fn lemma_shutdown_cancels(q: ImageQueueState<ImageJob>)
    ensures
        ({
            let (w, q2, a) = handle_message_spec(false, q, SchedulerMessage::Shutdown);
            &&& w
            &&& a == SchedulerAction::ShutDown
            &&& !q2.accepting_new
            &&& q2.running == q.running
            &&& q2.queue == q.queue
        }),
{
}

} // verus!
