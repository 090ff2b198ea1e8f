use myrti::catalog::operation::CreateAssetThumbnail;
use myrti::model::{ThumbnailFormat, ThumbnailType};
use myrti::scheduling::scheduler::NewAssetWork;
use myrti::actor::indexing::MsgFromIndexing;
use myrti::model::{AssetId, AssetRootDirId, FileId};
use myrti::scheduling::image_processor::ImageJob;
use myrti::scheduling::job_control::{JobControlMsg, JobId};
use myrti::scheduling::scheduler::{
    IndexingFollowUp, Scheduler, SchedulerAction, SchedulerMessage, UserRequest,
};

#[test]
fn user_requests_become_actions() {
    let mut s = Scheduler::new();
    assert_eq!(
        s.handle_message(SchedulerMessage::UserRequest(UserRequest::ReindexAssetRoot(AssetRootDirId(3)))),
        SchedulerAction::IndexAssetRoot(AssetRootDirId(3))
    );
    assert_eq!(
        s.handle_message(SchedulerMessage::UserRequest(UserRequest::DisableGhiStreaming(vec![FileId(1)]))),
        SchedulerAction::DisableGhiStreaming(vec![FileId(1)])
    );
    assert_eq!(
        s.handle_message(SchedulerMessage::UserRequest(UserRequest::RegenerateThumbnails(None))),
        SchedulerAction::RegenerateThumbnails(None)
    );
    assert_eq!(s.handle_message(SchedulerMessage::Startup), SchedulerAction::StartUp);
    assert_eq!(s.handle_message(SchedulerMessage::Timer), SchedulerAction::Nothing);
}

#[test]
fn shutdown_cancels_jobs_and_ignores_later_messages() {
    let mut s = Scheduler::new();
    s.enqueue_image_job(FileId(1), ImageJob::CreateThumbhash);
    let started = s.image_proc.take_started();
    assert_eq!(started.len(), 1);
    assert_eq!(s.handle_message(SchedulerMessage::Shutdown), SchedulerAction::ShutDown);
    assert!(s.waiting_for_shutdown);
    assert_eq!(s.image_proc.take_control_messages(), vec![(started[0].job_id, JobControlMsg::Cancel)]);
    assert_eq!(s.handle_message(SchedulerMessage::Startup), SchedulerAction::Nothing);
    assert_eq!(s.handle_message(SchedulerMessage::PauseVideoPackaging), SchedulerAction::Nothing);
    assert_eq!(s.handle_message(SchedulerMessage::Shutdown), SchedulerAction::Nothing);
}

#[test]
fn pause_and_resume_reach_running_jobs() {
    let mut s = Scheduler::new();
    s.enqueue_image_job(FileId(1), ImageJob::CreateThumbhash);
    let id = s.image_proc.take_started()[0].job_id;
    s.handle_message(SchedulerMessage::PauseAllProcessing);
    s.enqueue_image_job(FileId(2), ImageJob::CreateThumbhash);
    assert!(s.dropped_image_jobs);
    s.handle_message(SchedulerMessage::ResumeAllProcessing);
    assert_eq!(
        s.image_proc.take_control_messages(),
        vec![(id, JobControlMsg::Pause), (id, JobControlMsg::Resume)]
    );
}

#[test]
fn dropped_jobs_are_requested_again_once_the_queue_is_empty() {
    let mut s = Scheduler::new();
    s.handle_message(SchedulerMessage::PauseAllProcessing);
    s.enqueue_image_job(FileId(1), ImageJob::CreateThumbhash);
    assert!(s.dropped_image_jobs);
    s.handle_message(SchedulerMessage::ResumeAllProcessing);
    s.enqueue_image_jobs(vec![(FileId(2), ImageJob::CreateThumbhash)]);
    let id = s.image_proc.take_started()[0].job_id;
    assert_eq!(id, JobId(1));
    assert!(s.on_image_msg(id));
    assert!(!s.dropped_image_jobs);
}

#[test]
fn indexing_reports() {
    let mut s = Scheduler::new();
    assert_eq!(s.on_indexing_msg(&MsgFromIndexing::DroppedMessage), IndexingFollowUp::Nothing);
    assert!(s.indexing_has_dropped_msgs);
    s.on_indexing_msg(&MsgFromIndexing::ActivityChange { running_tasks: 1, queued_tasks: 0 });
    assert!(s.indexing_has_dropped_msgs);
    s.on_indexing_msg(&MsgFromIndexing::ActivityChange { running_tasks: 0, queued_tasks: 0 });
    assert!(!s.indexing_has_dropped_msgs);
    assert_eq!(
        s.on_indexing_msg(&MsgFromIndexing::NewAsset(AssetId(4))),
        IndexingFollowUp::NewAsset(AssetId(4))
    );
}

#[test]
fn required_jobs_are_enqueued_in_order() {
    let mut s = Scheduler::new();
    s.enqueue_required_image_jobs(
        vec![FileId(1)],
        vec![CreateAssetThumbnail {
            file_id: FileId(2),
            formats: vec![ThumbnailFormat::Webp],
            thumbnail_types: vec![ThumbnailType::SmallSquare],
        }],
        vec![],
        vec![],
    );
    let started = s.image_proc.take_started();
    assert_eq!(started.len(), 2);
    assert_eq!(started[0].file_id, FileId(1));
    assert!(matches!(started[0].job, ImageJob::CreateThumbhash));
    assert_eq!(started[1].file_id, FileId(2));
    match &started[1].job {
        ImageJob::CreateThumbnail { thumbnail_types, formats } => {
            assert_eq!(thumbnail_types, &vec![ThumbnailType::SmallSquare]);
            assert_eq!(formats, &vec![ThumbnailFormat::Webp]);
        }
        _ => panic!("expected a thumbnail job"),
    }
}

#[test]
fn new_image_asset_gets_thumbhash_and_no_empty_thumbnail_job() {
    let mut s = Scheduler::new();
    s.on_new_asset_indexed(
        CreateAssetThumbnail { file_id: FileId(3), formats: vec![], thumbnail_types: vec![] },
        NewAssetWork::Image { conversions: vec![], rep_file_id: FileId(3) },
    );
    let started = s.image_proc.take_started();
    assert_eq!(started.len(), 1);
    assert!(matches!(started[0].job, ImageJob::CreateThumbhash));
}
