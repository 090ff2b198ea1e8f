use myrti::model::FileId;
use myrti::scheduling::image_processor::ImageJobProcessor;
use myrti::scheduling::job_control::{JobControlMsg, JobId, JobLoop};
use myrti::processing::process_control::ProcessControl;
use myrti::scheduling::queue_executor::BatchQueueExecutor;
use myrti::scheduling::video_processor::VideoJobProcessor;

#[test]
fn image_jobs_for_a_waiting_file_join_its_batch() {
    let mut p: ImageJobProcessor<u32> = ImageJobProcessor::new(1, 3);
    assert_eq!(p.enqueue_job(FileId(1), 10), Ok(JobId(1)));
    assert_eq!(p.enqueue_job(FileId(2), 20), Ok(JobId(2)));
    assert_eq!(p.enqueue_job(FileId(2), 21), Ok(JobId(3)));
    assert_eq!(p.queued(), 2);
    assert_eq!(p.enqueue_job(FileId(3), 30), Ok(JobId(4)));
    assert_eq!(p.enqueue_job(FileId(4), 40), Err(40));
    let started = p.take_started();
    assert_eq!(started.len(), 1);
    assert_eq!(started[0].job, 10);
    p.on_job_finished(JobId(1));
    let started = p.take_started();
    assert_eq!(started.len(), 1);
    assert_eq!(started[0].job_id, JobId(2));
    assert_eq!(started[0].job, 20);
    assert_eq!(p.queued(), 2);
}

#[test]
fn paused_image_queue_refuses_and_holds_jobs() {
    let mut p: ImageJobProcessor<u32> = ImageJobProcessor::new(2, 2);
    assert_eq!(p.enqueue_job(FileId(1), 1), Ok(JobId(1)));
    p.pause_all();
    assert_eq!(p.enqueue_job(FileId(2), 2), Err(2));
    assert_eq!(p.take_control_messages(), vec![(JobId(1), JobControlMsg::Pause)]);
    p.resume_all();
    assert_eq!(p.take_control_messages(), vec![(JobId(1), JobControlMsg::Resume)]);
    p.cancel_all();
    assert_eq!(p.take_control_messages(), vec![(JobId(1), JobControlMsg::Cancel)]);
}

#[test]
fn batch_executor_joins_jobs_of_the_same_file() {
    let mut e: BatchQueueExecutor<u32> = BatchQueueExecutor::new(1, 2);
    assert_eq!(e.enqueue_job(FileId(1), 1), Ok(JobId(1)));
    assert_eq!(e.enqueue_job(FileId(2), 2), Ok(JobId(2)));
    assert_eq!(e.enqueue_job(FileId(2), 3), Ok(JobId(2)));
    assert_eq!(e.enqueue_job(FileId(3), 4), Ok(JobId(3)));
    assert_eq!(e.enqueue_job(FileId(4), 5), Err(5));
    let first = e.take_started();
    assert_eq!(first.len(), 1);
    assert_eq!(first[0].jobs, vec![1]);
    e.on_job_finished(JobId(1));
    let next = e.take_started();
    assert_eq!(next[0].job_id, JobId(2));
    assert_eq!(next[0].file_id, FileId(2));
    assert_eq!(next[0].jobs, vec![2, 3]);
    e.on_job_finished(JobId(77));
    assert_eq!(e.queued(), 1);
}

#[test]
fn video_jobs_run_in_order() {
    let mut p: VideoJobProcessor<&str> = VideoJobProcessor::new(1, 1);
    assert_eq!(p.enqueue_job("a"), Ok(JobId(1)));
    assert_eq!(p.enqueue_job("b"), Ok(JobId(2)));
    assert_eq!(p.enqueue_job("c"), Err("c"));
    assert_eq!(p.take_started(), vec![(JobId(1), "a")]);
    p.on_job_finished(JobId(1));
    assert_eq!(p.take_started(), vec![(JobId(2), "b")]);
    assert_eq!(p.queued(), 0);
}

#[test]
fn job_loop_stops_after_cancel() {
    let mut l = JobLoop::new();
    assert_eq!(l.on_control(JobControlMsg::Pause), Some((ProcessControl::Suspend, false)));
    assert_eq!(l.on_control(JobControlMsg::Cancel), Some((ProcessControl::Quit, true)));
    l.on_delivered(true);
    assert_eq!(l.on_control(JobControlMsg::Resume), None);
    assert!(!l.finished_with_result());
}

#[test]
fn image_job_joins_waiting_batch_even_with_a_free_slot() {
    let mut p: ImageJobProcessor<u32> = ImageJobProcessor::new(1, 5);
    assert_eq!(p.enqueue_job(FileId(1), 1), Ok(JobId(1)));
    assert_eq!(p.enqueue_job(FileId(2), 2), Ok(JobId(2)));
    p.pause_all();
    p.on_job_finished(JobId(1));
    p.resume_all();
    // A slot is free and file 2 waits: the new job joins file 2's batch.
    assert_eq!(p.enqueue_job(FileId(2), 3), Ok(JobId(3)));
    assert_eq!(p.queued(), 2);
    assert_eq!(p.take_started().len(), 1);
    // A file with no waiting batch starts at once.
    assert_eq!(p.enqueue_job(FileId(3), 4), Ok(JobId(4)));
    assert_eq!(p.queued(), 2);
    let started = p.take_started();
    assert_eq!(started.len(), 1);
    assert_eq!(started[0].job, 4);
    assert!(p.is_running(JobId(4)) && !p.is_running(JobId(1)));
}
