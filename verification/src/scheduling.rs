//! Job queues of the background processors and the scheduler's decisions.
pub mod image_processor;
pub mod job_control;
pub mod queue_executor;
pub mod video_processor;
pub mod disk_usage;
pub mod scheduler;
pub mod image_jobs;
