//! Media processing: decisions and data formats around the external tools.
pub mod mp4_rotate;
pub mod process_control;
pub mod transcode;
pub mod ffprobe;
pub mod indexing;
pub mod gpac;
pub mod ffmpeg;
pub mod shaka;
pub mod image;
