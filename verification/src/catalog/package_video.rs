//! Video packaging operations: transcodes and DASH packaging of video files.
use vstd::prelude::*;

use crate::catalog::encoding_target::{AudioEncodingTarget, VideoEncodingTarget};
use crate::model::FileId;

verus! {

/// What a packaging operation does.
#[derive(Debug, Clone, Copy, PartialEq, Eq, Structural)]
pub enum PackageVideoTask {
    /// Transcode the video stream and package it for DASH.
    TranscodeVideo(VideoEncodingTarget),
    /// Transcode the audio stream and package it for DASH.
    TranscodeAudio(AudioEncodingTarget),
    /// Package the original streams into DASH segments.
    DashSegment,
    /// Index the original file so that it can be streamed as it is.
    CreateGHIIndex { include_video: bool, include_audio: bool, segment_duration: i32 },
}

/// A packaging operation on a video file.
#[derive(Debug, Clone, PartialEq, Eq)]
pub struct PackageVideo {
    pub file_id: FileId,
    pub repr_name: String,
    pub task: PackageVideoTask,
    pub output_key: String,
}

/// A packaging operation with its strings taken by their characters.
pub ghost struct PackageVideoView {
    pub file_id: FileId,
    pub repr_name: Seq<char>,
    pub task: PackageVideoTask,
    pub output_key: Seq<char>,
}

impl View for PackageVideo {
    type V = PackageVideoView;

    open spec fn view(&self) -> PackageVideoView {
        PackageVideoView {
            file_id: self.file_id,
            repr_name: self.repr_name@,
            task: self.task,
            output_key: self.output_key@,
        }
    }
}

/// The views of a sequence of packaging operations.
pub open spec fn package_views(ops: Seq<PackageVideo>) -> Seq<PackageVideoView> {
    ops.map_values(|p: PackageVideo| p@)
}

} // verus!
