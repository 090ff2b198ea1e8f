//! Shaka packager runs: the stream argument and the keys of what a run writes.
use vstd::prelude::*;

verus! {

/// Errors of running the Shaka packager.
#[derive(Debug, Clone, Copy, PartialEq, Eq, Structural)]
pub enum ShakaError {
    ErrorStarting,
    TerminatedBySignal,
}

/// Kind of stream that a representation holds.
#[derive(Debug, Clone, Copy, PartialEq, Eq, Structural)]
pub enum RepresentationType {
    Video,
    Audio,
}

/// The Shaka packager.
#[derive(Debug, Clone, Copy, PartialEq, Eq, Structural)]
pub struct ShakaPackager {}

/// A stand-in for the Shaka packager that writes empty outputs.
#[derive(Debug, Clone, Copy, PartialEq, Eq, Structural)]
pub struct ShakaPackagerMock {}

/// What a packager run wrote besides the media file.
#[derive(Debug, Clone, PartialEq, Eq)]
pub struct ShakaResult {
    pub media_info_key: String,
}

/// Name of a stream kind as the packager takes it.
pub open spec fn stream_name(t: RepresentationType) -> Seq<char> {
    match t {
        RepresentationType::Video => "video"@,
        RepresentationType::Audio => "audio"@,
    }
}

/// The stream argument of a packager run that reads `input` and writes the file
/// `output_file_name` (in the run's working directory).
pub fn shaka_stream_arg(input: &str, repr_type: RepresentationType, output_file_name: &str) -> (s: String)
    ensures
        s@ == "in="@ + input@ + ",stream="@ + stream_name(repr_type) + ",output="@
            + output_file_name@,
{
    let stream = match repr_type {
        RepresentationType::Video => "video",
        RepresentationType::Audio => "audio",
    };
    let mut s = String::new();
    s.append("in=");
    s.append(input);
    s.append(",stream=");
    s.append(stream);
    s.append(",output=");
    s.append(output_file_name);
    s
}

/// Key of the media information that a packager run writes beside the media file stored
/// under `output_key`.
pub fn media_info_key(output_key: &str) -> (s: String)
    ensures
        s@ == output_key@ + ".media_info"@,
{
    let mut s = String::new();
    s.append(output_key);
    s.append(".media_info");
    s
}

} // verus!
