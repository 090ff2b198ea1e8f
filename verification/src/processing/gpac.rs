//! Arguments of the `gpac` runs that index, segment and DASH-package video files.
use vstd::prelude::*;

use crate::text::{int_decimal, write_i64};

verus! {

/// Options of a DASH packaging run.
#[derive(Debug, Clone, PartialEq, Eq)]
pub struct DasherOptions<'a> {
    pub mpd_name: &'a str,
    pub base_url: Option<&'a str>,
    pub segment_duration: i32,
}

/// Neither a video nor an audio track was selected for indexing.
#[derive(Debug, Clone, Copy, PartialEq, Eq, Structural)]
pub struct NoTrackSelected;

/// The input argument of the indexing run of `input` with the selected representations.
/// A lone audio representation is paired with an ignored video one, which keeps segment
/// creation working.
pub open spec fn ghi_input_arg_spec(
    input: Seq<char>,
    video_rep_id: Option<Seq<char>>,
    audio_rep_id: Option<Seq<char>>,
) -> Option<Seq<char>> {
    match (video_rep_id, audio_rep_id) {
        (None, None) => None,
        (Some(v), None) => Some(input + ":#Representation=(video)"@ + v + ":tkid=video"@),
        (None, Some(a)) => Some(input + ":#Representation=(video)ignored,(audio)"@ + a),
        (Some(v), Some(a)) => Some(input + ":#Representation=(video)"@ + v + ",(audio)"@ + a),
    }
}

/// The view of an optional string.
pub open spec fn opt_view(s: Option<&str>) -> Option<Seq<char>> {
    match s {
        None => None,
        Some(s) => Some(s@),
    }
}

/// The input argument of the indexing run of `input` with the selected representations.
pub fn ghi_input_arg(input: &str, video_rep_id: Option<&str>, audio_rep_id: Option<&str>) -> (r:
    Result<String, NoTrackSelected>)
    ensures
        match ghi_input_arg_spec(input@, opt_view(video_rep_id), opt_view(audio_rep_id)) {
            None => r == Err::<String, NoTrackSelected>(NoTrackSelected),
            Some(a) => r matches Ok(s) && s@ == a,
        },
{
    let mut s = String::new();
    s.append(input);
    match (video_rep_id, audio_rep_id) {
        (None, None) => {
            return Err(NoTrackSelected);
        },
        (Some(v), None) => {
            s.append(":#Representation=(video)");
            s.append(v);
            s.append(":tkid=video");
        },
        (None, Some(a)) => {
            s.append(":#Representation=(video)ignored,(audio)");
            s.append(a);
        },
        (Some(v), Some(a)) => {
            s.append(":#Representation=(video)");
            s.append(v);
            s.append(",(audio)");
            s.append(a);
        },
    }
    proof {
        assert(Some(s@) =~~= ghi_input_arg_spec(
            input@,
            opt_view(video_rep_id),
            opt_view(audio_rep_id),
        ));
    }
    Ok(s)
}

/// The output argument of the indexing run: the index file, with segments of
/// `segment_duration` seconds.
pub fn ghi_output_arg(ghi_out_path: &str, segment_duration: i32) -> (s: String)
    ensures
        s@ == ghi_out_path@ + ":stl=true:segdur="@ + int_decimal(segment_duration as int),
{
    let mut s = String::new();
    s.append(ghi_out_path);
    s.append(":stl=true:segdur=");
    write_i64(&mut s, segment_duration as i64);
    proof {
        assert(s@ =~= ghi_out_path@ + ":stl=true:segdur="@ + int_decimal(segment_duration as int));
    }
    s
}

/// The input argument of the manifest run: the index, with all manifests.
pub fn manifest_input_arg(ghi_out_path: &str) -> (s: String)
    ensures
        s@ == ghi_out_path@ + ":gm=all"@,
{
    let mut s = String::new();
    s.append(ghi_out_path);
    s.append(":gm=all");
    s
}

/// The output argument of the manifest run: the manifest with `base` as base URL, else a
/// live profile manifest.
pub fn manifest_output_arg(mpd_out_path: &str, mpd_base_url: Option<&str>) -> (s: String)
    ensures
        match mpd_base_url {
            Some(base) => s@ == mpd_out_path@ + ":base="@ + base@ + ":stl=true"@,
            None => s@ == mpd_out_path@ + ":stl=true:profile=live"@,
        },
{
    let mut s = String::new();
    s.append(mpd_out_path);
    match mpd_base_url {
        Some(base) => {
            s.append(":base=");
            s.append(base);
            s.append(":stl=true");
            proof {
                assert(s@ =~= mpd_out_path@ + ":base="@ + base@ + ":stl=true"@);
            }
        },
        None => {
            s.append(":stl=true:profile=live");
        },
    }
    s
}

/// The input argument of the run that writes segment `segment` (the init segment for 0) of
/// representation `rep_id` from the index.
pub fn segment_input_arg(ghi_path: &str, rep_id: &str, segment: i32) -> (s: String)
    ensures
        segment == 0 ==> s@ == ghi_path@ + ":rep="@ + rep_id@ + ":gm=init"@,
        segment != 0 ==> s@ == ghi_path@ + ":rep="@ + rep_id@ + ":sn="@ + int_decimal(
            segment as int,
        ),
{
    let mut s = String::new();
    s.append(ghi_path);
    s.append(":rep=");
    s.append(rep_id);
    if segment == 0 {
        s.append(":gm=init");
        proof {
            assert(s@ =~= ghi_path@ + ":rep="@ + rep_id@ + ":gm=init"@);
        }
    } else {
        s.append(":sn=");
        write_i64(&mut s, segment as i64);
        proof {
            assert(s@ =~= ghi_path@ + ":rep="@ + rep_id@ + ":sn="@ + int_decimal(segment as int));
        }
    }
    s
}

/// The output argument of a DASH packaging run.
pub fn dasher_output_arg(opts: &DasherOptions) -> (s: String)
    ensures
        s@ == opts.mpd_name@ + ":profile=onDemand"@ + (match opts.base_url {
            Some(url) => ":base="@ + url@,
            None => Seq::empty(),
        }) + ":segdur="@ + int_decimal(opts.segment_duration as int),
{
    let mut s = String::new();
    s.append(opts.mpd_name);
    s.append(":profile=onDemand");
    let ghost mid = s@;
    if let Some(url) = opts.base_url {
        s.append(":base=");
        s.append(url);
    }
    let ghost with_base = s@;
    s.append(":segdur=");
    write_i64(&mut s, opts.segment_duration as i64);
    proof {
        assert(with_base =~= mid + (match opts.base_url {
            Some(url) => ":base="@ + url@,
            None => Seq::empty(),
        }));
        assert(s@ =~= opts.mpd_name@ + ":profile=onDemand"@ + (match opts.base_url {
            Some(url) => ":base="@ + url@,
            None => Seq::empty(),
        }) + ":segdur="@ + int_decimal(opts.segment_duration as int));
    }
    s
}

/// Name of the mp4 file that a DASH packaging run writes for an input with file stem `stem`.
pub fn dash_mp4_name(stem: &str) -> (s: String)
    ensures
        s@ == stem@ + "_dashinit.mp4"@,
{
    let mut s = String::new();
    s.append(stem);
    s.append("_dashinit.mp4");
    s
}

/// Name of the init segment that the manifest run writes for representation `rep_id`.
pub fn init_segment_name(rep_id: &str) -> (s: String)
    ensures
        s@ == rep_id@ + "-init.mp4"@,
{
    let mut s = String::new();
    s.append(rep_id);
    s.append("-init.mp4");
    s
}

/// Whether an init segment counts as written: there is no such representation, or its file
/// was found (`Some`, with its size) and holds more than 100 bytes.
pub open spec fn init_segment_ok(init_segment: Option<Option<u64>>) -> bool {
    match init_segment {
        None => true,
        Some(None) => false,
        Some(Some(size)) => size > 100,
    }
}

/// Whether a manifest run that reported an error wrote everything anyway: the manifest exists
/// and the init segments of the selected representations (`None` for one not selected; else
/// the size of its file, if found) were written.
pub fn manifest_written_despite_error(
    mpd_exists: bool,
    video_init_segment: Option<Option<u64>>,
    audio_init_segment: Option<Option<u64>>,
) -> (b: bool)
    ensures
        b == (mpd_exists && init_segment_ok(video_init_segment) && init_segment_ok(
            audio_init_segment,
        )),
{
    let video_ok = match video_init_segment {
        None => true,
        Some(None) => false,
        Some(Some(size)) => size > 100,
    };
    let audio_ok = match audio_init_segment {
        None => true,
        Some(None) => false,
        Some(Some(size)) => size > 100,
    };
    mpd_exists && video_ok && audio_ok
}

} // verus!
