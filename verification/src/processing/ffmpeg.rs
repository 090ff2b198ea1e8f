//! Command lines of FFmpeg runs.
use vstd::prelude::*;

verus! {

/// Inputs and outputs of an external command.
pub trait CommandInputOutput {}

/// A stand-in for FFmpeg that writes empty outputs.
#[derive(Debug, Clone, Copy, PartialEq, Eq, Structural)]
pub struct FFmpegMock {}

/// The views of a sequence of strings.
pub open spec fn strings_view(v: Seq<String>) -> Seq<Seq<char>> {
    v.map_values(|s: String| s@)
}

/// Appends each string of `items` to `out`.
fn push_all(out: &mut Vec<String>, items: &Vec<String>)
    ensures
        strings_view(final(out)@) == strings_view(old(out)@) + strings_view(items@),
{
    let ghost start = strings_view(out@);
    let mut i: usize = 0;
    while i < items.len()
        invariant
            i <= items@.len(),
            strings_view(out@) == start + strings_view(items@.subrange(0, i as int)),
        decreases items@.len() - i,
    {
        let ghost before = out@;
        out.push(items[i].clone());
        proof {
            assert(strings_view(out@) =~= strings_view(before).push(items@[i as int]@));
            assert(strings_view(items@.subrange(0, i + 1)) =~= strings_view(
                items@.subrange(0, i as int),
            ).push(items@[i as int]@));
        }
        i = i + 1;
    }
    proof {
        assert(items@.subrange(0, items@.len() as int) =~= items@);
    }
}

/// The arguments of an FFmpeg run that reads `input` and writes `output`: no standard input,
/// overwrite, the flags before the input, the input, the flags, the output.
pub fn ffmpeg_args(input: &str, output: &str, pre_input_flags: &Vec<String>, flags: &Vec<String>) -> (args: Vec<String>)
    ensures
        strings_view(args@) == seq!["-nostdin"@, "-y"@] + strings_view(pre_input_flags@) + seq![
            "-i"@,
            input@,
        ] + strings_view(flags@) + seq![output@],
{
    let mut args: Vec<String> = Vec::new();
    args.push("-nostdin".to_owned());
    args.push("-y".to_owned());
    proof {
        assert(strings_view(args@) =~= seq!["-nostdin"@, "-y"@]);
    }
    push_all(&mut args, pre_input_flags);
    let ghost a1 = strings_view(args@);
    args.push("-i".to_owned());
    args.push(input.to_owned());
    proof {
        assert(strings_view(args@) =~= a1 + seq!["-i"@, input@]);
    }
    push_all(&mut args, flags);
    let ghost a2 = strings_view(args@);
    args.push(output.to_owned());
    proof {
        assert(strings_view(args@) =~= a2.push(output@));
        assert(strings_view(args@) =~= seq!["-nostdin"@, "-y"@] + strings_view(pre_input_flags@)
            + seq!["-i"@, input@] + strings_view(flags@) + seq![output@]);
    }
    args
}

} // verus!
