//! Reading the disk usage report of `df` and deciding whether the disk is almost full.
use vstd::prelude::*;

use crate::text::{chars_of, parse_u64_chars, parse_u64_spec, string_from_chars};

verus! {

/// Block size that `df` is asked to report in (`10^6` bytes), and the suffix of its numbers.
pub fn df_block_size() -> (s: &'static str)
    ensures
        s@ == "MB"@,
{
    "MB"
}

/// Free space, in `10^6` bytes, under which the disk counts as almost full.
pub const ALMOST_FULL_AVAIL_MB: u64 = 5000;

/// One file system line of a `df` report.
#[derive(Debug, Clone, PartialEq, Eq)]
pub struct DfOutput {
    pub fs_source: String,
    pub fs_type: String,
    pub size_mb: u64,
    pub used_mb: u64,
    pub avail_mb: u64,
}

/// A `df` report line with its strings taken by their characters.
pub ghost struct DfView {
    pub fs_source: Seq<char>,
    pub fs_type: Seq<char>,
    pub size_mb: u64,
    pub used_mb: u64,
    pub avail_mb: u64,
}

impl View for DfOutput {
    type V = DfView;

    open spec fn view(&self) -> DfView {
        DfView {
            fs_source: self.fs_source@,
            fs_type: self.fs_type@,
            size_mb: self.size_mb,
            used_mb: self.used_mb,
            avail_mb: self.avail_mb,
        }
    }
}

/// ASCII white space as `str::split_ascii_whitespace` splits on it.
pub open spec fn is_ascii_ws(c: char) -> bool {
    c == ' ' || c == '\t' || c == '\n' || c == '\x0C' || c == '\r'
}

/// Index of the first `c` in `s` at or after `i`, if any.
pub open spec fn find_char(s: Seq<char>, c: char, i: nat) -> Option<nat>
    decreases s.len() - i,
{
    if i >= s.len() {
        None
    } else if s[i as int] == c {
        Some(i)
    } else {
        find_char(s, c, i + 1)
    }
}

/// First index at or after `i` that is not white space (or the end).
pub open spec fn skip_ws(s: Seq<char>, i: nat) -> nat
    decreases s.len() - i,
{
    if i < s.len() && is_ascii_ws(s[i as int]) {
        skip_ws(s, i + 1)
    } else {
        i
    }
}

/// First index at or after `i` that is white space (or the end).
pub open spec fn word_end(s: Seq<char>, i: nat) -> nat
    decreases s.len() - i,
{
    if i < s.len() && !is_ascii_ws(s[i as int]) {
        word_end(s, i + 1)
    } else {
        i
    }
}

/// Start and end of the next white-space separated word at or after `i`, if there is one.
pub open spec fn next_word(s: Seq<char>, i: nat) -> Option<(nat, nat)> {
    let start = skip_ws(s, i);
    if start < s.len() {
        Some((start, word_end(s, start)))
    } else {
        None
    }
}

/// The characters of `s` from `w.0` to `w.1`.
pub open spec fn word_of(s: Seq<char>, w: (nat, nat)) -> Seq<char> {
    s.subrange(w.0 as int, w.1 as int)
}

/// A number of `10^6` bytes as `df` writes it: decimal digits followed by `MB`.
pub open spec fn mb_value(w: Seq<char>) -> Option<u64> {
    if w.len() >= 2 && w[w.len() - 2] == 'M' && w[w.len() - 1] == 'B' {
        parse_u64_spec(w.subrange(0, w.len() - 2))
    } else {
        None
    }
}

/// The report line of `df --output=source,fstype,size,used,avail -B MB`: after the header
/// line, the first five words are source, type, size, used and available space.
pub open spec fn parse_df_spec(s: Seq<char>) -> Option<DfView> {
    match find_char(s, '\n', 0) {
        None => None,
        Some(nl) => {
            let v = s.subrange(nl + 1 as int, s.len() as int);
            match next_word(v, 0) {
                None => None,
                Some(w1) => match next_word(v, w1.1) {
                    None => None,
                    Some(w2) => match next_word(v, w2.1) {
                        None => None,
                        Some(w3) => match next_word(v, w3.1) {
                            None => None,
                            Some(w4) => match next_word(v, w4.1) {
                                None => None,
                                Some(w5) => match (
                                    mb_value(word_of(v, w3)),
                                    mb_value(word_of(v, w4)),
                                    mb_value(word_of(v, w5)),
                                ) {
                                    (Some(size), Some(used), Some(avail)) => Some(
                                        DfView {
                                            fs_source: word_of(v, w1),
                                            fs_type: word_of(v, w2),
                                            size_mb: size,
                                            used_mb: used,
                                            avail_mb: avail,
                                        },
                                    ),
                                    _ => None,
                                },
                            },
                        },
                    },
                },
            }
        },
    }
}

proof fn lemma_skip_ws_bounds(s: Seq<char>, i: nat)
    ensures
        i <= skip_ws(s, i),
        i <= s.len() ==> skip_ws(s, i) <= s.len(),
    decreases s.len() - i,
{
    if i < s.len() && is_ascii_ws(s[i as int]) {
        lemma_skip_ws_bounds(s, i + 1);
    }
}

proof fn lemma_word_end_bounds(s: Seq<char>, i: nat)
    ensures
        i <= word_end(s, i),
        i <= s.len() ==> word_end(s, i) <= s.len(),
    decreases s.len() - i,
{
    if i < s.len() && !is_ascii_ws(s[i as int]) {
        lemma_word_end_bounds(s, i + 1);
    }
}

fn is_ws(c: char) -> (b: bool)
    ensures
        b == is_ascii_ws(c),
{
    c == ' ' || c == '\t' || c == '\n' || c == '\x0C' || c == '\r'
}

/// Index of the first `c` in `cs`, if any.
fn find_char_exec(cs: &Vec<char>, c: char) -> (r: Option<usize>)
    ensures
        match r {
            None => find_char(cs@, c, 0) is None,
            Some(k) => find_char(cs@, c, 0) == Some(k as nat),
        },
{
    let mut i: usize = 0;
    while i < cs.len()
        invariant
            i <= cs@.len(),
            find_char(cs@, c, 0) == find_char(cs@, c, i as nat),
        decreases cs@.len() - i,
    {
        if cs[i] == c {
            return Some(i);
        }
        i = i + 1;
    }
    None
}

/// The next word of `cs` at or after `i`.
fn next_word_exec(cs: &Vec<char>, i: usize) -> (r: Option<(usize, usize)>)
    requires
        i <= cs@.len(),
    ensures
        match r {
            None => next_word(cs@, i as nat) is None,
            Some((a, b)) => next_word(cs@, i as nat) == Some((a as nat, b as nat)) && a < b
                <= cs@.len(),
        },
{
    let mut start = i;
    while start < cs.len() && is_ws(cs[start])
        invariant
            i <= start <= cs@.len(),
            skip_ws(cs@, i as nat) == skip_ws(cs@, start as nat),
        decreases cs@.len() - start,
    {
        start = start + 1;
    }
    if start >= cs.len() {
        return None;
    }
    let mut end = start;
    while end < cs.len() && !is_ws(cs[end])
        invariant
            start <= end <= cs@.len(),
            word_end(cs@, start as nat) == word_end(cs@, end as nat),
        decreases cs@.len() - end,
    {
        end = end + 1;
    }
    proof {
        assert(!is_ascii_ws(cs@[start as int]));
        assert(word_end(cs@, start as nat) == word_end(cs@, (start + 1) as nat));
        lemma_word_end_bounds(cs@, (start + 1) as nat);
    }
    Some((start, end))
}

/// A `df` number of `10^6` bytes in `cs[a..b]`.
fn mb_value_exec(cs: &Vec<char>, a: usize, b: usize) -> (r: Option<u64>)
    requires
        a <= b <= cs@.len(),
    ensures
        r == mb_value(cs@.subrange(a as int, b as int)),
{
    let ghost w = cs@.subrange(a as int, b as int);
    if b - a >= 2 && cs[b - 2] == 'M' && cs[b - 1] == 'B' {
        proof {
            assert(w[w.len() - 2] == cs@[b - 2]);
            assert(w[w.len() - 1] == cs@[b - 1]);
            assert(w.subrange(0, w.len() - 2) =~= cs@.subrange(a as int, b - 2));
        }
        parse_u64_chars(cs, a, b - 2)
    } else {
        proof {
            if w.len() >= 2 {
                assert(w[w.len() - 2] == cs@[b - 2]);
                assert(w[w.len() - 1] == cs@[b - 1]);
            }
        }
        None
    }
}

/// Reads the file system line of a `df --output=source,fstype,size,used,avail -B MB` report.
pub fn parse_df_output(output: &str) -> (r: Option<DfOutput>)
    ensures
        match r {
            None => parse_df_spec(output@) is None,
            Some(d) => parse_df_spec(output@) == Some(d@),
        },
{
    let all = chars_of(output);
    let found = find_char_exec(&all, '\n');
    proof {
        lemma_find_char_bound(all@, '\n', 0);
    }
    let nl = match found {
        None => return None,
        Some(nl) => nl,
    };
    assert(find_char(all@, '\n', 0) == Some(nl as nat));
    assert(nl < all.len());
    let mut cs: Vec<char> = Vec::new();
    let mut i = nl + 1;
    while i < all.len()
        invariant
            nl < all@.len(),
            nl + 1 <= i <= all@.len(),
            cs@ == all@.subrange(nl + 1, i as int),
        decreases all@.len() - i,
    {
        cs.push(all[i]);
        i = i + 1;
        proof {
            assert(cs@ =~= all@.subrange(nl + 1, i as int));
        }
    }
    let ghost v = all@.subrange(nl + 1, all@.len() as int);
    assert(cs@ == v);
    let (a1, b1) = match next_word_exec(&cs, 0) {
        None => return None,
        Some(w) => w,
    };
    let (a2, b2) = match next_word_exec(&cs, b1) {
        None => return None,
        Some(w) => w,
    };
    let (a3, b3) = match next_word_exec(&cs, b2) {
        None => return None,
        Some(w) => w,
    };
    let size_mb = match mb_value_exec(&cs, a3, b3) {
        None => {
            proof {
                assert(word_of(v, (a3 as nat, b3 as nat)) == cs@.subrange(a3 as int, b3 as int));
                match next_word(v, b3 as nat) {
                    None => {},
                    Some(w4) => {
                        match next_word(v, w4.1) {
                            None => {},
                            Some(w5) => {},
                        }
                    },
                }
            }
            return None;
        },
        Some(n) => n,
    };
    let (a4, b4) = match next_word_exec(&cs, b3) {
        None => return None,
        Some(w) => w,
    };
    let used_mb = match mb_value_exec(&cs, a4, b4) {
        None => {
            proof {
                match next_word(v, b4 as nat) {
                    None => {},
                    Some(w5) => {},
                }
            }
            return None;
        },
        Some(n) => n,
    };
    let (a5, b5) = match next_word_exec(&cs, b4) {
        None => return None,
        Some(w) => w,
    };
    let avail_mb = match mb_value_exec(&cs, a5, b5) {
        None => return None,
        Some(n) => n,
    };
    let fs_source = string_from_chars(&cs, a1, b1);
    let fs_type = string_from_chars(&cs, a2, b2);
    Some(DfOutput { fs_source, fs_type, size_mb, used_mb, avail_mb })
}

proof fn lemma_find_char_bound(s: Seq<char>, c: char, i: nat)
    ensures
        find_char(s, c, i) matches Some(k) ==> i <= k < s.len() && s[k as int] == c,
    decreases s.len() - i,
{
    if i < s.len() && s[i as int] != c {
        lemma_find_char_bound(s, c, i + 1);
    }
}

/// Whether the disk whose `df` report line is `df` is almost full.
pub fn disk_almost_full(df: &DfOutput) -> (b: bool)
    ensures
        b == (df.avail_mb < ALMOST_FULL_AVAIL_MB),
{
    df.avail_mb < ALMOST_FULL_AVAIL_MB
}

} // verus!
