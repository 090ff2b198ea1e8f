//! Locating the transform matrix of the first video track of an MP4 file.
//!
//! The walk visits one box per step. The caller reads, at [`Mp4Walker::position`],
//! [`WINDOW_LEN`] bytes of the file (fewer only where the file ends) and hands them to
//! [`Mp4Walker::step`]; the walk visits at most [`MAX_STEPS`] boxes.
use vstd::prelude::*;

verus! {

/// Number of bytes from the start of a box that one step may read.
pub const WINDOW_LEN: u64 = 104;

/// Number of boxes visited before giving up.
pub const MAX_STEPS: u32 = 1000;

/// Rotation that a track's transform matrix describes.
#[derive(Debug, Clone, Copy, PartialEq, Eq, Structural)]
pub enum Rotation {
    R0,
    R90,
    R180,
    R270,
}

/// Why the walk failed.
#[derive(Debug, Clone, Copy, PartialEq, Eq, Structural)]
pub enum Mp4Error {
    /// The file ended inside a box header or a field that was read.
    UnexpectedEof,
    /// A box ends past the end of the file (its end offset is given when it fits in `u64`).
    BoxPastEnd,
    /// A box type holds a byte that is not an ASCII letter or digit.
    InvalidBoxType,
    /// A track header has a version other than 0 or 1.
    InvalidTkhdVersion(u8),
    /// A track header holds a matrix that is not one of the four rotations.
    InvalidRotationMatrix,
    /// No video track with a transform matrix was found within [`MAX_STEPS`] boxes.
    NotFound,
}

/// Result of one step of the walk.
#[derive(Debug, Clone, Copy, PartialEq, Eq, Structural)]
pub enum WalkStep {
    /// Read the next window at the new position.
    Continue,
    /// The matrix of the first video track starts at this offset and describes this rotation.
    Found(u64, Rotation),
    Failed(Mp4Error),
}

/// The nine entries of the transform matrix of a rotation.
pub open spec fn rotation_matrix(r: Rotation) -> Seq<i32> {
    match r {
        Rotation::R0 => seq![0x00010000i32, 0, 0, 0, 0x00010000, 0, 0, 0, 0x40000000],
        Rotation::R90 => seq![0i32, 0x00010000, 0, -0x00010000i32, 0, 0, 0, 0, 0x40000000],
        Rotation::R180 => seq![-0x00010000i32, 0, 0, 0, -0x00010000i32, 0, 0, 0, 0x40000000],
        Rotation::R270 => seq![0i32, -0x00010000i32, 0, 0x00010000, 0, 0, 0, 0, 0x40000000],
    }
}

/// The rotation whose matrix is `m`, if any.
pub open spec fn matrix_rotation(m: Seq<i32>) -> Option<Rotation> {
    if m == rotation_matrix(Rotation::R0) {
        Some(Rotation::R0)
    } else if m == rotation_matrix(Rotation::R90) {
        Some(Rotation::R90)
    } else if m == rotation_matrix(Rotation::R180) {
        Some(Rotation::R180)
    } else if m == rotation_matrix(Rotation::R270) {
        Some(Rotation::R270)
    } else {
        None
    }
}

/// Big-endian unsigned value of `w[off..off+n]`.
pub open spec fn be_value(w: Seq<u8>, off: int, n: nat) -> nat
    decreases n,
{
    if n == 0 {
        0
    } else {
        be_value(w, off, (n - 1) as nat) * 256 + w[off + n - 1] as nat
    }
}

/// Big-endian two's complement `i32` at `w[off..off+4]`.
pub open spec fn be_i32(w: Seq<u8>, off: int) -> int {
    let v = be_value(w, off, 4);
    if v < 0x8000_0000 {
        v as int
    } else {
        v - 0x1_0000_0000
    }
}

/// The nine matrix entries stored at `w[off..off+36]`.
pub open spec fn matrix_at(w: Seq<u8>, off: int) -> Seq<i32> {
    Seq::new(9, |i: int| be_i32(w, off + 4 * i) as i32)
}

/// Whether `c` is an ASCII letter or digit.
pub open spec fn is_ascii_alnum(c: u8) -> bool {
    (48 <= c <= 57) || (65 <= c <= 90) || (97 <= c <= 122)
}

pub open spec fn kind_is(w: Seq<u8>, k: Seq<u8>) -> bool {
    w.subrange(4, 8) == k
}

pub open spec fn hdlr() -> Seq<u8> {
    seq![104u8, 100, 108, 114]
}

pub open spec fn tkhd() -> Seq<u8> {
    seq![116u8, 107, 104, 100]
}

pub open spec fn moov() -> Seq<u8> {
    seq![109u8, 111, 111, 118]
}

pub open spec fn trak() -> Seq<u8> {
    seq![116u8, 114, 97, 107]
}

pub open spec fn mdia() -> Seq<u8> {
    seq![109u8, 100, 105, 97]
}

pub open spec fn vide() -> Seq<u8> {
    seq![118u8, 105, 100, 101]
}

/// The abstract state of the walk.
pub ghost struct WalkState {
    pub file_size: nat,
    /// Ends of the boxes that enclose the position, innermost last.
    pub stack: Seq<nat>,
    pub pos: nat,
    pub matrix_offset: Option<(nat, Rotation)>,
    pub steps: nat,
    pub done: bool,
}

/// `stack` without the boxes that end at or before `pos`.
pub open spec fn pop_finished(stack: Seq<nat>, pos: nat) -> Seq<nat>
    decreases stack.len(),
{
    if stack.len() > 0 && pos >= stack.last() {
        pop_finished(stack.drop_last(), pos)
    } else {
        stack
    }
}

/// Length of the box header in `w`: 16 for a box with a 64-bit size, else 8.
pub open spec fn header_len(w: Seq<u8>) -> nat {
    if be_value(w, 0, 4) == 1 {
        16
    } else {
        8
    }
}

/// Size of the box whose header is `w` at `pos`, inside enclosing boxes `stack`.
pub open spec fn box_size(w: Seq<u8>, stack: Seq<nat>, pos: nat) -> int {
    let s = be_value(w, 0, 4);
    if s == 0 {
        stack.last() - pos
    } else if s == 1 {
        be_value(w, 8, 8) as int
    } else {
        s as int
    }
}

/// One step of the walk on the window `w` read at `s.pos`: the next state and the result.
pub open spec fn walk_step_spec(s: WalkState, w: Seq<u8>) -> (WalkState, WalkStep) {
    let stack = pop_finished(s.stack, s.pos);
    let fail = |e: Mp4Error| (WalkState { done: true, ..s }, WalkStep::Failed(e));
    if w.len() < 8 || (be_value(w, 0, 4) == 1 && w.len() < 16) {
        fail(Mp4Error::UnexpectedEof)
    } else {
        let h = header_len(w) as int;
        let size = box_size(w, stack, s.pos);
        let end = s.pos + size;
        if end > s.file_size {
            fail(Mp4Error::BoxPastEnd)
        } else if !(is_ascii_alnum(w[4]) && is_ascii_alnum(w[5]) && is_ascii_alnum(w[6])
            && is_ascii_alnum(w[7])) {
            fail(Mp4Error::InvalidBoxType)
        } else {
            let stack2 = stack.push(end as nat);
            let steps = s.steps + 1;
            let next = |pos: int, mo: Option<(nat, Rotation)>|
                if steps >= MAX_STEPS {
                    (
                        WalkState { stack: stack2, pos: pos as nat, matrix_offset: mo, steps, done: true, ..s },
                        WalkStep::Failed(Mp4Error::NotFound),
                    )
                } else {
                    (
                        WalkState { stack: stack2, pos: pos as nat, matrix_offset: mo, steps, ..s },
                        WalkStep::Continue,
                    )
                };
            if kind_is(w, hdlr()) {
                if w.len() < h + 12 {
                    fail(Mp4Error::UnexpectedEof)
                } else if w.subrange(h + 8, h + 12) == vide() && s.matrix_offset is Some {
                    let (o, r) = s.matrix_offset.unwrap();
                    (WalkState { done: true, ..s }, WalkStep::Found(o as u64, r))
                } else {
                    next(end, s.matrix_offset)
                }
            } else if kind_is(w, tkhd()) {
                if w.len() < h + 1 {
                    fail(Mp4Error::UnexpectedEof)
                } else if w[h as int] != 0 && w[h as int] != 1 {
                    fail(Mp4Error::InvalidTkhdVersion(w[h as int]))
                } else {
                    let moff = if w[h as int] == 0 { h + 40 } else { h + 52 };
                    if w.len() < moff + 36 {
                        fail(Mp4Error::UnexpectedEof)
                    } else {
                        match matrix_rotation(matrix_at(w, moff)) {
                            None => fail(Mp4Error::InvalidRotationMatrix),
                            Some(r) => next(end, Some(((s.pos + moff) as nat, r))),
                        }
                    }
                }
            } else if kind_is(w, moov()) || kind_is(w, trak()) || kind_is(w, mdia()) {
                next(s.pos + h, s.matrix_offset)
            } else {
                next(end, s.matrix_offset)
            }
        }
    }
}

/// The walker's invariant.
pub open spec fn walk_wf(s: WalkState) -> bool {
    &&& s.stack.len() > 0
    &&& s.stack[0] == s.file_size
    &&& s.file_size <= u64::MAX
    &&& s.pos <= s.file_size
    &&& (forall|i: int| 0 <= i < s.stack.len() ==> #[trigger] s.stack[i] <= s.file_size)
    &&& s.steps < MAX_STEPS
    &&& (s.matrix_offset matches Some((o, _)) ==> o <= u64::MAX)
}

/// Walker over the boxes of an MP4 file.
pub struct Mp4Walker {
    file_size: u64,
    stack: Vec<u64>,
    pos: u64,
    matrix_offset: Option<(u64, Rotation)>,
    steps: u32,
    done: bool,
}

impl View for Mp4Walker {
    type V = WalkState;

    closed spec fn view(&self) -> WalkState {
        WalkState {
            file_size: self.file_size as nat,
            stack: self.stack@.map_values(|e: u64| e as nat),
            pos: self.pos as nat,
            matrix_offset: match self.matrix_offset {
                Some((o, r)) => Some((o as nat, r)),
                None => None,
            },
            steps: self.steps as nat,
            done: self.done,
        }
    }
}

/// `256^n`.
pub open spec fn pow256(n: nat) -> nat
    decreases n,
{
    if n == 0 {
        1
    } else {
        256 * pow256((n - 1) as nat)
    }
}

proof fn lemma_be_value_bound(w: Seq<u8>, off: int, n: nat)
    ensures
        be_value(w, off, n) < pow256(n),
    decreases n,
{
    if n > 0 {
        lemma_be_value_bound(w, off, (n - 1) as nat);
        let p = pow256((n - 1) as nat);
        let v = be_value(w, off, (n - 1) as nat);
        let b = w[off + n - 1] as nat;
        assert(v * 256 + b < 256 * p) by (nonlinear_arith)
            requires
                v < p,
                b < 256,
        ;
    }
}

/// Big-endian value of `w[off..off+n]`.
fn be_at(w: &[u8], off: usize, n: usize) -> (v: u64)
    requires
        off + n <= w@.len(),
        n <= 8,
    ensures
        v == be_value(w@, off as int, n as nat),
{
    let mut acc: u64 = 0;
    let mut k: usize = 0;
    let wl = w.len();
    proof {
        reveal_with_fuel(pow256, 9);
    }
    while k < n
        invariant
            k <= n <= 8,
            wl == w@.len(),
            off + n <= w@.len(),
            acc == be_value(w@, off as int, k as nat),
            pow256(8) == 0x1_0000_0000_0000_0000,
        decreases n - k,
    {
        proof {
            lemma_be_value_bound(w@, off as int, k as nat);
            lemma_pow256_mono((k + 1) as nat, 8);
            let p = pow256(k as nat);
            assert(pow256((k + 1) as nat) == 256 * p);
            let b = w@[off + k] as nat;
            assert(acc * 256 + b < 256 * p) by (nonlinear_arith)
                requires
                    acc < p,
                    b < 256,
            ;
            assert(acc * 256 + b < 0x1_0000_0000_0000_0000);
            assert(acc * 256 < 0x1_0000_0000_0000_0000);
        }
        let byte = w[off + k] as u64;
        let shifted = acc * 256;
        acc = shifted + byte;
        k = k + 1;
    }
    acc
}

proof fn lemma_pow256_mono(a: nat, b: nat)
    requires
        a <= b,
    ensures
        pow256(a) <= pow256(b),
    decreases b,
{
    if a < b {
        lemma_pow256_mono(a, (b - 1) as nat);
    }
}

/// Two's complement reading of a 32-bit value.
fn to_i32(v: u64) -> (r: i32)
    requires
        v < 0x1_0000_0000,
    ensures
        r as int == (if v < 0x8000_0000 { v as int } else { v - 0x1_0000_0000 }),
{
    if v < 0x8000_0000 {
        v as i32
    } else {
        let x: i64 = (v as i64) - 0x1_0000_0000i64;
        x as i32
    }
}

/// The nine matrix entries stored at `w[off..off+36]`.
fn read_matrix(w: &[u8], off: usize) -> (m: Vec<i32>)
    requires
        off + 36 <= w@.len(),
    ensures
        m@ == matrix_at(w@, off as int),
{
    let mut m: Vec<i32> = Vec::new();
    let mut i: usize = 0;
    let wl = w.len();
    while i < 9
        invariant
            i <= 9,
            wl == w@.len(),
            off + 36 <= w@.len(),
            m@ == matrix_at(w@, off as int).subrange(0, i as int),
        decreases 9 - i,
    {
        let v = be_at(w, off + 4 * i, 4);
        proof {
            lemma_be_value_bound(w@, off + 4 * i, 4);
            reveal_with_fuel(pow256, 5);
        }
        let e = to_i32(v);
        m.push(e);
        i = i + 1;
        proof {
            assert(m@ =~= matrix_at(w@, off as int).subrange(0, i as int));
        }
    }
    proof {
        assert(m@ =~= matrix_at(w@, off as int));
    }
    m
}

/// The transform matrix of a rotation.
pub fn rotation_matrix_vec(r: Rotation) -> (m: Vec<i32>)
    ensures
        m@ == rotation_matrix(r),
{
    let m = match r {
        Rotation::R0 => vec![0x00010000i32, 0, 0, 0, 0x00010000, 0, 0, 0, 0x40000000],
        Rotation::R90 => vec![0i32, 0x00010000, 0, -0x00010000i32, 0, 0, 0, 0, 0x40000000],
        Rotation::R180 => vec![-0x00010000i32, 0, 0, 0, -0x00010000i32, 0, 0, 0, 0x40000000],
        Rotation::R270 => vec![0i32, -0x00010000i32, 0, 0x00010000, 0, 0, 0, 0, 0x40000000],
    };
    proof {
        assert(m@ =~= rotation_matrix(r));
    }
    m
}

fn same_entries(a: &Vec<i32>, b: &Vec<i32>) -> (r: bool)
    ensures
        r == (a@ == b@),
{
    if a.len() != b.len() {
        return false;
    }
    let mut i: usize = 0;
    while i < a.len()
        invariant
            i <= a@.len(),
            a@.len() == b@.len(),
            forall|k: int| 0 <= k < i ==> a@[k] == b@[k],
        decreases a@.len() - i,
    {
        if a[i] != b[i] {
            return false;
        }
        i = i + 1;
    }
    proof {
        assert(a@ =~= b@);
    }
    true
}

/// The rotation whose matrix is `m`, if any.
fn classify_matrix(m: &Vec<i32>) -> (r: Option<Rotation>)
    ensures
        r == matrix_rotation(m@),
{
    if same_entries(m, &rotation_matrix_vec(Rotation::R0)) {
        Some(Rotation::R0)
    } else if same_entries(m, &rotation_matrix_vec(Rotation::R90)) {
        Some(Rotation::R90)
    } else if same_entries(m, &rotation_matrix_vec(Rotation::R180)) {
        Some(Rotation::R180)
    } else if same_entries(m, &rotation_matrix_vec(Rotation::R270)) {
        Some(Rotation::R270)
    } else {
        None
    }
}

fn is_alnum(c: u8) -> (b: bool)
    ensures
        b == is_ascii_alnum(c),
{
    (48 <= c && c <= 57) || (65 <= c && c <= 90) || (97 <= c && c <= 122)
}

fn bytes_are(w: &[u8], off: usize, k: [u8; 4]) -> (b: bool)
    requires
        off + 4 <= w@.len(),
    ensures
        b == (w@.subrange(off as int, off + 4) == k@),
{
    let r = w[off] == k[0] && w[off + 1] == k[1] && w[off + 2] == k[2] && w[off + 3] == k[3];
    proof {
        if r {
            assert(w@.subrange(off as int, off + 4) =~= k@);
        } else if w@.subrange(off as int, off + 4) == k@ {
            assert(w@.subrange(off as int, off + 4)[0] == k@[0]);
            assert(w@.subrange(off as int, off + 4)[1] == k@[1]);
            assert(w@.subrange(off as int, off + 4)[2] == k@[2]);
            assert(w@.subrange(off as int, off + 4)[3] == k@[3]);
        }
    }
    r
}

proof fn lemma_pop_keeps_bottom(stack: Seq<nat>, pos: nat)
    requires
        stack.len() > 0,
        pos < stack[0],
    ensures
        pop_finished(stack, pos).len() > 0,
        pop_finished(stack, pos).len() <= stack.len(),
        pop_finished(stack, pos)[0] == stack[0],
        pos < pop_finished(stack, pos).last(),
        forall|i: int|
            0 <= i < pop_finished(stack, pos).len() ==> #[trigger] pop_finished(stack, pos)[i]
                == stack[i],
    decreases stack.len(),
{
    if pos >= stack.last() {
        lemma_pop_keeps_bottom(stack.drop_last(), pos);
        let p = pop_finished(stack, pos);
        assert(p == pop_finished(stack.drop_last(), pos));
        assert forall|i: int| 0 <= i < p.len() implies #[trigger] p[i] == stack[i] by {
            assert(pop_finished(stack.drop_last(), pos)[i] == stack.drop_last()[i]);
        }
    }
}

impl Mp4Walker {
    /// Whether the walker's state is consistent.
    pub open spec fn wf(&self) -> bool {
        walk_wf(self@)
    }

    /// A walk of a file of `file_size` bytes, starting at its first box.
    pub fn new(file_size: u64) -> (w: Self)
        ensures
            w.wf(),
            w@ == (WalkState {
                file_size: file_size as nat,
                stack: seq![file_size as nat],
                pos: 0,
                matrix_offset: None,
                steps: 0,
                done: false,
            }),
    {
        let w = Mp4Walker {
            file_size,
            stack: vec![file_size],
            pos: 0,
            matrix_offset: None,
            steps: 0,
            done: false,
        };
        proof {
            assert(w@.stack =~= seq![file_size as nat]);
        }
        w
    }

    /// Offset of the box that the next step visits.
    pub fn position(&self) -> (p: u64)
        ensures
            p == self@.pos,
    {
        self.pos
    }

    /// Size of the file being walked.
    pub fn file_size(&self) -> (n: u64)
        ensures
            n == self@.file_size,
    {
        self.file_size
    }

    /// Visits the box at [`Mp4Walker::position`], given the bytes of the file from there on:
    /// [`WINDOW_LEN`] bytes, or fewer where the file ends.
    pub fn step(&mut self, window: &[u8]) -> (r: WalkStep)
        requires
            old(self).wf(),
            !old(self)@.done,
            old(self)@.pos + window@.len() <= old(self)@.file_size,
        ensures
            r == walk_step_spec(old(self)@, window@).1,
            r is Continue ==> final(self)@ == walk_step_spec(old(self)@, window@).0 && final(self).wf()
                && !final(self)@.done,
            !(r is Continue) ==> final(self)@.done,
    {
        let ghost s = self@;
        let ghost popped = pop_finished(s.stack, s.pos);
        while self.stack.len() > 0 && self.pos >= self.stack[self.stack.len() - 1]
            invariant
                self.pos == s.pos,
                self.file_size == s.file_size,
                self@ == (WalkState { stack: self@.stack, ..s }),
                pop_finished(self@.stack, s.pos) == popped,
                forall|i: int| 0 <= i < self@.stack.len() ==> #[trigger] self@.stack[i] == s.stack[i],
                self@.stack.len() <= s.stack.len(),
            decreases self.stack.len(),
        {
            let ghost before = self@.stack;
            self.stack.pop();
            proof {
                assert(self@.stack =~= before.drop_last());
            }
        }
        let n = window.len();
        if n < 8 {
            self.done = true;
            return WalkStep::Failed(Mp4Error::UnexpectedEof);
        }
        let size_field = be_at(window, 0, 4);
        if size_field == 1 && n < 16 {
            self.done = true;
            return WalkStep::Failed(Mp4Error::UnexpectedEof);
        }
        proof {
            lemma_pop_keeps_bottom(s.stack, s.pos);
            assert(self@.stack =~= popped);
        }
        let h: usize = if size_field == 1 { 16 } else { 8 };
        let size: u64 = if size_field == 0 {
            self.stack[self.stack.len() - 1] - self.pos
        } else if size_field == 1 {
            be_at(window, 8, 8)
        } else {
            size_field
        };
        if size > self.file_size - self.pos {
            self.done = true;
            return WalkStep::Failed(Mp4Error::BoxPastEnd);
        }
        let end = self.pos + size;
        if !(is_alnum(window[4]) && is_alnum(window[5]) && is_alnum(window[6]) && is_alnum(
            window[7],
        )) {
            self.done = true;
            return WalkStep::Failed(Mp4Error::InvalidBoxType);
        }
        self.stack.push(end);
        let steps = self.steps + 1;
        let ghost stack2 = popped.push(end as nat);
        proof {
            assert(self@.stack =~= stack2);
        }
        let next_pos: u64;
        if bytes_are(window, 4, [104u8, 100, 108, 114]) {
            proof {
                assert([104u8, 100, 108, 114]@ =~= hdlr());
                assert(window@.subrange(4, 8) == hdlr());
            }
            if n < h + 12 {
                self.done = true;
                return WalkStep::Failed(Mp4Error::UnexpectedEof);
            }
            let is_video = bytes_are(window, h + 8, [118u8, 105, 100, 101]);
            proof {
                assert([118u8, 105, 100, 101]@ =~= vide());
            }
            if is_video {
                if let Some((o, r)) = self.matrix_offset {
                    self.done = true;
                    return WalkStep::Found(o, r);
                }
            }
            next_pos = end;
        } else if bytes_are(window, 4, [116u8, 107, 104, 100]) {
            proof {
                assert([116u8, 107, 104, 100]@ =~= tkhd());
                assert([104u8, 100, 108, 114]@ =~= hdlr());
                assert(window@.subrange(4, 8) != hdlr());
            }
            if n < h + 1 {
                self.done = true;
                return WalkStep::Failed(Mp4Error::UnexpectedEof);
            }
            let version = window[h];
            if version != 0 && version != 1 {
                self.done = true;
                return WalkStep::Failed(Mp4Error::InvalidTkhdVersion(version));
            }
            let moff: usize = if version == 0 { h + 40 } else { h + 52 };
            if n < moff + 36 {
                self.done = true;
                return WalkStep::Failed(Mp4Error::UnexpectedEof);
            }
            let m = read_matrix(window, moff);
            match classify_matrix(&m) {
                None => {
                    self.done = true;
                    return WalkStep::Failed(Mp4Error::InvalidRotationMatrix);
                },
                Some(r) => {
                    self.matrix_offset = Some((self.pos + moff as u64, r));
                },
            }
            next_pos = end;
        } else if bytes_are(window, 4, [109u8, 111, 111, 118]) || bytes_are(
            window,
            4,
            [116u8, 114, 97, 107],
        ) || bytes_are(window, 4, [109u8, 100, 105, 97]) {
            proof {
                assert([116u8, 107, 104, 100]@ =~= tkhd());
                assert([104u8, 100, 108, 114]@ =~= hdlr());
                assert([109u8, 111, 111, 118]@ =~= moov());
                assert([116u8, 114, 97, 107]@ =~= trak());
                assert([109u8, 100, 105, 97]@ =~= mdia());
                assert(window@.subrange(4, 8) != hdlr());
                assert(window@.subrange(4, 8) != tkhd());
            }
            next_pos = self.pos + h as u64;
        } else {
            proof {
                assert([116u8, 107, 104, 100]@ =~= tkhd());
                assert([104u8, 100, 108, 114]@ =~= hdlr());
                assert([109u8, 111, 111, 118]@ =~= moov());
                assert([116u8, 114, 97, 107]@ =~= trak());
                assert([109u8, 100, 105, 97]@ =~= mdia());
            }
            next_pos = end;
        }
        self.pos = next_pos;
        self.steps = steps;
        if steps >= MAX_STEPS {
            self.done = true;
            return WalkStep::Failed(Mp4Error::NotFound);
        }
        WalkStep::Continue
    }
}

proof fn lemma_be_value_same(w1: Seq<u8>, w2: Seq<u8>, off: int, n: nat)
    requires
        0 <= off,
        off + n <= w1.len(),
        off + n <= w2.len(),
        forall|i: int| off <= i < off + n ==> w1[i] == w2[i],
    ensures
        be_value(w1, off, n) == be_value(w2, off, n),
    decreases n,
{
    if n > 0 {
        lemma_be_value_same(w1, w2, off, (n - 1) as nat);
    }
}

/// Appends the big-endian two's complement bytes of `v`.
fn push_be_i32(b: &mut Vec<u8>, v: i32)
    ensures
        final(b)@.len() == old(b)@.len() + 4,
        final(b)@.subrange(0, old(b)@.len() as int) == old(b)@,
        be_i32(final(b)@, old(b)@.len() as int) == v as int,
{
    let u: u64 = if v < 0 { (v as i64 + 0x1_0000_0000i64) as u64 } else { v as u64 };
    let ghost start = b@.len() as int;
    b.push((u / 0x100_0000) as u8);
    b.push(((u / 0x1_0000) % 256) as u8);
    b.push(((u / 0x100) % 256) as u8);
    b.push((u % 256) as u8);
    proof {
        reveal_with_fuel(be_value, 5);
        assert(final(b)@.subrange(0, start) =~= old(b)@);
    }
}

/// Big-endian bytes of the transform matrix of a rotation, as stored in a track header.
pub fn matrix_be_bytes(r: Rotation) -> (b: Vec<u8>)
    ensures
        b@.len() == 36,
        matrix_at(b@, 0) == rotation_matrix(r),
{
    let m = rotation_matrix_vec(r);
    let mut b: Vec<u8> = Vec::new();
    let mut i: usize = 0;
    while i < 9
        invariant
            i <= 9,
            m@ == rotation_matrix(r),
            b@.len() == 4 * i,
            forall|k: int| 0 <= k < i ==> #[trigger] be_i32(b@, 4 * k) == m@[k] as int,
        decreases 9 - i,
    {
        let ghost before = b@;
        push_be_i32(&mut b, m[i]);
        proof {
            assert forall|k: int| 0 <= k < i + 1 implies #[trigger] be_i32(b@, 4 * k) == m@[k] as int by {
                if k < i {
                    assert forall|j: int| 4 * k <= j < 4 * k + 4 implies b@[j] == before[j] by {
                        assert(b@.subrange(0, before.len() as int)[j] == b@[j]);
                    }
                    lemma_be_value_same(b@, before, 4 * k, 4);
                    assert(be_i32(before, 4 * k) == m@[k] as int);
                } else {
                    assert(4 * k == before.len());
                }
            }
        }
        i = i + 1;
    }
    proof {
        assert(matrix_at(b@, 0) =~= rotation_matrix(r));
    }
    b
}

/// Writing a rotation's matrix and reading it back gives the same rotation.
pub proof fn lemma_matrix_roundtrip(r: Rotation, b: Seq<u8>)
    requires
        matrix_at(b, 0) == rotation_matrix(r),
    ensures
        matrix_rotation(matrix_at(b, 0)) == Some(r),
{
    assert(rotation_matrix(Rotation::R0) != rotation_matrix(Rotation::R90));
    assert(rotation_matrix(Rotation::R0)[0] != rotation_matrix(Rotation::R180)[0]);
    assert(rotation_matrix(Rotation::R0)[0] != rotation_matrix(Rotation::R270)[0]);
    assert(rotation_matrix(Rotation::R90)[1] != rotation_matrix(Rotation::R180)[1]);
    assert(rotation_matrix(Rotation::R90)[1] != rotation_matrix(Rotation::R270)[1]);
    assert(rotation_matrix(Rotation::R180)[0] != rotation_matrix(Rotation::R270)[0]);
    assert(rotation_matrix(Rotation::R0)[0] != rotation_matrix(Rotation::R90)[0]);
}

/// The bytes of `file` that a step at `pos` reads: [`WINDOW_LEN`] bytes from `pos`, or fewer
/// where the file ends.
pub open spec fn file_window(file: Seq<u8>, pos: nat) -> Seq<u8> {
    if pos >= file.len() {
        Seq::empty()
    } else if pos + WINDOW_LEN <= file.len() {
        file.subrange(pos as int, pos + WINDOW_LEN)
    } else {
        file.subrange(pos as int, file.len() as int)
    }
}

/// The state of a walk of a file of `file_size` bytes before its first step.
pub open spec fn walk_start(file_size: nat) -> WalkState {
    WalkState { file_size, stack: seq![file_size], pos: 0, matrix_offset: None, steps: 0, done: false }
}

/// The outcome of at most `n` steps of the walk from `s` over `file`, each step given its
/// window of the file: the first result that is not `Continue`, else `Continue`.
pub open spec fn walk_file(file: Seq<u8>, s: WalkState, n: nat) -> WalkStep
    decreases n,
{
    if n == 0 {
        WalkStep::Continue
    } else {
        let (t, r) = walk_step_spec(s, file_window(file, s.pos));
        if r is Continue {
            walk_file(file, t, (n - 1) as nat)
        } else {
            r
        }
    }
}

/// Whether the matrix at offset `o` of `file` lies within the file and is the matrix of `r`.
pub open spec fn file_matrix_is(file: Seq<u8>, o: int, r: Rotation) -> bool {
    0 <= o && o + 36 <= file.len() && matrix_at(file, o) == rotation_matrix(r)
}

proof fn lemma_be_value_shift(file: Seq<u8>, w: Seq<u8>, pos: int, off: int, n: nat)
    requires
        0 <= pos,
        0 <= off,
        off + n <= w.len(),
        pos + w.len() <= file.len(),
        w == file.subrange(pos, pos + w.len()),
    ensures
        be_value(w, off, n) == be_value(file, pos + off, n),
    decreases n,
{
    if n > 0 {
        lemma_be_value_shift(file, w, pos, off, (n - 1) as nat);
        assert(w[off + n - 1] == file[pos + off + n - 1]);
    }
}

proof fn lemma_matrix_shift(file: Seq<u8>, w: Seq<u8>, pos: int, off: int)
    requires
        0 <= pos,
        0 <= off,
        off + 36 <= w.len(),
        pos + w.len() <= file.len(),
        w == file.subrange(pos, pos + w.len()),
    ensures
        matrix_at(w, off) == matrix_at(file, pos + off),
{
    assert forall|i: int| 0 <= i < 9 implies #[trigger] matrix_at(w, off)[i] == matrix_at(file, pos + off)[i] by {
        lemma_be_value_shift(file, w, pos, off + 4 * i, 4);
        assert(pos + (off + 4 * i) == (pos + off) + 4 * i);
    }
    assert(matrix_at(w, off) =~= matrix_at(file, pos + off));
}

proof fn lemma_step_keeps_file_matrix(file: Seq<u8>, s: WalkState)
    requires
        file.len() <= u64::MAX,
        s.matrix_offset matches Some((o, r)) ==> file_matrix_is(file, o as int, r),
    ensures
        ({
            let (t, r) = walk_step_spec(s, file_window(file, s.pos));
            &&& t.matrix_offset matches Some((o, rot)) ==> file_matrix_is(file, o as int, rot)
            &&& r matches WalkStep::Found(o, rot) ==> file_matrix_is(file, o as int, rot)
        }),
{
    let w = file_window(file, s.pos);
    let (t, r) = walk_step_spec(s, w);
    if w.len() > 0 {
        assert(w == file.subrange(s.pos as int, (s.pos + w.len()) as int));
    }
    if w.len() >= 8 && kind_is(w, tkhd()) && !kind_is(w, hdlr()) {
        let h = header_len(w) as int;
        if w.len() >= h + 1 && (w[h] == 0 || w[h] == 1) {
            let moff = if w[h] == 0 { h + 40 } else { h + 52 };
            if w.len() >= moff + 36 {
                lemma_matrix_shift(file, w, s.pos as int, moff);
            }
        }
    }
    if let WalkStep::Found(o, rot) = r {
        assert(s.matrix_offset is Some);
    }
}

proof fn lemma_walk_file_matrix(file: Seq<u8>, s: WalkState, n: nat)
    requires
        file.len() <= u64::MAX,
        s.matrix_offset matches Some((o, r)) ==> file_matrix_is(file, o as int, r),
    ensures
        walk_file(file, s, n) matches WalkStep::Found(o, r) ==> file_matrix_is(file, o as int, r),
    decreases n,
{
    if n > 0 {
        lemma_step_keeps_file_matrix(file, s);
        let (t, r) = walk_step_spec(s, file_window(file, s.pos));
        lemma_walk_file_matrix(file, t, (n - 1) as nat);
    }
}

/// A walk over a file, each step given its window of the file, finds only what the file holds:
/// when it reports `Found(o, r)`, the 36 bytes at offset `o` of the file are the matrix of the
/// rotation `r`.
pub proof fn lemma_found_matrix_is_in_file(file: Seq<u8>, n: nat)
    requires
        file.len() <= u64::MAX,
    ensures
        walk_file(file, walk_start(file.len()), n) matches WalkStep::Found(o, r) ==> file_matrix_is(
            file,
            o as int,
            r,
        ),
{
    lemma_walk_file_matrix(file, walk_start(file.len()), n);
}

} // verus!
