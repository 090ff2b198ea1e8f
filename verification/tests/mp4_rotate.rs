use myrti::processing::mp4_rotate::{
    matrix_be_bytes, rotation_matrix_vec, Mp4Error, Mp4Walker, Rotation, WalkStep, WINDOW_LEN,
};

fn boxed(kind: &[u8; 4], body: &[u8]) -> Vec<u8> {
    let mut b = ((body.len() + 8) as u32).to_be_bytes().to_vec();
    b.extend_from_slice(kind);
    b.extend_from_slice(body);
    b
}

fn tkhd(rotation: Rotation) -> Vec<u8> {
    let mut body = vec![0u8; 40];
    body.extend(matrix_be_bytes(rotation));
    body.extend([0u8; 8]);
    boxed(b"tkhd", &body)
}

fn hdlr(handler: &[u8; 4]) -> Vec<u8> {
    let mut body = vec![0u8; 8];
    body.extend_from_slice(handler);
    body.extend([0u8; 13]);
    boxed(b"hdlr", &body)
}

fn walk(bytes: &[u8]) -> WalkStep {
    let mut w = Mp4Walker::new(bytes.len() as u64);
    loop {
        let p = w.position() as usize;
        let end = std::cmp::min(p + WINDOW_LEN as usize, bytes.len());
        match w.step(&bytes[p..end]) {
            WalkStep::Continue => continue,
            other => return other,
        }
    }
}

fn movie(rotation: Rotation, handler: &[u8; 4]) -> Vec<u8> {
    let mut trak_body = tkhd(rotation);
    trak_body.extend(boxed(b"mdia", &hdlr(handler)));
    let mut file = boxed(b"ftyp", b"isom0000");
    file.extend(boxed(b"moov", &boxed(b"trak", &trak_body)));
    file
}

#[test]
fn finds_matrix_of_video_track() {
    let bytes = movie(Rotation::R90, b"vide");
    // ftyp (16 bytes), moov and trak headers (16), tkhd header (8) and its 40 leading bytes
    assert_eq!(walk(&bytes), WalkStep::Found(16 + 16 + 8 + 40, Rotation::R90));
}

#[test]
fn audio_track_only_is_not_found() {
    let bytes = movie(Rotation::R0, b"soun");
    assert_eq!(walk(&bytes), WalkStep::Failed(Mp4Error::UnexpectedEof));
}

#[test]
fn invalid_box_type_is_refused() {
    let bytes = boxed(b"mo v", b"");
    assert_eq!(walk(&bytes), WalkStep::Failed(Mp4Error::InvalidBoxType));
}

#[test]
fn box_past_end_is_refused() {
    let mut bytes = boxed(b"moov", b"");
    bytes[3] = 200;
    assert_eq!(walk(&bytes), WalkStep::Failed(Mp4Error::BoxPastEnd));
}

#[test]
fn rotation_matrices() {
    assert_eq!(rotation_matrix_vec(Rotation::R0), vec![0x10000, 0, 0, 0, 0x10000, 0, 0, 0, 0x40000000]);
    assert_eq!(matrix_be_bytes(Rotation::R0)[0..4], [0, 1, 0, 0]);
    assert_eq!(matrix_be_bytes(Rotation::R90).len(), 36);
}

#[test]
fn invalid_tkhd_version_is_refused() {
    let mut t = tkhd(Rotation::R0);
    t[8] = 2;
    let bytes = boxed(b"moov", &boxed(b"trak", &t));
    assert_eq!(walk(&bytes), WalkStep::Failed(Mp4Error::InvalidTkhdVersion(2)));
}

#[test]
fn unknown_matrix_is_refused() {
    let mut t = tkhd(Rotation::R180);
    t[8 + 40] = 0x7f;
    let bytes = boxed(b"moov", &boxed(b"trak", &t));
    assert_eq!(walk(&bytes), WalkStep::Failed(Mp4Error::InvalidRotationMatrix));
}

#[test]
fn walk_gives_up_after_many_boxes() {
    let mut bytes = Vec::new();
    for _ in 0..1001 {
        bytes.extend(boxed(b"free", b""));
    }
    assert_eq!(walk(&bytes), WalkStep::Failed(Mp4Error::NotFound));
}

#[test]
fn found_offset_holds_the_matrix() {
    for rotation in [Rotation::R0, Rotation::R90, Rotation::R180, Rotation::R270] {
        let bytes = movie(rotation, b"vide");
        match walk(&bytes) {
            WalkStep::Found(o, r) => {
                assert_eq!(r, rotation);
                let o = o as usize;
                assert_eq!(bytes[o..o + 36].to_vec(), matrix_be_bytes(rotation));
            }
            other => panic!("unexpected {other:?}"),
        }
    }
}
