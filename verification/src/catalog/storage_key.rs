//! Keys under which derived files (thumbnails, representations, DASH segments) are stored.
use vstd::prelude::*;

use crate::catalog::image_conversion_target::{
    file_extension_spec, image_file_extension, ImageFormatTarget,
};
use crate::model::{AlbumId, FileId, ThumbnailFormat, ThumbnailType};
use crate::text::{int_decimal, is_digit, lemma_int_decimal_chars, lemma_int_decimal_injective, write_i64};

verus! {

/// Key of a file of the DASH packaging of a video file.
pub open spec fn dash_key(file_id: FileId, filename: Seq<char>) -> Seq<char> {
    "dash/"@ + int_decimal(file_id.0 as int) + "/"@ + filename
}

/// Suffix of the key of a thumbnail of a kind.
pub open spec fn thumbnail_size_suffix(ty: ThumbnailType) -> Seq<char> {
    match ty {
        ThumbnailType::SmallSquare => "_sm"@,
        ThumbnailType::LargeOrigAspect => ""@,
    }
}

/// File extension of a thumbnail format.
pub open spec fn thumbnail_extension(format: ThumbnailFormat) -> Seq<char> {
    match format {
        ThumbnailFormat::Webp => "webp"@,
        ThumbnailFormat::Avif => "avif"@,
    }
}

/// Key of a thumbnail of a file.
pub open spec fn thumbnail_key(file_id: FileId, ty: ThumbnailType, format: ThumbnailFormat) -> Seq<
    char,
> {
    "thumb/"@ + int_decimal(file_id.0 as int) + thumbnail_size_suffix(ty) + "."@
        + thumbnail_extension(format)
}

/// Key of an image representation of a file; `scale` is the scale factor as written in keys.
pub open spec fn image_representation_key(
    file_id: FileId,
    format: ImageFormatTarget,
    scale: Option<Seq<char>>,
) -> Seq<char> {
    match scale {
        None => "image/"@ + int_decimal(file_id.0 as int) + "."@ + file_extension_spec(format),
        Some(sc) => "image/"@ + int_decimal(file_id.0 as int) + "_"@ + sc + "x."@
            + file_extension_spec(format),
    }
}

/// Key of the thumbnail of an album.
pub open spec fn album_thumbnail_key(album_id: AlbumId, format: ThumbnailFormat) -> Seq<char> {
    "album_thumb/"@ + int_decimal(album_id.0 as int) + "."@ + thumbnail_extension(format)
}

/// Key of the file `filename` of the DASH packaging of a video file.
pub fn dash_file(file_id: FileId, filename: &str) -> (key: String)
    ensures
        key@ == dash_key(file_id, filename@),
{
    let mut s = String::new();
    s.append("dash/");
    write_i64(&mut s, file_id.0);
    s.append("/");
    s.append(filename);
    proof {
        assert(s@ =~= dash_key(file_id, filename@));
    }
    s
}

/// Key of the DASH manifest of a video file; it is the DASH file key of `stream.mpd`.
pub fn mpd_manifest(file_id: FileId) -> (key: String)
    ensures
        key@ == dash_key(file_id, "stream.mpd"@),
{
    dash_file(file_id, "stream.mpd")
}

/// Key of a thumbnail of a file.
pub fn thumbnail(asset_id: FileId, ty: ThumbnailType, format: ThumbnailFormat) -> (key: String)
    ensures
        key@ == thumbnail_key(asset_id, ty, format),
{
    let size = match ty {
        ThumbnailType::SmallSquare => "_sm",
        ThumbnailType::LargeOrigAspect => "",
    };
    let extension = match format {
        ThumbnailFormat::Webp => "webp",
        ThumbnailFormat::Avif => "avif",
    };
    let mut s = String::new();
    s.append("thumb/");
    write_i64(&mut s, asset_id.0);
    s.append(size);
    s.append(".");
    s.append(extension);
    proof {
        assert(s@ =~= thumbnail_key(asset_id, ty, format));
    }
    s
}

/// Key of an image representation of a file in `format`, scaled by the factor whose decimal
/// text is `scale` where there is one.
pub fn image_representation(file_id: FileId, format: &ImageFormatTarget, scale: Option<&str>) -> (key:
    String)
    ensures
        key@ == image_representation_key(
            file_id,
            *format,
            match scale {
                None => None,
                Some(sc) => Some(sc@),
            },
        ),
{
    let ext = image_file_extension(format);
    let mut s = String::new();
    s.append("image/");
    write_i64(&mut s, file_id.0);
    match scale {
        None => {
            s.append(".");
            s.append(ext);
        },
        Some(sc) => {
            s.append("_");
            s.append(sc);
            s.append("x.");
            s.append(ext);
        },
    }
    proof {
        match scale {
            None => {
                assert(s@ =~= image_representation_key(file_id, *format, None));
            },
            Some(sc) => {
                assert(s@ =~= image_representation_key(file_id, *format, Some(sc@)));
            },
        }
    }
    s
}

/// Key of the thumbnail of an album.
pub fn album_thumbnail(album_id: AlbumId, format: ThumbnailFormat) -> (key: String)
    ensures
        key@ == album_thumbnail_key(album_id, format),
{
    let ext = match format {
        ThumbnailFormat::Webp => "webp",
        ThumbnailFormat::Avif => "avif",
    };
    let mut s = String::new();
    s.append("album_thumb/");
    write_i64(&mut s, album_id.0);
    s.append(".");
    s.append(ext);
    proof {
        assert(s@ =~= album_thumbnail_key(album_id, format));
    }
    s
}

/// A decimal number followed by text that starts with neither a digit nor `-` can be split
/// back into the number and the text.
proof fn lemma_decimal_then_text(a: int, b: int, x: Seq<char>, y: Seq<char>)
    requires
        x.len() > 0,
        y.len() > 0,
        !is_digit(x[0]) && x[0] != '-',
        !is_digit(y[0]) && y[0] != '-',
        int_decimal(a) + x == int_decimal(b) + y,
    ensures
        a == b,
        x == y,
{
    lemma_int_decimal_chars(a);
    lemma_int_decimal_chars(b);
    let da = int_decimal(a);
    let db = int_decimal(b);
    let whole = da + x;
    if da.len() < db.len() {
        assert(whole[da.len() as int] == x[0]);
        assert(whole[da.len() as int] == db[da.len() as int]);
        assert(false);
    } else if db.len() < da.len() {
        assert(whole[db.len() as int] == da[db.len() as int]);
        assert((db + y)[db.len() as int] == y[0]);
        assert(false);
    }
    assert(da =~= whole.subrange(0, da.len() as int));
    assert(db =~= (db + y).subrange(0, db.len() as int));
    lemma_int_decimal_injective(a, b);
    assert(x =~= whole.subrange(da.len() as int, whole.len() as int));
    assert(y =~= (db + y).subrange(db.len() as int, whole.len() as int));
}

/// DASH file keys of different files, or of different file names, are different.
pub proof fn lemma_dash_key_injective(a: FileId, name_a: Seq<char>, b: FileId, name_b: Seq<char>)
    ensures
        dash_key(a, name_a) == dash_key(b, name_b) ==> a == b && name_a == name_b,
{
    if dash_key(a, name_a) == dash_key(b, name_b) {
        reveal_strlit("dash/");
        reveal_strlit("/");
        let pre = "dash/"@;
        let ka = dash_key(a, name_a);
        let kb = dash_key(b, name_b);
        let ra = int_decimal(a.0 as int) + ("/"@ + name_a);
        let rb = int_decimal(b.0 as int) + ("/"@ + name_b);
        assert(ka =~= pre + ra);
        assert(kb =~= pre + rb);
        assert(ra =~= ka.subrange(5, ka.len() as int));
        assert(rb =~= kb.subrange(5, kb.len() as int));
        lemma_decimal_then_text(a.0 as int, b.0 as int, "/"@ + name_a, "/"@ + name_b);
        assert(name_a =~= ("/"@ + name_a).drop_first());
        assert(name_b =~= ("/"@ + name_b).drop_first());
    }
}

/// Thumbnail keys of different files, kinds or formats are different.
pub proof fn lemma_thumbnail_key_injective(
    a: FileId,
    ty_a: ThumbnailType,
    format_a: ThumbnailFormat,
    b: FileId,
    ty_b: ThumbnailType,
    format_b: ThumbnailFormat,
)
    ensures
        thumbnail_key(a, ty_a, format_a) == thumbnail_key(b, ty_b, format_b) ==> a == b && ty_a
            == ty_b && format_a == format_b,
{
    if thumbnail_key(a, ty_a, format_a) == thumbnail_key(b, ty_b, format_b) {
        reveal_strlit("thumb/");
        reveal_strlit("_sm");
        reveal_strlit("");
        reveal_strlit(".");
        reveal_strlit("webp");
        reveal_strlit("avif");
        let ka = thumbnail_key(a, ty_a, format_a);
        let kb = thumbnail_key(b, ty_b, format_b);
        let xa = thumbnail_size_suffix(ty_a) + "."@ + thumbnail_extension(format_a);
        let xb = thumbnail_size_suffix(ty_b) + "."@ + thumbnail_extension(format_b);
        assert(ka =~= "thumb/"@ + (int_decimal(a.0 as int) + xa));
        assert(kb =~= "thumb/"@ + (int_decimal(b.0 as int) + xb));
        assert(int_decimal(a.0 as int) + xa =~= ka.subrange(6, ka.len() as int));
        assert(int_decimal(b.0 as int) + xb =~= kb.subrange(6, kb.len() as int));
        lemma_decimal_then_text(a.0 as int, b.0 as int, xa, xb);
        if ty_a != ty_b {
            assert(xa.len() != xb.len() || xa[0] != xb[0]);
        }
        if ty_a == ty_b && format_a != format_b {
            let k: int = thumbnail_size_suffix(ty_a).len() as int + 1;
            assert(xa[k] != xb[k]);
        }
    }
}

/// Album thumbnail keys of different albums or formats are different.
pub proof fn lemma_album_thumbnail_key_injective(
    a: AlbumId,
    format_a: ThumbnailFormat,
    b: AlbumId,
    format_b: ThumbnailFormat,
)
    ensures
        album_thumbnail_key(a, format_a) == album_thumbnail_key(b, format_b) ==> a == b
            && format_a == format_b,
{
    if album_thumbnail_key(a, format_a) == album_thumbnail_key(b, format_b) {
        reveal_strlit("album_thumb/");
        reveal_strlit(".");
        reveal_strlit("webp");
        reveal_strlit("avif");
        let ka = album_thumbnail_key(a, format_a);
        let kb = album_thumbnail_key(b, format_b);
        let xa = "."@ + thumbnail_extension(format_a);
        let xb = "."@ + thumbnail_extension(format_b);
        assert(ka =~= "album_thumb/"@ + (int_decimal(a.0 as int) + xa));
        assert(kb =~= "album_thumb/"@ + (int_decimal(b.0 as int) + xb));
        assert(int_decimal(a.0 as int) + xa =~= ka.subrange(12, ka.len() as int));
        assert(int_decimal(b.0 as int) + xb =~= kb.subrange(12, kb.len() as int));
        lemma_decimal_then_text(a.0 as int, b.0 as int, xa, xb);
        if format_a != format_b {
            assert(xa[1] != xb[1]);
        }
    }
}

} // verus!
