//! Identifiers and plain records of the media catalog.
use vstd::prelude::*;

verus! {

/// Identifier of a file of an asset.
#[derive(Debug, Clone, Copy, PartialEq, Eq, Hash, Structural)]
pub struct FileId(pub i64);

/// Identifier of an album.
#[derive(Debug, Clone, Copy, PartialEq, Eq, Hash, Structural)]
pub struct AlbumId(pub i64);

/// Identifier of an asset.
#[derive(Debug, Clone, Copy, PartialEq, Eq, Hash, Structural)]
pub struct AssetId(pub i64);

/// Identifier of a root directory that assets are indexed from.
#[derive(Debug, Clone, Copy, PartialEq, Eq, Hash, Structural)]
pub struct AssetRootDirId(pub i64);

/// Identifier of a series of assets (bursts, image sequences).
#[derive(Debug, Clone, Copy, PartialEq, Eq, Hash, Structural)]
pub struct AssetSeriesId(pub i64);

/// Identifier of a data directory.
#[derive(Debug, Clone, Copy, PartialEq, Eq, Hash, Structural)]
pub struct DataDirId(pub i64);

/// Identifier of an album item.
#[derive(Debug, Clone, Copy, PartialEq, Eq, Hash, Structural)]
pub struct AlbumItemId(pub i64);

/// Identifier of a stored asset thumbnail.
#[derive(Debug, Clone, Copy, PartialEq, Eq, Hash, Structural)]
pub struct AssetThumbnailId(pub i64);

/// Kind of an asset.
#[derive(Debug, Clone, Copy, PartialEq, Eq, Hash, Structural)]
pub enum AssetType {
    Image,
    Video,
}

/// Kind of a thumbnail.
#[derive(Debug, Clone, Copy, PartialEq, Eq, Hash, Structural)]
pub enum ThumbnailType {
    SmallSquare,
    LargeOrigAspect,
}

/// Image format of a thumbnail.
#[derive(Debug, Clone, Copy, PartialEq, Eq, Hash, Structural)]
pub enum ThumbnailFormat {
    Webp,
    Avif,
}

/// Width and height of an image in pixels.
#[derive(Debug, Clone, Copy, PartialEq, Eq, Hash, Structural)]
pub struct Size {
    pub width: i32,
    pub height: i32,
}

/// A thumbnail that exists for a file.
#[derive(Debug, Clone, Copy, PartialEq, Eq, Hash, Structural)]
pub struct AssetThumbnail {
    pub id: AssetThumbnailId,
    pub file_id: FileId,
    pub ty: ThumbnailType,
    pub size: Size,
    pub format: ThumbnailFormat,
}

/// Which streams of an original video file can be streamed without transcoding.
#[derive(Debug, Clone, Copy, PartialEq, Eq, Hash, Structural)]
pub enum IsOriginalStreamable {
    NotStreamable,
    AudioOnly,
    VideoOnly,
    VideoAudio,
}

impl IsOriginalStreamable {
    /// Whether the video stream of the original can be streamed.
    pub fn includes_video(&self) -> (b: bool)
        ensures
            b == (*self == IsOriginalStreamable::VideoOnly || *self
                == IsOriginalStreamable::VideoAudio),
    {
        match self {
            IsOriginalStreamable::VideoOnly | IsOriginalStreamable::VideoAudio => true,
            _ => false,
        }
    }

    /// Whether the audio stream of the original can be streamed.
    pub fn includes_audio(&self) -> (b: bool)
        ensures
            b == (*self == IsOriginalStreamable::AudioOnly || *self
                == IsOriginalStreamable::VideoAudio),
    {
        match self {
            IsOriginalStreamable::AudioOnly | IsOriginalStreamable::VideoAudio => true,
            _ => false,
        }
    }
}

/// Whether streaming of the original file has been set up.
#[derive(Debug, Clone, Copy, PartialEq, Eq, Hash, Structural)]
pub struct OriginalStreaming {
    pub is_streamable: IsOriginalStreamable,
    pub is_done: bool,
}

/// Assets that form a series, and which of them are selected.
#[derive(Debug, Clone, PartialEq, Eq, Hash)]
pub struct AssetSeries {
    pub series_id: AssetSeriesId,
    pub asset_ids: Vec<AssetId>,
    pub selection_indices: Vec<usize>,
}

/// Asset kind as stored in the database (`Image` is 1, `Video` is 2).
#[derive(Debug, Clone, Copy, PartialEq, Eq, PartialOrd, Ord, Structural)]
pub enum DbAssetType {
    Image,
    Video,
}

impl DbAssetType {
    /// The integer that stands for this kind in the database.
    pub fn db_value(&self) -> (v: i32)
        ensures
            v == (match *self {
                DbAssetType::Image => 1i32,
                DbAssetType::Video => 2i32,
            }),
    {
        match self {
            DbAssetType::Image => 1,
            DbAssetType::Video => 2,
        }
    }
}

/// The model kind that a database kind stands for.
pub open spec fn asset_type_of_db(v: DbAssetType) -> AssetType {
    match v {
        DbAssetType::Image => AssetType::Image,
        DbAssetType::Video => AssetType::Video,
    }
}

/// The database kind that stands for a model kind.
pub open spec fn db_of_asset_type(v: AssetType) -> DbAssetType {
    match v {
        AssetType::Image => DbAssetType::Image,
        AssetType::Video => DbAssetType::Video,
    }
}

impl From<DbAssetType> for AssetType {
    fn from(value: DbAssetType) -> (r: Self) {
        match value {
            DbAssetType::Image => AssetType::Image,
            DbAssetType::Video => AssetType::Video,
        }
    }
}

impl vstd::std_specs::convert::FromSpecImpl<DbAssetType> for AssetType {
    open spec fn obeys_from_spec() -> bool {
        true
    }

    open spec fn from_spec(v: DbAssetType) -> Self {
        asset_type_of_db(v)
    }
}

impl From<AssetType> for DbAssetType {
    fn from(value: AssetType) -> (r: Self) {
        match value {
            AssetType::Image => DbAssetType::Image,
            AssetType::Video => DbAssetType::Video,
        }
    }
}

impl vstd::std_specs::convert::FromSpecImpl<AssetType> for DbAssetType {
    open spec fn obeys_from_spec() -> bool {
        true
    }

    open spec fn from_spec(v: AssetType) -> Self {
        db_of_asset_type(v)
    }
}

/// Converting a kind to its database form and back gives the same kind, both ways round.
pub proof fn lemma_asset_type_db_roundtrip(t: AssetType, d: DbAssetType)
    ensures
        asset_type_of_db(db_of_asset_type(t)) == t,
        db_of_asset_type(asset_type_of_db(d)) == d,
{
}

/// An album item row.
#[derive(Debug, Clone, PartialEq, Eq)]
pub struct DbAlbumItem {
    pub album_item_id: i64,
    pub ty: i32,
    pub asset_id: Option<i64>,
    pub text: Option<String>,
    pub idx: i32,
}

/// A data directory row.
#[derive(Debug, Clone, PartialEq, Eq)]
pub struct DbDataDir {
    pub id: DataDirId,
    pub path: String,
}

/// A data directory.
#[derive(Debug, Clone, PartialEq, Eq)]
pub struct DataDir {
    pub id: DataDirId,
    pub path: String,
}

impl vstd::std_specs::convert::TryFromSpecImpl<DbDataDir> for DataDir {
    open spec fn obeys_try_from_spec() -> bool {
        true
    }

    open spec fn try_from_spec(v: DbDataDir) -> Result<Self, eyre::Report> {
        Ok(DataDir { id: v.id, path: v.path })
    }
}

impl TryFrom<DbDataDir> for DataDir {
    type Error = eyre::Report;

    /// The directory a row stands for; this never fails.
    fn try_from(value: DbDataDir) -> (r: Result<Self, Self::Error>)
        ensures
            r matches Ok(d) && d.id == value.id && d.path == value.path,
    {
        Ok(DataDir { id: value.id, path: value.path })
    }
}

impl vstd::std_specs::convert::TryFromSpecImpl<DataDir> for DbDataDir {
    open spec fn obeys_try_from_spec() -> bool {
        true
    }

    open spec fn try_from_spec(v: DataDir) -> Result<Self, eyre::Report> {
        Ok(DbDataDir { id: v.id, path: v.path })
    }
}

impl TryFrom<DataDir> for DbDataDir {
    type Error = eyre::Report;

    /// The row of a directory; this never fails.
    fn try_from(value: DataDir) -> (r: Result<Self, Self::Error>)
        ensures
            r matches Ok(d) && d.id == value.id && d.path == value.path,
    {
        Ok(DbDataDir { id: value.id, path: value.path })
    }
}

/// What the catalog rules read of a file of an asset.
#[derive(Debug, Clone, PartialEq, Eq)]
pub struct AssetFile {
    pub id: FileId,
    /// Lower case file type, such as `mp4`.
    pub file_type: String,
    pub size: Size,
}

/// What the catalog rules read of a video file.
#[derive(Debug, Clone, PartialEq, Eq)]
pub struct Video {
    pub file_id: FileId,
    pub video_codec_name: String,
    pub audio_codec_name: Option<String>,
    /// Average frame rate as numerator and denominator.
    pub frame_rate: Option<(i32, i32)>,
    /// Longest interval between two I-frames, in milliseconds.
    pub max_iframe_interval: Option<i32>,
    pub original_streaming: Option<OriginalStreaming>,
    pub ghi_disabled: bool,
}

/// What an album holds at one position: an asset or a text.
#[derive(Debug, Clone, PartialEq, Eq)]
pub enum AlbumItemType {
    Asset(AssetId),
    Text(String),
}

/// An item of an album.
#[derive(Debug, Clone, PartialEq, Eq)]
pub struct AlbumItem {
    pub id: AlbumItemId,
    pub item: AlbumItemType,
}

} // verus!
