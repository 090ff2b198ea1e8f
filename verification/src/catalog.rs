//! What the catalog holds and what it requires: encoding targets, storage keys, and the
//! rules that decide which processing an asset needs.
pub mod encoding_target;
pub mod image_conversion_target;
pub mod storage_key;
pub mod package_video;
pub mod rules;
pub mod operation;
