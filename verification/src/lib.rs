//! Catalog rules, job scheduling decisions, media file parsing and command line
//! assembly for a photo and video gallery server.
pub mod text;
pub mod timeline;
pub mod actor;
pub mod catalog;
pub mod config;
pub mod model;
pub mod processing;
pub mod scheduling;
