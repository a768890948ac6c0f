//! Core logic of a local movie library: file-name parsing, metadata records,
//! subtitle parsing, catalogue ordering and the small decisions around them.

pub mod text;
pub mod omdb;
pub mod filename;
pub mod paths;
pub mod strings;
pub mod player;
pub mod scanner;
pub mod cache;
pub mod hash;
pub mod tmdb;
pub mod metadata_store;
pub mod srt;
pub mod movie;
pub mod catalog;
pub mod sorting;
pub mod enricher;
pub mod subtitles;
pub mod editing;
pub mod local_subtitles;
pub mod playback_view;
pub mod library;
