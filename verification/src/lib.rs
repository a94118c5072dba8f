//! Verified core of a terminal music player: text editing of the URL input,
//! the download queue and its progress, the music library and its playlists,
//! and the decisions taken on each key press.

pub mod text;
pub mod gauge_state;
pub mod selection;
pub mod input_state;
pub mod sanitize;
pub mod video;
pub mod metadata;
pub mod song;
pub mod directory_maintainer;
pub mod tabs;
pub mod library;
pub mod database;
pub mod event;
pub mod display;
