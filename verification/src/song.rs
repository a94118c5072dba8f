//! A piece of music of the library.

use vstd::prelude::*;
use id3::Tag;
use crate::metadata::{frames_duration, tag_duration, tag_frames};
use crate::text::{push_str, to_string};

verus! {

/// A music file with its thumbnail and where its playback stands. Times are
/// in milliseconds; `start_time` is read on the player's own clock.
pub struct Song {
    pub title: String,
    pub path: String,
    pub thumbnail_path: String,
    /// How far playback has gone.
    pub play_position: u64,
    /// The length of the music.
    pub total_duration: u64,
    /// When playback (re)started, if it did.
    pub start_time: Option<u64>,
}

impl Song {
    /// A song that has not been played, lasting as long as `tag` says;
    /// `None` when the tag gives no duration.
    pub fn from(title: String, path: String, thumbnail_path: String, tag: &Tag) -> (res: Option<
        Song,
    >)
        ensures
            res is Some <==> frames_duration(tag_frames(*tag)) is Some,
            res matches Some(s) ==> {
                &&& s.title == title
                &&& s.path == path
                &&& s.thumbnail_path == thumbnail_path
                &&& s.play_position == 0
                &&& s.total_duration == frames_duration(tag_frames(*tag))->0 as u64 * 1000
                &&& s.start_time is None
            },
    {
        match tag_duration(tag) {
            Some(secs) => Some(
                Song {
                    title,
                    path,
                    thumbnail_path,
                    play_position: 0,
                    total_duration: secs as u64 * 1000,
                    start_time: None,
                },
            ),
            None => None,
        }
    }

    /// A copy of the song.
    pub fn duplicate(&self) -> (res: Song)
        ensures
            res == *self,
    {
        Song {
            title: self.title.clone(),
            path: self.path.clone(),
            thumbnail_path: self.thumbnail_path.clone(),
            play_position: self.play_position,
            total_duration: self.total_duration,
            start_time: self.start_time,
        }
    }

    /// `title: <title> `.
    pub fn to_string(&self) -> (res: String)
        ensures
            res@ == "title: "@ + self.title@ + " "@,
    {
        let mut s = to_string("title: ");
        push_str(&mut s, self.title.as_str());
        push_str(&mut s, " ");
        s
    }
}

} // verus!
