//! Where the player keeps its files, all under the user's home directory.

use vstd::prelude::*;
use id3::Tag;
use crate::metadata::{frames_duration, tag_frames};
use crate::song::Song;
use crate::text::{push_str, replace_all, replace_str, to_string};

verus! {

/// The directories and files of the player.
pub struct DirectoryCatalog {
    pub src_directory: String,
    pub music_directory: String,
    pub thumbnail_directory: String,
    pub database_file: String,
    pub temp_directory: String,
}

/// The home directory of the user running the program, from
/// `homedir::get_my_home`, when there is one and it is valid UTF-8. The
/// answer depends on the environment and the system's user database, so the
/// contract says nothing of it.
#[verifier::external_body]
fn home_directory() -> (res: Option<String>) {
    match homedir::get_my_home() {
        Ok(Some(path)) => path.into_os_string().into_string().ok(),
        _ => None,
    }
}

/// `dir`, a backslash, `name`, then `ext`.
pub open spec fn file_in(dir: Seq<char>, name: Seq<char>, ext: Seq<char>) -> Seq<char> {
    dir + "\\"@ + name + ext
}

fn join_file(dir: &str, name: &str, ext: &str) -> (res: String)
    ensures
        res@ == file_in(dir@, name@, ext@),
{
    let mut s = to_string(dir);
    push_str(&mut s, "\\");
    push_str(&mut s, name);
    push_str(&mut s, ext);
    s
}

fn under(home: &str, rest: &str) -> (res: String)
    ensures
        res@ == home@ + rest@,
{
    let mut s = to_string(home);
    push_str(&mut s, rest);
    s
}

impl DirectoryCatalog {
    /// Whether the catalog lays the player's files out under `home`.
    pub open spec fn laid_out_under(self, home: Seq<char>) -> bool {
        &&& self.src_directory@ == home + "\\ratatuni"@
        &&& self.music_directory@ == home + "\\ratatuni\\music"@
        &&& self.thumbnail_directory@ == home + "\\ratatuni\\thumbnails"@
        &&& self.database_file@ == home + "\\music_data.db"@
        &&& self.temp_directory@ == home + "\\ratatuni\\temp"@
    }

    /// Whether the catalog lays the player's files out under some home
    /// directory.
    pub open spec fn laid_out_under_some_home(self) -> bool {
        exists|home: Seq<char>| #[trigger] self.laid_out_under(home)
    }

    /// The catalog for the home directory `home_dir`.
    pub fn from_home(home_dir: &str) -> (res: DirectoryCatalog)
        ensures
            res.laid_out_under(home_dir@),
    {
        DirectoryCatalog {
            src_directory: under(home_dir, "\\ratatuni"),
            music_directory: under(home_dir, "\\ratatuni\\music"),
            thumbnail_directory: under(home_dir, "\\ratatuni\\thumbnails"),
            database_file: under(home_dir, "\\music_data.db"),
            temp_directory: under(home_dir, "\\ratatuni\\temp"),
        }
    }

    /// The catalog for the home directory of the user, if one can be found.
    pub fn default() -> (res: Option<DirectoryCatalog>)
        ensures
            res matches Some(d) ==> d.laid_out_under_some_home(),
    {
        match home_directory() {
            Some(home) => {
                let d = DirectoryCatalog::from_home(home.as_str());
                assert(d.laid_out_under(home@));
                assert(d.laid_out_under_some_home());
                Some(d)
            },
            None => None,
        }
    }

    /// The thumbnail file of the music titled `title`.
    pub fn thumbnail_file(&self, title: &str) -> (res: String)
        ensures
            res@ == file_in(self.thumbnail_directory@, title@, ".jpg"@),
    {
        join_file(self.thumbnail_directory.as_str(), title, ".jpg")
    }

    /// The music file of the music titled `title`.
    pub fn music_file(&self, title: &str) -> (res: String)
        ensures
            res@ == file_in(self.music_directory@, title@, ".mp3"@),
    {
        join_file(self.music_directory.as_str(), title, ".mp3")
    }

    /// Where a download titled `title` is kept before it is converted.
    pub fn temp_file(&self, title: &str) -> (res: String)
        ensures
            res@ == file_in(self.temp_directory@, title@, ".mp3"@),
    {
        join_file(self.temp_directory.as_str(), title, ".mp3")
    }

    /// The song for a file of the music directory: named after the file
    /// without `.mp3`, with the thumbnail of that name, lasting as long as
    /// its tag says (`None` when the tag gives no duration).
    pub fn song_for_file(&self, file_name: &str, path: &str, tag: &Tag) -> (res: Option<Song>)
        ensures
            res is Some <==> frames_duration(tag_frames(*tag)) is Some,
            res matches Some(s) ==> {
                let title = replace_all(file_name@, ".mp3"@, ""@);
                &&& s.title@ == title
                &&& s.path@ == path@
                &&& s.thumbnail_path@ == file_in(self.thumbnail_directory@, title, ".jpg"@)
                &&& s.play_position == 0
                &&& s.total_duration == frames_duration(tag_frames(*tag))->0 as u64 * 1000
                &&& s.start_time is None
            },
    {
        proof {
            reveal_strlit(".mp3");
        }
        let name = replace_str(file_name, ".mp3", "");
        let thumbnail = self.thumbnail_file(name.as_str());
        Song::from(name, to_string(path), thumbnail, tag)
    }

    /// The song for a finished download titled `title`: its music file and
    /// thumbnail in the player's directories, lasting as long as its tag says
    /// (`None` when the tag gives no duration).
    pub fn downloaded_song(&self, title: &str, tag: &Tag) -> (res: Option<Song>)
        ensures
            res is Some <==> frames_duration(tag_frames(*tag)) is Some,
            res matches Some(s) ==> {
                &&& s.title@ == title@
                &&& s.path@ == file_in(self.music_directory@, title@, ".mp3"@)
                &&& s.thumbnail_path@ == file_in(self.thumbnail_directory@, title@, ".jpg"@)
                &&& s.play_position == 0
                &&& s.total_duration == frames_duration(tag_frames(*tag))->0 as u64 * 1000
                &&& s.start_time is None
            },
    {
        let path = self.music_file(title);
        let thumbnail = self.thumbnail_file(title);
        Song::from(to_string(title), path, thumbnail, tag)
    }
}

} // verus!
