//! The SQL statements the player sends to its music database.

use vstd::prelude::*;
use crate::song::Song;
use crate::text::{decimal, push_decimal, push_str, to_string};

verus! {

/// The statement that records a song in the `music` table unless a song of
/// that title is there already; the duration is in whole seconds.
pub open spec fn insert_music_query(
    title: Seq<char>,
    path: Seq<char>,
    thumbnail_path: Seq<char>,
    seconds: nat,
) -> Seq<char> {
    "INSERT OR IGNORE INTO music (title, path, thumbnail_path, total_duration) SELECT '"@ + title
        + "', '"@ + path + "', '"@ + thumbnail_path + "', "@ + decimal(seconds)
        + " WHERE NOT EXISTS (SELECT 1 FROM music WHERE title = '"@ + title + "')"@
}

/// The statement that records `song` in the `music` table.
pub fn music_insert_query(song: &Song) -> (res: String)
    ensures
        res@ == insert_music_query(
            song.title@,
            song.path@,
            song.thumbnail_path@,
            (song.total_duration / 1000) as nat,
        ),
{
    let mut q = to_string(
        "INSERT OR IGNORE INTO music (title, path, thumbnail_path, total_duration) SELECT '",
    );
    push_str(&mut q, song.title.as_str());
    push_str(&mut q, "', '");
    push_str(&mut q, song.path.as_str());
    push_str(&mut q, "', '");
    push_str(&mut q, song.thumbnail_path.as_str());
    push_str(&mut q, "', ");
    push_decimal(&mut q, song.total_duration / 1000);
    push_str(&mut q, " WHERE NOT EXISTS (SELECT 1 FROM music WHERE title = '");
    push_str(&mut q, song.title.as_str());
    push_str(&mut q, "')");
    q
}

/// The statement that removes the songs titled `title` from the `music`
/// table (the title is written as it is, without quotes).
pub fn music_delete_query(title: &str) -> (res: String)
    ensures
        res@ == "DELETE FROM music WHERE title = "@ + title@,
{
    let mut q = to_string("DELETE FROM music WHERE title = ");
    push_str(&mut q, title);
    q
}

} // verus!
