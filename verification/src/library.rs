//! The music library of the player tab: the songs, the playlists, the list
//! the user browses, the queue and the song playing.
//!
//! Playlist entries of the browsed list carry the mark `937798798798798`
//! before their name; the playlist whose first song is `12345ALL OF THEM`
//! stands for every song of the library.

use vstd::prelude::*;
use crate::selection::{Selection, next_index, previous_index};
use crate::song::Song;
use crate::text::{has_prefix, split_on, split_str, starts_with, str_eq, to_string, views};

verus! {

/// The mark that starts the name of a playlist entry.
pub open spec fn playlist_mark() -> Seq<char> {
    "937798798798798"@
}

/// The first song of the playlist that stands for every song.
pub open spec fn all_music_mark() -> Seq<char> {
    "12345ALL OF THEM"@
}

/// The name of the top level of the browsed list.
pub open spec fn playlists_directory() -> Seq<char> {
    "Playlists"@
}

/// A named list of song titles.
pub struct Playlist {
    pub name: String,
    pub songs: Vec<String>,
}

/// A list of strings with a highlighted entry.
pub struct StatefulList {
    pub items: Vec<String>,
    pub state: Selection,
}

impl StatefulList {
    /// An empty list with nothing highlighted.
    pub fn new() -> (res: StatefulList)
        ensures
            res.items@.len() == 0,
            res.state.selected is None,
    {
        StatefulList { items: Vec::new(), state: Selection::new() }
    }

    /// Highlights the next entry, wrapping to the first.
    pub fn next(&mut self)
        ensures
            final(self).items == old(self).items,
            final(self).state.selected == Some(
                next_index(old(self).state.selected, old(self).items@.len()),
            ),
    {
        let len = self.items.len();
        self.state.select_next(len);
    }

    /// Highlights the previous entry, wrapping to the last.
    pub fn previous(&mut self)
        ensures
            final(self).items == old(self).items,
            final(self).state.selected == Some(
                previous_index(old(self).state.selected, old(self).items@.len()),
            ),
    {
        let len = self.items.len();
        self.state.select_previous(len);
    }
}

/// Whether the browsed list is being navigated or edited.
#[derive(PartialEq, Eq, Structural, Clone, Copy, Debug)]
pub enum PlayerState {
    NavigateMode,
    EditMode,
}

/// The state of the player tab.
pub struct MusicLibrary {
    /// The songs, by title.
    pub music_table: Vec<Song>,
    /// The playlists, by name.
    pub playlist_table: Vec<Playlist>,
    /// The entries the user browses.
    pub tree_list: StatefulList,
    pub play_state: PlayerState,
    /// The playlist being browsed, or `Playlists` at the top level.
    pub curr_directory: String,
    pub playing_music: Option<Song>,
    pub music_queue: Vec<Song>,
}

// ---------------------------------------------------------------------------
// Looking songs and playlists up
// ---------------------------------------------------------------------------

/// Whether `t` holds a song titled `name`.
pub open spec fn has_song(t: Seq<Song>, name: Seq<char>) -> bool {
    exists|i: int| 0 <= i < t.len() && #[trigger] t[i].title@ == name
}

/// Whether `i` is the first position of a song titled `name` in `t`.
pub open spec fn is_first_song(t: Seq<Song>, name: Seq<char>, i: int) -> bool {
    &&& 0 <= i < t.len()
    &&& t[i].title@ == name
    &&& forall|j: int| 0 <= j < i ==> #[trigger] t[j].title@ != name
}

/// The first position of a song titled `name` in `t`.
pub open spec fn first_song(t: Seq<Song>, name: Seq<char>) -> int {
    choose|i: int| is_first_song(t, name, i)
}

/// The first song titled `name` in `t`.
pub open spec fn song_named(t: Seq<Song>, name: Seq<char>) -> Song {
    t[first_song(t, name)]
}

/// The titles of the songs of `t`.
pub open spec fn titles_of(t: Seq<Song>) -> Seq<Seq<char>> {
    t.map_values(|s: Song| s.title@)
}

/// Whether no two songs of `t` share a title.
pub open spec fn unique_titles(t: Seq<Song>) -> bool {
    forall|i: int, j: int| 0 <= i < j < t.len() ==> #[trigger] t[i].title@ != #[trigger] t[j].title@
}

/// Whether no two playlists of `p` share a name.
pub open spec fn unique_names(p: Seq<Playlist>) -> bool {
    forall|i: int, j: int| 0 <= i < j < p.len() ==> #[trigger] p[i].name@ != #[trigger] p[j].name@
}

/// Whether `p` holds a playlist named `name`.
pub open spec fn has_playlist(p: Seq<Playlist>, name: Seq<char>) -> bool {
    exists|i: int| 0 <= i < p.len() && #[trigger] p[i].name@ == name
}

/// Whether `i` is the first position of a playlist named `name` in `p`.
pub open spec fn is_first_playlist(p: Seq<Playlist>, name: Seq<char>, i: int) -> bool {
    &&& 0 <= i < p.len()
    &&& p[i].name@ == name
    &&& forall|j: int| 0 <= j < i ==> #[trigger] p[j].name@ != name
}

/// The first position of a playlist named `name` in `p`.
pub open spec fn first_playlist(p: Seq<Playlist>, name: Seq<char>) -> int {
    choose|i: int| is_first_playlist(p, name, i)
}

/// The song titles of the first playlist named `name` in `p`.
pub open spec fn playlist_songs(p: Seq<Playlist>, name: Seq<char>) -> Seq<Seq<char>> {
    views(p[first_playlist(p, name)].songs@)
}

/// The names of the playlists of `p`.
pub open spec fn names_of(p: Seq<Playlist>) -> Seq<Seq<char>> {
    p.map_values(|q: Playlist| q.name@)
}

proof fn lemma_first_song_unique(t: Seq<Song>, name: Seq<char>, i: int)
    requires
        is_first_song(t, name, i),
    ensures
        first_song(t, name) == i,
        has_song(t, name),
{
    let k = first_song(t, name);
    assert(is_first_song(t, name, k));
    if k < i {
        assert(t[k].title@ != name);
    } else if i < k {
        assert(t[i].title@ != name);
    }
}

proof fn lemma_first_playlist_unique(p: Seq<Playlist>, name: Seq<char>, i: int)
    requires
        is_first_playlist(p, name, i),
    ensures
        first_playlist(p, name) == i,
        has_playlist(p, name),
{
    let k = first_playlist(p, name);
    assert(is_first_playlist(p, name, k));
    if k < i {
        assert(p[k].name@ != name);
    } else if i < k {
        assert(p[i].name@ != name);
    }
}

/// A library holding a song titled `name` has a first such song.
pub proof fn lemma_first_song_exists(t: Seq<Song>, name: Seq<char>)
    requires
        has_song(t, name),
    ensures
        is_first_song(t, name, first_song(t, name)),
    decreases t.len(),
{
    let i = choose|i: int| 0 <= i < t.len() && #[trigger] t[i].title@ == name;
    let u = t.take(i);
    if has_song(u, name) {
        lemma_first_song_exists(u, name);
        let k = first_song(u, name);
        assert(is_first_song(t, name, k)) by {
            assert forall|j: int| 0 <= j < k implies #[trigger] t[j].title@ != name by {
                assert(t[j] == u[j]);
            }
            assert(t[k] == u[k]);
        }
        lemma_first_song_unique(t, name, k);
    } else {
        assert(is_first_song(t, name, i)) by {
            assert forall|j: int| 0 <= j < i implies #[trigger] t[j].title@ != name by {
                assert(t[j] == u[j]);
            }
        }
        lemma_first_song_unique(t, name, i);
    }
}

/// A table holding a playlist named `name` has a first such playlist.
proof fn lemma_first_playlist_exists(p: Seq<Playlist>, name: Seq<char>)
    requires
        has_playlist(p, name),
    ensures
        is_first_playlist(p, name, first_playlist(p, name)),
    decreases p.len(),
{
    let i = choose|i: int| 0 <= i < p.len() && #[trigger] p[i].name@ == name;
    let u = p.take(i);
    if has_playlist(u, name) {
        lemma_first_playlist_exists(u, name);
        let k = first_playlist(u, name);
        assert(is_first_playlist(p, name, k)) by {
            assert forall|j: int| 0 <= j < k implies #[trigger] p[j].name@ != name by {
                assert(p[j] == u[j]);
            }
            assert(p[k] == u[k]);
        }
        lemma_first_playlist_unique(p, name, k);
    } else {
        assert(is_first_playlist(p, name, i)) by {
            assert forall|j: int| 0 <= j < i implies #[trigger] p[j].name@ != name by {
                assert(p[j] == u[j]);
            }
        }
        lemma_first_playlist_unique(p, name, i);
    }
}

/// Reading a playlist back after storing it gives the song titles it was
/// stored with.
pub proof fn lemma_read_stored_playlist(
    before: Seq<Playlist>,
    after: Seq<Playlist>,
    name: Seq<char>,
    songs: Seq<Seq<char>>,
)
    requires
        playlists_view(after) == with_playlist_view(before, name, songs),
    ensures
        has_playlist(after, name),
        playlist_songs(after, name) == songs,
{
    let va = playlists_view(after);
    assert(forall|j: int| 0 <= j < after.len() ==> #[trigger] va[j] == (after[j].name@, views(after[j].songs@)));
    if has_playlist(before, name) {
        lemma_first_playlist_exists(before, name);
        let k = first_playlist(before, name);
        let vb = playlists_view(before);
        assert(va.len() == vb.len());
        assert(forall|j: int| 0 <= j < before.len() ==> #[trigger] vb[j] == (before[j].name@, views(before[j].songs@)));
        assert(is_first_playlist(after, name, k)) by {
            assert(va[k] == (name, songs));
            assert forall|j: int| 0 <= j < k implies #[trigger] after[j].name@ != name by {
                assert(va[j] == vb[j]);
            }
        }
        lemma_first_playlist_unique(after, name, k);
    } else {
        let k = before.len() as int;
        let vb = playlists_view(before);
        assert(va.len() == k + 1);
        assert(forall|j: int| 0 <= j < before.len() ==> #[trigger] vb[j] == (before[j].name@, views(before[j].songs@)));
        assert(is_first_playlist(after, name, k)) by {
            assert(va[k] == (name, songs));
            assert forall|j: int| 0 <= j < k implies #[trigger] after[j].name@ != name by {
                assert(va[j] == vb[j]);
                if before[j].name@ == name {
                    assert(has_playlist(before, name));
                }
            }
        }
        lemma_first_playlist_unique(after, name, k);
    }
}

/// Storing a playlist under its name keeps the names of the playlists
/// unique.
pub proof fn lemma_store_keeps_names_unique(
    before: Seq<Playlist>,
    after: Seq<Playlist>,
    name: Seq<char>,
    songs: Seq<Seq<char>>,
)
    requires
        unique_names(before),
        playlists_view(after) == with_playlist_view(before, name, songs),
    ensures
        unique_names(after),
{
    let va = playlists_view(after);
    let vb = playlists_view(before);
    assert(forall|j: int| 0 <= j < after.len() ==> #[trigger] va[j] == (after[j].name@, views(after[j].songs@)));
    assert(forall|j: int| 0 <= j < before.len() ==> #[trigger] vb[j] == (before[j].name@, views(before[j].songs@)));
    if has_playlist(before, name) {
        lemma_first_playlist_exists(before, name);
        let k = first_playlist(before, name);
        assert(va.len() == after.len() && vb.len() == before.len());
        assert(after.len() == before.len());
        assert forall|i: int, j: int| 0 <= i < j < after.len() implies #[trigger] after[i].name@
            != #[trigger] after[j].name@ by {
            assert(va[i] == vb.update(k, (name, songs))[i]);
            assert(va[j] == vb.update(k, (name, songs))[j]);
            assert(before[i].name@ != before[j].name@);
        }
    } else {
        let k = before.len() as int;
        assert(va.len() == after.len() && vb.len() == before.len());
        assert(after.len() == k + 1);
        assert forall|i: int, j: int| 0 <= i < j < after.len() implies #[trigger] after[i].name@
            != #[trigger] after[j].name@ by {
            assert(va[i] == vb.push((name, songs))[i]);
            assert(va[j] == vb.push((name, songs))[j]);
            if j == k {
                if before[i].name@ == name {
                    assert(has_playlist(before, name));
                }
            } else {
                assert(before[i].name@ != before[j].name@);
            }
        }
    }
}

/// The first position of a song titled `title` in `t`.
pub fn find_song(t: &Vec<Song>, title: &str) -> (res: Option<usize>)
    ensures
        res is Some <==> has_song(t@, title@),
        res matches Some(i) ==> i == first_song(t@, title@) && is_first_song(t@, title@, i as int),
{
    let n = t.len();
    for i in 0..n
        invariant
            n == t@.len(),
            forall|j: int| 0 <= j < i ==> #[trigger] t@[j].title@ != title@,
    {
        if str_eq(t[i].title.as_str(), title) {
            proof {
                lemma_first_song_unique(t@, title@, i as int);
            }
            return Some(i);
        }
    }
    None
}

/// The first position of a playlist named `name` in `p`.
pub fn find_playlist(p: &Vec<Playlist>, name: &str) -> (res: Option<usize>)
    ensures
        res is Some <==> has_playlist(p@, name@),
        res matches Some(i) ==> i == first_playlist(p@, name@) && is_first_playlist(
            p@,
            name@,
            i as int,
        ),
{
    let n = p.len();
    for i in 0..n
        invariant
            n == p@.len(),
            forall|j: int| 0 <= j < i ==> #[trigger] p@[j].name@ != name@,
    {
        if str_eq(p[i].name.as_str(), name) {
            proof {
                lemma_first_playlist_unique(p@, name@, i as int);
            }
            return Some(i);
        }
    }
    None
}

/// `t` after storing `song` under its title: it replaces the first song of
/// that title, or comes last when there is none.
pub open spec fn with_song(t: Seq<Song>, song: Song) -> Seq<Song> {
    if has_song(t, song.title@) {
        t.update(first_song(t, song.title@), song)
    } else {
        t.push(song)
    }
}

/// The names and song titles of the playlists of `p`.
pub open spec fn playlists_view(p: Seq<Playlist>) -> Seq<(Seq<char>, Seq<Seq<char>>)> {
    p.map_values(|q: Playlist| (q.name@, views(q.songs@)))
}

/// The view of `p` after storing the playlist `name` with the song titles
/// `songs`: it replaces the first playlist of that name, or comes last when
/// there is none.
pub open spec fn with_playlist_view(p: Seq<Playlist>, name: Seq<char>, songs: Seq<Seq<char>>) -> Seq<
    (Seq<char>, Seq<Seq<char>>),
> {
    if has_playlist(p, name) {
        playlists_view(p).update(first_playlist(p, name), (name, songs))
    } else {
        playlists_view(p).push((name, songs))
    }
}

/// The first position of `x` in `v`.
pub open spec fn position_in(v: Seq<Seq<char>>, x: Seq<char>) -> Option<int>
    decreases v.len(),
{
    if v.len() == 0 {
        None
    } else {
        match position_in(v.drop_last(), x) {
            Some(p) => Some(p),
            None => if v.last() == x {
                Some(v.len() - 1)
            } else {
                None
            },
        }
    }
}

/// The first position of `x` in `v` (`position` on an iterator).
pub fn position_of(v: &Vec<String>, x: &str) -> (res: Option<usize>)
    ensures
        res matches Some(p) ==> position_in(views(v@), x@) == Some(p as int),
        res is None ==> position_in(views(v@), x@) is None,
{
    let n = v.len();
    assert(views(v@).take(0) == Seq::<Seq<char>>::empty());
    for i in 0..n
        invariant
            n == v@.len(),
            position_in(views(v@).take(i as int), x@) is None,
    {
        let ghost t = views(v@).take(i + 1);
        assert(t.drop_last() == views(v@).take(i as int));
        assert(t.last() == v@[i as int]@);
        if str_eq(v[i].as_str(), x) {
            proof {
                lemma_position_prefix(views(v@), x@, i + 1);
            }
            return Some(i);
        }
    }
    assert(views(v@).take(n as int) == views(v@));
    None
}

proof fn lemma_position_prefix(v: Seq<Seq<char>>, x: Seq<char>, k: int)
    requires
        0 <= k <= v.len(),
        position_in(v.take(k), x) is Some,
    ensures
        position_in(v, x) == position_in(v.take(k), x),
    decreases v.len() - k,
{
    if k < v.len() {
        let w = v.drop_last();
        assert(w.take(k) == v.take(k));
        lemma_position_prefix(w, x, k);
    } else {
        assert(v.take(k) == v);
    }
}

impl MusicLibrary {
    /// The browsed list, the player state and the browsed directory are the
    /// same in `self` and `other`.
    pub open spec fn same_browsing(self, other: MusicLibrary) -> bool {
        &&& self.tree_list == other.tree_list
        &&& self.play_state == other.play_state
        &&& self.curr_directory == other.curr_directory
    }

    /// An empty library browsing the top level.
    pub fn new() -> (res: MusicLibrary)
        ensures
            res.music_table@.len() == 0,
            res.playlist_table@.len() == 0,
            res.tree_list.items@.len() == 0,
            res.tree_list.state.selected is None,
            res.play_state == PlayerState::NavigateMode,
            res.curr_directory@ == playlists_directory(),
            res.playing_music is None,
            res.music_queue@.len() == 0,
    {
        MusicLibrary {
            music_table: Vec::new(),
            playlist_table: Vec::new(),
            tree_list: StatefulList::new(),
            play_state: PlayerState::NavigateMode,
            curr_directory: to_string("Playlists"),
            playing_music: None,
            music_queue: Vec::new(),
        }
    }

    /// Stores `song` under its title, replacing a song of the same title.
    pub fn insert_song(&mut self, song: Song)
        ensures
            final(self).music_table@ == with_song(old(self).music_table@, song),
            unique_titles(old(self).music_table@) ==> unique_titles(final(self).music_table@),
            final(self).playlist_table == old(self).playlist_table,
            final(self).same_browsing(*old(self)),
            final(self).playing_music == old(self).playing_music,
            final(self).music_queue == old(self).music_queue,
    {
        proof {
            if unique_titles(self.music_table@) {
                lemma_insert_keeps_titles_unique(self.music_table@, song);
            }
        }
        match find_song(&self.music_table, song.title.as_str()) {
            Some(i) => {
                self.music_table.set(i, song);
            },
            None => {
                self.music_table.push(song);
            },
        }
    }

    /// Stores a playlist read from the database: its name and its song
    /// titles separated by commas.
    pub fn load_playlist_row(&mut self, name: String, song_ids: &str)
        ensures
            playlists_view(final(self).playlist_table@) == with_playlist_view(
                old(self).playlist_table@,
                name@,
                split_on(song_ids@, ','),
            ),
            unique_names(old(self).playlist_table@) ==> unique_names(final(self).playlist_table@),
            final(self).music_table == old(self).music_table,
            final(self).same_browsing(*old(self)),
            final(self).playing_music == old(self).playing_music,
            final(self).music_queue == old(self).music_queue,
    {
        let songs = split_str(song_ids, ',');
        let list = Playlist { name, songs };
        self.insert_playlist(list);
    }

    /// Stores `list` under its name, replacing a playlist of the same name.
    pub fn insert_playlist(&mut self, list: Playlist)
        ensures
            playlists_view(final(self).playlist_table@) == with_playlist_view(
                old(self).playlist_table@,
                list.name@,
                views(list.songs@),
            ),
            unique_names(old(self).playlist_table@) ==> unique_names(final(self).playlist_table@),
            final(self).music_table == old(self).music_table,
            final(self).same_browsing(*old(self)),
            final(self).playing_music == old(self).playing_music,
            final(self).music_queue == old(self).music_queue,
    {
        let ghost before = self.playlist_table@;
        let ghost entry = (list.name@, views(list.songs@));
        match find_playlist(&self.playlist_table, list.name.as_str()) {
            Some(i) => {
                self.playlist_table.set(i, list);
                assert(playlists_view(self.playlist_table@) == playlists_view(before).update(
                    i as int,
                    entry,
                ));
            },
            None => {
                self.playlist_table.push(list);
                assert(playlists_view(self.playlist_table@) == playlists_view(before).push(entry));
            },
        }
        proof {
            if unique_names(before) {
                lemma_store_keeps_names_unique(before, self.playlist_table@, entry.0, entry.1);
            }
        }
    }

    /// Adds the names of the playlists, in table order, to the browsed list.
    pub fn update_entries(&mut self)
        ensures
            views(final(self).tree_list.items@) == views(old(self).tree_list.items@) + names_of(
                old(self).playlist_table@,
            ),
            final(self).tree_list.state == old(self).tree_list.state,
            final(self).music_table == old(self).music_table,
            final(self).playlist_table == old(self).playlist_table,
            final(self).play_state == old(self).play_state,
            final(self).curr_directory == old(self).curr_directory,
            final(self).playing_music == old(self).playing_music,
            final(self).music_queue == old(self).music_queue,
    {
        let n = self.playlist_table.len();
        let ghost start = views(self.tree_list.items@);
        for i in 0..n
            invariant
                n == self.playlist_table@.len(),
                self.playlist_table == old(self).playlist_table,
                self.tree_list.state == old(self).tree_list.state,
                self.music_table == old(self).music_table,
                self.play_state == old(self).play_state,
                self.curr_directory == old(self).curr_directory,
                self.playing_music == old(self).playing_music,
                self.music_queue == old(self).music_queue,
                start == views(old(self).tree_list.items@),
                views(self.tree_list.items@) == start + names_of(self.playlist_table@).take(i as int),
        {
            let name = self.playlist_table[i].name.clone();
            let ghost before = views(self.tree_list.items@);
            self.tree_list.items.push(name);
            assert(views(self.tree_list.items@) == before.push(self.playlist_table@[i as int].name@));
            assert(names_of(self.playlist_table@).take(i + 1) == names_of(self.playlist_table@).take(
                i as int,
            ).push(self.playlist_table@[i as int].name@));
        }
        assert(names_of(self.playlist_table@).take(n as int) == names_of(self.playlist_table@));
    }

    /// Whether the playlist `name` can be resolved into songs: it exists and
    /// has a first entry, and unless that entry stands for every song, each
    /// of its titles is in the library.
    pub open spec fn playlist_resolves(self, name: Seq<char>) -> bool {
        let songs = playlist_songs(self.playlist_table@, name);
        &&& has_playlist(self.playlist_table@, name)
        &&& songs.len() > 0
        &&& songs[0] != all_music_mark() ==> forall|k: int|
            0 <= k < songs.len() ==> has_song(self.music_table@, #[trigger] songs[k])
    }

    /// The songs of the playlist `name`: every song of the library when its
    /// first entry says so, else the library's song for each of its titles.
    pub open spec fn playlist_contents(self, name: Seq<char>) -> Seq<Song> {
        let songs = playlist_songs(self.playlist_table@, name);
        if songs[0] == all_music_mark() {
            self.music_table@
        } else {
            Seq::new(songs.len(), |k: int| song_named(self.music_table@, songs[k]))
        }
    }

    /// Whether the highlighted entry, if any, can be added to the queue:
    /// it is an entry of the list, and a playlist that resolves or the title
    /// of a song of the library.
    pub open spec fn can_enqueue_selection(self) -> bool {
        match self.tree_list.state.selected {
            None => true,
            Some(i) => {
                &&& i < self.tree_list.items@.len()
                &&& if has_prefix(self.tree_list.items@[i as int]@, playlist_mark()) {
                    self.playlist_resolves(self.tree_list.items@[i as int]@)
                } else {
                    has_song(self.music_table@, self.tree_list.items@[i as int]@)
                }
            },
        }
    }

    /// The songs that adding the highlighted entry puts in the queue.
    pub open spec fn selection_songs(self) -> Seq<Song> {
        match self.tree_list.state.selected {
            None => Seq::empty(),
            Some(i) => {
                let item = self.tree_list.items@[i as int]@;
                if has_prefix(item, playlist_mark()) {
                    self.playlist_contents(item)
                } else {
                    seq![song_named(self.music_table@, item)]
                }
            },
        }
    }

    /// Whether the playlist entry `name` resolves into songs.
    fn resolves_playlist(&self, name: &str) -> (res: bool)
        ensures
            res == self.playlist_resolves(name@),
    {
        proof {
            reveal_strlit("12345ALL OF THEM");
        }
        let pi = match find_playlist(&self.playlist_table, name) {
            Some(pi) => pi,
            None => {
                return false;
            },
        };
        let songs = &self.playlist_table[pi].songs;
        if songs.len() == 0 {
            return false;
        }
        if str_eq(songs[0].as_str(), "12345ALL OF THEM") {
            return true;
        }
        assert(views(songs@)[0] == songs@[0]@);
        let n = songs.len();
        for k in 0..n
            invariant
                n == songs@.len(),
                n > 0,
                pi < self.playlist_table@.len(),
                songs == self.playlist_table@[pi as int].songs,
                pi == first_playlist(self.playlist_table@, name@),
                has_playlist(self.playlist_table@, name@),
                views(songs@)[0] != all_music_mark(),
                forall|j: int|
                    0 <= j < k ==> has_song(self.music_table@, #[trigger] views(songs@)[j]),
        {
            if find_song(&self.music_table, songs[k].as_str()).is_none() {
                assert(views(songs@)[k as int] == songs@[k as int]@);
                return false;
            }
        }
        true
    }

    /// Whether the highlighted entry, if any, can be added to the queue.
    pub fn can_add_music_to_list(&self) -> (res: bool)
        ensures
            res == self.can_enqueue_selection(),
    {
        proof {
            reveal_strlit("937798798798798");
        }
        let i = match self.tree_list.state.selected() {
            None => {
                return true;
            },
            Some(i) => i,
        };
        if i >= self.tree_list.items.len() {
            return false;
        }
        let item = self.tree_list.items[i].as_str();
        if starts_with(item, "937798798798798") {
            self.resolves_playlist(item)
        } else {
            find_song(&self.music_table, item).is_some()
        }
    }

    /// Adds the highlighted entry to the end of the queue: every song of a
    /// playlist, or the one song of a title.
    pub fn add_music_to_list(&mut self)
        requires
            old(self).can_enqueue_selection(),
        ensures
            final(self).music_queue@ == old(self).music_queue@ + old(self).selection_songs(),
            final(self).music_table == old(self).music_table,
            final(self).playlist_table == old(self).playlist_table,
            final(self).same_browsing(*old(self)),
            final(self).playing_music == old(self).playing_music,
    {
        proof {
            reveal_strlit("937798798798798");
            reveal_strlit("12345ALL OF THEM");
        }
        let i = match self.tree_list.state.selected() {
            None => {
                return ;
            },
            Some(i) => i,
        };
        let item = self.tree_list.items[i].clone();
        if starts_with(item.as_str(), "937798798798798") {
            let pi = match find_playlist(&self.playlist_table, item.as_str()) {
                Some(pi) => pi,
                None => {
                    return ;
                },
            };
            if str_eq(self.playlist_table[pi].songs[0].as_str(), "12345ALL OF THEM") {
                let n = self.music_table.len();
                let ghost start = self.music_queue@;
                for k in 0..n
                    invariant
                        n == self.music_table@.len(),
                        self.music_table == old(self).music_table,
                        self.playlist_table == old(self).playlist_table,
                        self.same_browsing(*old(self)),
                        self.playing_music == old(self).playing_music,
                        start == old(self).music_queue@,
                        self.music_queue@ == start + self.music_table@.take(k as int),
                {
                    let song = self.music_table[k].duplicate();
                    self.music_queue.push(song);
                    assert(self.music_table@.take(k + 1) == self.music_table@.take(k as int).push(
                        self.music_table@[k as int],
                    ));
                }
                assert(self.music_table@.take(n as int) == self.music_table@);
            } else {
                let n = self.playlist_table[pi].songs.len();
                let ghost start = self.music_queue@;
                let ghost songs = playlist_songs(self.playlist_table@, item@);
                let ghost contents = old(self).playlist_contents(item@);
                for k in 0..n
                    invariant
                        pi < self.playlist_table@.len(),
                        n == self.playlist_table@[pi as int].songs@.len(),
                        pi == first_playlist(self.playlist_table@, item@),
                        songs == views(self.playlist_table@[pi as int].songs@),
                        forall|j: int|
                            0 <= j < n ==> has_song(self.music_table@, #[trigger] songs[j]),
                        contents == Seq::new(
                            songs.len(),
                            |j: int| song_named(self.music_table@, songs[j]),
                        ),
                        self.music_table == old(self).music_table,
                        self.playlist_table == old(self).playlist_table,
                        self.same_browsing(*old(self)),
                        self.playing_music == old(self).playing_music,
                        start == old(self).music_queue@,
                        self.music_queue@ == start + contents.take(k as int),
                {
                    assert(songs[k as int] == self.playlist_table@[pi as int].songs@[k as int]@);
                    let si = match find_song(
                        &self.music_table,
                        self.playlist_table[pi].songs[k].as_str(),
                    ) {
                        Some(si) => si,
                        None => {
                            return ;
                        },
                    };
                    let song = self.music_table[si].duplicate();
                    self.music_queue.push(song);
                    assert(contents.take(k + 1) == contents.take(k as int).push(contents[k as int]));
                }
                assert(contents.take(n as int) == contents);
            }
        } else {
            let si = match find_song(&self.music_table, item.as_str()) {
                Some(si) => si,
                None => {
                    return ;
                },
            };
            let song = self.music_table[si].duplicate();
            self.music_queue.push(song);
        }
    }

    /// What opening the highlighted entry does: a playlist becomes the
    /// browsed directory and the list shows its titles (every title of the
    /// library for the playlist that stands for every song), the highlight
    /// staying where it was; a song title opens nothing.
    pub open spec fn opened_entry(self, after: MusicLibrary) -> bool {
        let item = self.tree_list.items@[self.tree_list.state.selected->0 as int]@;
        if has_prefix(item, playlist_mark()) {
            &&& after.curr_directory@ == item
            &&& views(after.tree_list.items@) == (if playlist_songs(self.playlist_table@, item)[0]
                == all_music_mark() {
                titles_of(self.music_table@)
            } else {
                playlist_songs(self.playlist_table@, item)
            })
            &&& after.tree_list.state == self.tree_list.state
            &&& after.music_table == self.music_table
            &&& after.playlist_table == self.playlist_table
            &&& after.play_state == self.play_state
            &&& after.playing_music == self.playing_music
            &&& after.music_queue == self.music_queue
        } else {
            after == self
        }
    }

    /// What going back to the top level with the playlist names `names`
    /// does: nothing at the top level; elsewhere the list shows `names` and
    /// highlights the playlist that was browsed, or the first entry when it
    /// is not among them.
    pub open spec fn returned_to_playlists(self, after: MusicLibrary, names: Seq<Seq<char>>) -> bool {
        if self.curr_directory@ == playlists_directory() {
            after == self
        } else {
            &&& views(after.tree_list.items@) == names
            &&& after.curr_directory@ == playlists_directory()
            &&& after.tree_list.state.selected == Some(
                match position_in(names, self.curr_directory@) {
                    Some(p) => p as usize,
                    None => 0usize,
                },
            )
            &&& after.music_table == self.music_table
            &&& after.playlist_table == self.playlist_table
            &&& after.play_state == self.play_state
            &&& after.playing_music == self.playing_music
            &&& after.music_queue == self.music_queue
        }
    }

    /// Whether opening the highlighted entry can go ahead: nothing is
    /// highlighted, or an entry of the list is, and if it is a playlist, the
    /// playlist resolves.
    pub open spec fn can_open_selection(self) -> bool {
        match self.tree_list.state.selected {
            None => true,
            Some(i) => {
                &&& i < self.tree_list.items@.len()
                &&& has_prefix(self.tree_list.items@[i as int]@, playlist_mark())
                    ==> self.playlist_resolves(self.tree_list.items@[i as int]@)
            },
        }
    }

    /// Whether the highlighted entry, if any, can be opened.
    pub fn can_open_selected_entry(&self) -> (res: bool)
        ensures
            res == self.can_open_selection(),
    {
        proof {
            reveal_strlit("937798798798798");
        }
        let i = match self.tree_list.state.selected() {
            None => {
                return true;
            },
            Some(i) => i,
        };
        if i >= self.tree_list.items.len() {
            return false;
        }
        let item = self.tree_list.items[i].as_str();
        if starts_with(item, "937798798798798") {
            self.resolves_playlist(item)
        } else {
            true
        }
    }

    /// Opens the highlighted entry. Returns `false` when nothing is
    /// highlighted. A playlist becomes the browsed directory and the list
    /// shows its titles (every title of the library for the playlist that
    /// stands for every song); the highlight stays where it was. A song
    /// title opens nothing.
    pub fn open_selected_entry(&mut self) -> (res: bool)
        requires
            old(self).can_open_selection(),
        ensures
            res == old(self).tree_list.state.selected is Some,
            !res ==> *final(self) == *old(self),
            res ==> old(self).opened_entry(*final(self)),
    {
        proof {
            reveal_strlit("937798798798798");
            reveal_strlit("12345ALL OF THEM");
        }
        let i = match self.tree_list.state.selected() {
            None => {
                return false;
            },
            Some(i) => i,
        };
        let item = self.tree_list.items[i].clone();
        if starts_with(item.as_str(), "937798798798798") {
            let pi = match find_playlist(&self.playlist_table, item.as_str()) {
                Some(pi) => pi,
                None => {
                    return true;
                },
            };
            self.curr_directory = item;
            let mut entries: Vec<String> = Vec::new();
            if str_eq(self.playlist_table[pi].songs[0].as_str(), "12345ALL OF THEM") {
                let n = self.music_table.len();
                for k in 0..n
                    invariant
                        n == self.music_table@.len(),
                        views(entries@) == titles_of(self.music_table@).take(k as int),
                {
                    let ghost before = views(entries@);
                    entries.push(self.music_table[k].title.clone());
                    assert(views(entries@) == before.push(self.music_table@[k as int].title@));
                    assert(titles_of(self.music_table@).take(k + 1) == titles_of(
                        self.music_table@,
                    ).take(k as int).push(self.music_table@[k as int].title@));
                }
                assert(titles_of(self.music_table@).take(n as int) == titles_of(self.music_table@));
            } else {
                let n = self.playlist_table[pi].songs.len();
                let ghost songs = views(self.playlist_table@[pi as int].songs@);
                for k in 0..n
                    invariant
                        pi < self.playlist_table@.len(),
                        n == self.playlist_table@[pi as int].songs@.len(),
                        songs == views(self.playlist_table@[pi as int].songs@),
                        forall|j: int|
                            0 <= j < n ==> has_song(self.music_table@, #[trigger] songs[j]),
                        views(entries@) == songs.take(k as int),
                {
                    assert(songs[k as int] == self.playlist_table@[pi as int].songs@[k as int]@);
                    let si = match find_song(
                        &self.music_table,
                        self.playlist_table[pi].songs[k].as_str(),
                    ) {
                        Some(si) => si,
                        None => {
                            return true;
                        },
                    };
                    let ghost before = views(entries@);
                    entries.push(self.music_table[si].title.clone());
                    assert(views(entries@) == before.push(songs[k as int]));
                    assert(songs.take(k + 1) == songs.take(k as int).push(songs[k as int]));
                }
                assert(songs.take(n as int) == songs);
            }
            self.tree_list.items = entries;
        }
        true
    }

    /// Goes back to the top level of the browsed list, unless already there:
    /// the list shows `names` (the playlist names read from the database)
    /// and highlights the playlist that was being browsed, or the first
    /// entry when it is not among them.
    pub fn return_to_playlists(&mut self, names: Vec<String>)
        ensures
            old(self).returned_to_playlists(*final(self), views(names@)),
    {
        proof {
            reveal_strlit("Playlists");
        }
        if !str_eq(self.curr_directory.as_str(), "Playlists") {
            let temp = self.curr_directory.clone();
            self.tree_list.items = names;
            self.curr_directory = to_string("Playlists");
            let pos = position_of(&self.tree_list.items, temp.as_str());
            match pos {
                Some(index) => self.tree_list.state.select(Some(index)),
                None => self.tree_list.state.select(Some(0)),
            }
        }
    }

    /// Starts the first song of the queue at time `now`, taking it off the
    /// queue; with an empty queue, nothing plays.
    pub fn start_next_song(&mut self, now: u64) -> (res: bool)
        ensures
            res == (old(self).music_queue@.len() > 0),
            res ==> {
                let first = old(self).music_queue@[0];
                &&& final(self).music_queue@ == old(self).music_queue@.drop_first()
                &&& final(self).playing_music matches Some(m) && m.title == first.title && m.path
                    == first.path && m.thumbnail_path == first.thumbnail_path && m.play_position
                    == first.play_position && m.total_duration == first.total_duration
                    && m.start_time == Some(now)
            },
            !res ==> final(self).music_queue == old(self).music_queue,
            !res ==> final(self).playing_music is None,
            final(self).music_table == old(self).music_table,
            final(self).playlist_table == old(self).playlist_table,
            final(self).same_browsing(*old(self)),
    {
        if self.music_queue.len() > 0 {
            let mut music = self.music_queue.remove(0);
            music.start_time = Some(now);
            self.playing_music = Some(music);
            true
        } else {
            self.playing_music = None;
            false
        }
    }

    /// Restarts the clock of the song playing, if it had started, so that it
    /// reads its play position at time `now`.
    pub fn resume_playback(&mut self, now: u64)
        requires
            old(self).playing_music matches Some(m) ==> (m.start_time is Some ==> m.play_position
                <= now),
        ensures
            final(self).playing_music == (match old(self).playing_music {
                Some(m) => Some(
                    if m.start_time is Some {
                        Song { start_time: Some((now - m.play_position) as u64), ..m }
                    } else {
                        m
                    },
                ),
                None => None,
            }),
            final(self).music_table == old(self).music_table,
            final(self).playlist_table == old(self).playlist_table,
            final(self).same_browsing(*old(self)),
            final(self).music_queue == old(self).music_queue,
    {
        match &mut self.playing_music {
            Some(music) => {
                if music.start_time.is_some() {
                    music.start_time = Some(now - music.play_position);
                }
            },
            None => {},
        }
    }

    /// Sets the play position of the song playing to the time elapsed since
    /// it started (zero if `now` is earlier).
    pub fn update_play_position(&mut self, now: u64)
        requires
            old(self).playing_music matches Some(m) ==> m.start_time is Some,
        ensures
            final(self).playing_music == (match old(self).playing_music {
                Some(m) => Some(
                    Song { play_position: now.saturating_sub(m.start_time->0), ..m },
                ),
                None => None,
            }),
            final(self).music_table == old(self).music_table,
            final(self).playlist_table == old(self).playlist_table,
            final(self).same_browsing(*old(self)),
            final(self).music_queue == old(self).music_queue,
    {
        match &mut self.playing_music {
            Some(music) => {
                let start = match music.start_time {
                    Some(t) => t,
                    None => 0,
                };
                music.play_position = now.saturating_sub(start);
            },
            None => {},
        }
    }
}

/// Storing a song under its title keeps the titles of the library unique,
/// and afterwards the library holds that song under that title.
pub proof fn lemma_insert_keeps_titles_unique(t: Seq<Song>, song: Song)
    requires
        unique_titles(t),
    ensures
        unique_titles(with_song(t, song)),
        has_song(with_song(t, song), song.title@),
        song_named(with_song(t, song), song.title@) == song,
{
    let u = with_song(t, song);
    if has_song(t, song.title@) {
        lemma_first_song_exists(t, song.title@);
        let k = first_song(t, song.title@);
        assert forall|i: int, j: int| 0 <= i < j < u.len() implies #[trigger] u[i].title@
            != #[trigger] u[j].title@ by {
            assert(t[i].title@ != t[j].title@);
            if i == k {
                assert(u[i].title@ == t[i].title@);
            }
            if j == k {
                assert(u[j].title@ == t[j].title@);
            }
        }
        assert(is_first_song(u, song.title@, k)) by {
            assert forall|j: int| 0 <= j < k implies #[trigger] u[j].title@ != song.title@ by {
                assert(u[j] == t[j]);
            }
        }
        lemma_first_song_unique(u, song.title@, k);
    } else {
        let k = t.len() as int;
        assert forall|i: int, j: int| 0 <= i < j < u.len() implies #[trigger] u[i].title@
            != #[trigger] u[j].title@ by {
            if j == k {
                if t[i].title@ == song.title@ {
                    assert(has_song(t, song.title@));
                }
            } else {
                assert(t[i].title@ != t[j].title@);
            }
        }
        assert(is_first_song(u, song.title@, k)) by {
            assert forall|j: int| 0 <= j < k implies #[trigger] u[j].title@ != song.title@ by {
                assert(u[j] == t[j]);
                if t[j].title@ == song.title@ {
                    assert(has_song(t, song.title@));
                }
            }
        }
        lemma_first_song_unique(u, song.title@, k);
    }
}

proof fn lemma_position_found(v: Seq<Seq<char>>, x: Seq<char>)
    ensures
        position_in(v, x) matches Some(p) ==> 0 <= p < v.len() && v[p] == x,
    decreases v.len(),
{
    if v.len() > 0 {
        lemma_position_found(v.drop_last(), x);
    }
}

proof fn lemma_position_distinct(v: Seq<Seq<char>>, i: int)
    requires
        v.no_duplicates(),
        0 <= i < v.len(),
    ensures
        position_in(v, v[i]) == Some(i),
    decreases v.len(),
{
    let w = v.drop_last();
    if i == v.len() - 1 {
        lemma_position_found(w, v[i]);
        if let Some(p) = position_in(w, v[i]) {
            assert(w[p] == v[p]);
        }
    } else {
        assert(w[i] == v[i]);
        lemma_position_distinct(w, i);
    }
}

/// Opening a highlighted playlist from the top level and then going back,
/// with the playlist names of the top level, shows the top level again with
/// the same entries and the same highlight, the songs, playlists, queue and
/// song playing untouched.
pub proof fn lemma_open_then_return(
    a: MusicLibrary,
    b: MusicLibrary,
    c: MusicLibrary,
    names: Seq<Seq<char>>,
)
    requires
        a.curr_directory@ == playlists_directory(),
        a.tree_list.state.selected matches Some(i) && i < a.tree_list.items@.len() && has_prefix(
            a.tree_list.items@[i as int]@,
            playlist_mark(),
        ),
        names == views(a.tree_list.items@),
        names.no_duplicates(),
        a.opened_entry(b),
        b.returned_to_playlists(c, names),
    ensures
        views(c.tree_list.items@) == views(a.tree_list.items@),
        c.curr_directory@ == a.curr_directory@,
        c.tree_list.state.selected == a.tree_list.state.selected,
        c.music_table == a.music_table,
        c.playlist_table == a.playlist_table,
        c.play_state == a.play_state,
        c.playing_music == a.playing_music,
        c.music_queue == a.music_queue,
{
    reveal_strlit("937798798798798");
    reveal_strlit("Playlists");
    let i = a.tree_list.state.selected->0 as int;
    let item = a.tree_list.items@[i]@;
    assert(item[0] == playlist_mark()[0]);
    assert(b.curr_directory@ != playlists_directory()) by {
        assert(playlists_directory()[0] != playlist_mark()[0]);
    }
    assert(names[i] == item);
    lemma_position_distinct(names, i);
}

} // verus!
