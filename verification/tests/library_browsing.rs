use id3::{Tag, TagLike};
use ratatuni::database::{music_delete_query, music_insert_query};
use ratatuni::directory_maintainer::DirectoryCatalog;
use ratatuni::display::{display_name, is_playlist_entry, player_label, row_height};
use ratatuni::event::{tallest_thumbnail, player_action, KeyCode, KeyPress, Modifiers, PlayerAction};
use ratatuni::library::{MusicLibrary, PlayerState};
use ratatuni::song::Song;
use ratatuni::selection::Selection;
use ratatuni::input_state::InputState;
use ratatuni::tabs::TabState;

fn song(title: &str, secs: u64) -> Song {
    Song {
        title: title.to_string(),
        path: format!("C:\\m\\{}.mp3", title),
        thumbnail_path: format!("C:\\t\\{}.jpg", title),
        play_position: 0,
        total_duration: secs * 1000,
        start_time: None,
    }
}

fn library() -> MusicLibrary {
    let mut lib = MusicLibrary::new();
    lib.insert_song(song("a", 10));
    lib.insert_song(song("b", 20));
    lib.insert_song(song("c", 30));
    lib.load_playlist_row("937798798798798music".to_string(), "12345ALL OF THEM,");
    lib.load_playlist_row("937798798798798mix".to_string(), "c,a");
    lib.update_entries();
    lib
}

fn titles(v: &[Song]) -> Vec<String> {
    v.iter().map(|s| s.title.clone()).collect()
}

#[test]
fn insert_replaces_same_title() {
    let mut lib = MusicLibrary::new();
    lib.insert_song(song("a", 10));
    lib.insert_song(song("a", 99));
    assert_eq!(lib.music_table.len(), 1);
    assert_eq!(lib.music_table[0].total_duration, 99000);
}

#[test]
fn playlists_load_and_list() {
    let lib = library();
    assert_eq!(lib.playlist_table[0].songs, vec!["12345ALL OF THEM".to_string(), "".to_string()]);
    assert_eq!(lib.playlist_table[1].songs, vec!["c".to_string(), "a".to_string()]);
    assert_eq!(lib.tree_list.items, vec!["937798798798798music".to_string(), "937798798798798mix".to_string()]);
}

#[test]
fn enqueue_all_music_playlist() {
    let mut lib = library();
    lib.tree_list.state.select(Some(0));
    assert!(lib.can_add_music_to_list());
    lib.add_music_to_list();
    assert_eq!(titles(&lib.music_queue), vec!["a", "b", "c"]);
}

#[test]
fn enqueue_playlist_and_song() {
    let mut lib = library();
    lib.tree_list.state.select(Some(1));
    lib.add_music_to_list();
    assert_eq!(titles(&lib.music_queue), vec!["c", "a"]);
    lib.tree_list.items.push("b".to_string());
    lib.tree_list.state.select(Some(2));
    lib.add_music_to_list();
    assert_eq!(titles(&lib.music_queue), vec!["c", "a", "b"]);
    lib.tree_list.state.select(None);
    lib.add_music_to_list();
    assert_eq!(lib.music_queue.len(), 3);
}

#[test]
fn enqueue_conditions() {
    let mut lib = library();
    lib.load_playlist_row("937798798798798broken".to_string(), "zzz");
    lib.tree_list.items.push("937798798798798broken".to_string());
    lib.tree_list.state.select(Some(2));
    assert!(!lib.can_add_music_to_list());
    lib.tree_list.state.select(Some(7));
    assert!(!lib.can_add_music_to_list());
    lib.tree_list.items.push("unknown".to_string());
    lib.tree_list.state.select(Some(3));
    assert!(!lib.can_add_music_to_list());
}

#[test]
fn open_and_return() {
    let mut lib = library();
    lib.tree_list.state.select(Some(1));
    assert!(lib.can_open_selected_entry());
    assert!(lib.open_selected_entry());
    assert_eq!(lib.curr_directory, "937798798798798mix");
    assert_eq!(lib.tree_list.items, vec!["c".to_string(), "a".to_string()]);
    let names = vec!["937798798798798music".to_string(), "937798798798798mix".to_string()];
    lib.return_to_playlists(names.clone());
    assert_eq!(lib.curr_directory, "Playlists");
    assert_eq!(lib.tree_list.items, names);
    assert_eq!(lib.tree_list.state.selected(), Some(1));
    lib.tree_list.state.select(Some(0));
    assert!(lib.open_selected_entry());
    assert_eq!(lib.tree_list.items, vec!["a".to_string(), "b".to_string(), "c".to_string()]);
    lib.return_to_playlists(vec!["other".to_string()]);
    assert_eq!(lib.tree_list.state.selected(), Some(0));
    lib.return_to_playlists(vec![]);
    assert_eq!(lib.tree_list.items, vec!["other".to_string()]);
    lib.tree_list.state.select(None);
    assert!(!lib.open_selected_entry());
}

#[test]
fn queue_plays_in_order() {
    let mut lib = library();
    lib.tree_list.state.select(Some(1));
    lib.add_music_to_list();
    assert!(lib.start_next_song(500));
    let playing = lib.playing_music.as_ref().unwrap();
    assert_eq!(playing.title, "c");
    assert_eq!(playing.start_time, Some(500));
    assert_eq!(titles(&lib.music_queue), vec!["a"]);
    lib.update_play_position(2700);
    assert_eq!(lib.playing_music.as_ref().unwrap().play_position, 2200);
    lib.resume_playback(10000);
    assert_eq!(lib.playing_music.as_ref().unwrap().start_time, Some(7800));
    assert!(lib.start_next_song(0));
    assert!(!lib.start_next_song(0));
    assert!(lib.playing_music.is_none());
}

#[test]
fn player_keys() {
    let k = |code| KeyPress { code, modifiers: Modifiers::Empty };
    assert!(player_action(PlayerState::NavigateMode, k(KeyCode::Char('['))) == PlayerAction::NextTab);
    assert!(player_action(PlayerState::NavigateMode, k(KeyCode::Char(']'))) == PlayerAction::PreviousTab);
    assert!(player_action(PlayerState::NavigateMode, k(KeyCode::Char(' '))) == PlayerAction::PlayPause);
    assert!(player_action(PlayerState::NavigateMode, k(KeyCode::Enter)) == PlayerAction::AddToQueue);
    assert!(player_action(PlayerState::NavigateMode, k(KeyCode::Char('x'))) == PlayerAction::Nothing);
    assert!(player_action(PlayerState::EditMode, k(KeyCode::Up)) == PlayerAction::Unsupported);
}

#[test]
fn tabs_wrap() {
    let mut t = TabState::new();
    assert_eq!(t.titles, vec!["Player".to_string(), "Downloader".to_string()]);
    t.previous();
    assert_eq!(t.index, 1);
    t.next();
    assert_eq!(t.index, 0);
    t.next();
    t.next();
    assert_eq!(t.index, 0);
}

#[test]
fn catalog_paths() {
    let d = DirectoryCatalog::from_home("C:\\Users\\me");
    assert_eq!(d.src_directory, "C:\\Users\\me\\ratatuni");
    assert_eq!(d.music_directory, "C:\\Users\\me\\ratatuni\\music");
    assert_eq!(d.thumbnail_directory, "C:\\Users\\me\\ratatuni\\thumbnails");
    assert_eq!(d.database_file, "C:\\Users\\me\\music_data.db");
    assert_eq!(d.temp_directory, "C:\\Users\\me\\ratatuni\\temp");
    assert_eq!(d.music_file("x"), "C:\\Users\\me\\ratatuni\\music\\x.mp3");
    assert_eq!(d.temp_file("x"), "C:\\Users\\me\\ratatuni\\temp\\x.mp3");
    assert_eq!(d.thumbnail_file("x"), "C:\\Users\\me\\ratatuni\\thumbnails\\x.jpg");
}

#[test]
fn catalog_from_environment() {
    if let Some(d) = DirectoryCatalog::default() {
        assert!(d.src_directory.ends_with("\\ratatuni"));
        assert!(d.database_file.ends_with("\\music_data.db"));
    }
}

#[test]
fn songs_from_tags() {
    let d = DirectoryCatalog::from_home("H");
    let mut tag = Tag::new();
    assert!(d.song_for_file("x.mp3", "H\\ratatuni\\music\\x.mp3", &tag).is_none());
    tag.set_duration(61);
    let s = d.song_for_file("x.mp3", "H\\ratatuni\\music\\x.mp3", &tag).unwrap();
    assert_eq!(s.title, "x");
    assert_eq!(s.thumbnail_path, "H\\ratatuni\\thumbnails\\x.jpg");
    assert_eq!(s.total_duration, 61000);
    assert_eq!(s.start_time, None);
    let t = d.downloaded_song("Song", &tag).unwrap();
    assert_eq!(t.path, "H\\ratatuni\\music\\Song.mp3");
    assert_eq!(t.to_string(), "title: Song ");
    let u = Song::from("a".to_string(), "p".to_string(), "q".to_string(), &tag).unwrap();
    assert_eq!(u.total_duration, 61000);
}

#[test]
fn queries() {
    let s = song("a", 42);
    assert_eq!(
        music_insert_query(&s),
        "INSERT OR IGNORE INTO music (title, path, thumbnail_path, total_duration) SELECT 'a', 'C:\\m\\a.mp3', 'C:\\t\\a.jpg', 42 WHERE NOT EXISTS (SELECT 1 FROM music WHERE title = 'a')"
    );
    assert_eq!(music_delete_query("a"), "DELETE FROM music WHERE title = a");
}

#[test]
fn display_text() {
    assert!(is_playlist_entry("937798798798798music"));
    assert!(!is_playlist_entry("song"));
    assert_eq!(display_name("937798798798798music"), "music");
    assert_eq!(display_name("Playlists"), "Playlists");
    assert_eq!(player_label(65_400, 200_000), "|| 1m 5s | 3m 20s ||");
    assert_eq!(player_label(200_999, 200_000), "|| 3m 20s | 3m 20s ||");
    assert_eq!(player_label(150_000, 200_000), "|| 2m 30s | 3m 20s ||");
    assert_eq!(row_height(&vec!["a\nb".to_string(), "c".to_string()]), 2);
    assert_eq!(row_height(&vec![]), 1);
}

#[test]
fn selection_moves_are_inverse() {
    for len in 1..5usize {
        for i in 0..len {
            let mut s = Selection { selected: Some(i) };
            s.select_next(len);
            s.select_previous(len);
            assert_eq!(s.selected(), Some(i));
            s.select_previous(len);
            s.select_next(len);
            assert_eq!(s.selected(), Some(i));
        }
    }
    let mut s = Selection::new();
    s.select_previous(3);
    assert_eq!(s.selected(), Some(0));
}

#[test]
fn pending_rows_skip_finished() {
    let mut s = InputState::new();
    for st in ["Success", "Dormant", "Failed", "Dormant", "Other"].iter() {
        s.urls_to_download_table_data.push(vec!["u".to_string(), st.to_string()]);
    }
    assert!(s.rows_have_status());
    s.start_download();
    assert_eq!(s.download_index_and_length.1, vec![1, 3, 4]);
    assert_eq!(s.gauge.denom, 12);
    s.urls_to_download_table_data.push(vec!["u".to_string()]);
    assert!(!s.rows_have_status());
}

#[test]
fn tallest_thumbnail_is_first_of_largest() {
    assert_eq!(tallest_thumbnail(&vec![90, 360, 180, 360]), Some(1));
    assert_eq!(tallest_thumbnail(&vec![0, 0]), None);
    assert_eq!(tallest_thumbnail(&vec![]), None);
}

#[test]
fn thumbnail_cells() {
    use_thumbnail_helpers();
}

fn use_thumbnail_helpers() {
    assert!(!ratatuni::display::needs_resize(10, 20, 10, 20));
    assert!(ratatuni::display::needs_resize(10, 20, 11, 20));
    assert_eq!(ratatuni::display::half_block_pixels(3, 2, 10, 6), Some((3, 4, 5)));
    assert_eq!(ratatuni::display::half_block_pixels(3, 2, 10, 5), None);
    assert_eq!(ratatuni::display::half_block_pixels(10, 0, 10, 5), None);
}

#[test]
fn stored_playlist_reads_back() {
    let mut lib = library();
    lib.load_playlist_row("937798798798798mix".to_string(), "b");
    assert_eq!(lib.playlist_table.len(), 2);
    assert_eq!(lib.playlist_table[1].name, "937798798798798mix");
    assert_eq!(lib.playlist_table[1].songs, vec!["b".to_string()]);
    lib.load_playlist_row("937798798798798new".to_string(), "a,b");
    assert_eq!(lib.playlist_table.len(), 3);
    assert_eq!(lib.playlist_table[2].songs, vec!["a".to_string(), "b".to_string()]);
}

#[test]
fn open_then_return_restores_top_level() {
    let mut lib = library();
    let top = lib.tree_list.items.clone();
    for i in 0..top.len() {
        lib.tree_list.state.select(Some(i));
        assert!(lib.open_selected_entry());
        assert_ne!(lib.curr_directory, "Playlists");
        lib.return_to_playlists(top.clone());
        assert_eq!(lib.curr_directory, "Playlists");
        assert_eq!(lib.tree_list.items, top);
        assert_eq!(lib.tree_list.state.selected(), Some(i));
    }
}

#[test]
fn playlist_names_stay_unique() {
    let mut lib = library();
    lib.load_playlist_row("937798798798798mix".to_string(), "a");
    lib.load_playlist_row("937798798798798music".to_string(), "12345ALL OF THEM,");
    let mut names: Vec<String> = lib.playlist_table.iter().map(|p| p.name.clone()).collect();
    names.sort();
    names.dedup();
    assert_eq!(names.len(), lib.playlist_table.len());
    assert_eq!(lib.playlist_table.len(), 2);
}
