use id3::TagLike;
use ratatuni::event::{
    moves_on, next_download_step, progress_label, DownloadStep, KeyCode, KeyPress, Modifiers,
    Shortcut,
};
use ratatuni::input_state::{InputMode, InputState};
use ratatuni::sanitize::sanitize_title;
use ratatuni::tabs::TabState;

fn sanitize_with_std(input: &str) -> String {
    let sanitized: String = input
        .chars()
        .map(|c| {
            if c.is_whitespace() {
                ' '
            } else if c.is_alphanumeric() || c == '_' || c == '.' || c == '\'' || c == '$' {
                c
            } else {
                ' '
            }
        })
        .collect();
    let mut last_char: Option<char> = None;
    let mut result = String::with_capacity(input.len());
    for c in sanitized.chars() {
        match (last_char, c) {
            (Some(' '), ' ') => {}
            (_, _) => result.push(c),
        }
        last_char = Some(c);
    }
    result = result.replace("Official Music Video", "");
    result = result.replace("Official Audio", "");
    result = result.replace("Official Video", "");
    result = result.replace("Official Lyric Video", "");
    result = result.replace("Directed by Cole Bennett", "");
    result = result.replace("official lyric video", "");
    result = result.replace("Audio", "");
    result = result.replace("/", "|");
    result = result.replace("\\", "|");
    result.trim().to_string()
}

fn key(code: KeyCode) -> KeyPress {
    KeyPress { code, modifiers: Modifiers::Empty }
}

fn queue(rows: &[(&str, &str)]) -> InputState {
    let mut s = InputState::new();
    for (url, status) in rows.iter() {
        s.urls_to_download_table_data.push(vec![url.to_string(), status.to_string()]);
    }
    s
}

#[test]
fn sanitize_matches_the_title_rules() {
    let cases = [
        "Artist - Song (Official Music Video)",
        "Song [Official Audio]   feat.  Someone",
        "AC/DC - Back\\In Black",
        "  lots   of    spaces  ",
        "Ünïcödé 曲 ٣ ①",
        "Official Lyric Video only",
        "Directed by Cole Bennett",
        "AuAudiodio",
        "tab\tand\nnewline",
        "",
        "$$$ 'quoted' _under_ dots...",
    ];
    for c in cases.iter() {
        assert_eq!(sanitize_title(c), sanitize_with_std(c), "input {:?}", c);
    }
}

#[test]
fn sanitized_titles_hold_safe_characters() {
    let out = sanitize_title("  a/b\\c  <d>  ");
    assert_eq!(out, "a b c d");
    assert!(!out.starts_with(' ') && !out.ends_with(' '));
    let mut s = InputState::new();
    assert_eq!(s.sanitize_string("x  Official Audio "), "x");
}

#[test]
fn alt_d_on_empty_queue_skips() {
    let mut s = InputState::new();
    let k = KeyPress { code: KeyCode::Char('d'), modifiers: Modifiers::Alt };
    assert!(s.handle_shortcut(k) == Shortcut::SkipRest);
    assert!(s.input_mode == InputMode::Normal);
}

#[test]
fn alt_d_starts_batch_of_pending_rows() {
    let mut s = queue(&[("u0", "Dormant"), ("u1", "Success"), ("u2", "Failed"), ("u3", "Dormant")]);
    let k = KeyPress { code: KeyCode::Char('d'), modifiers: Modifiers::Alt };
    assert!(s.handle_shortcut(k) == Shortcut::Proceed);
    assert_eq!(s.download_index_and_length, (0, vec![0, 3]));
    assert_eq!((s.gauge.numer, s.gauge.denom), (0, 8));
    assert!(s.input_mode == InputMode::Downloading);
    assert_eq!(s.progress_label, "DOWNLOADING ---");
    assert!(s.handle_shortcut(k) == Shortcut::Unsupported);
}

#[test]
fn ctrl_v_pastes_only_when_editing() {
    let mut s = InputState::new();
    let k = KeyPress { code: KeyCode::Char('v'), modifiers: Modifiers::Control };
    assert!(s.handle_shortcut(k) == Shortcut::Proceed);
    s.input_mode = InputMode::Editing;
    assert!(s.handle_shortcut(k) == Shortcut::PasteClipboard);
    let other = KeyPress { code: KeyCode::Char('d'), modifiers: Modifiers::Control };
    assert!(s.handle_shortcut(other) == Shortcut::Proceed);
}

#[test]
fn mode_keys_edit_and_navigate() {
    let mut s = InputState::new();
    let mut tabs = TabState::new();
    tabs.index = 1;
    assert!(!s.handle_mode_key(&mut tabs, key(KeyCode::Char('e'))));
    assert!(s.input_mode == InputMode::Editing);
    assert_eq!(s.progress_label, "EDITING MODE ---");
    for c in "abc".chars() {
        s.handle_mode_key(&mut tabs, key(KeyCode::Char(c)));
    }
    s.handle_mode_key(&mut tabs, key(KeyCode::Left));
    s.handle_mode_key(&mut tabs, key(KeyCode::Backspace));
    assert_eq!(s.input, "ac");
    s.handle_mode_key(&mut tabs, key(KeyCode::Right));
    s.handle_mode_key(&mut tabs, key(KeyCode::Char('q')));
    assert_eq!(s.input, "acq");
    s.handle_mode_key(&mut tabs, key(KeyCode::Enter));
    assert_eq!(s.urls_to_download_table_data, vec![vec!["acq".to_string(), "Dormant".to_string()]]);
    s.handle_mode_key(&mut tabs, key(KeyCode::Esc));
    assert!(s.input_mode == InputMode::Normal);
    assert_eq!(s.progress_label, "VIEW MODE ---");
    s.handle_mode_key(&mut tabs, key(KeyCode::Down));
    assert_eq!(s.urls_to_download_table.selected(), Some(0));
    s.handle_mode_key(&mut tabs, key(KeyCode::Char(']')));
    assert_eq!(tabs.index, 0);
    s.handle_mode_key(&mut tabs, key(KeyCode::Char('[')));
    assert_eq!(tabs.index, 1);
    assert!(s.handle_mode_key(&mut tabs, key(KeyCode::Char('q'))));
}

#[test]
fn progress_labels() {
    assert_eq!(progress_label(0, 2, "GRABBING VIDEO"), "DOWNLOADING 0/2 --> GRABBING VIDEO");
    assert_eq!(progress_label(12, 105, "DONE"), "DOWNLOADING 12/105 --> DONE");
}

#[test]
fn successful_download_counts_four_steps() {
    let mut s = queue(&[("u0", "Dormant"), ("u1", "Dormant")]);
    s.start_download();
    let steps = [
        (DownloadStep::Begin, "DOWNLOADING 0/2 --> GRABBING VIDEO"),
        (DownloadStep::VideoFound, "DOWNLOADING 0/2 --> FOUND VIDEO"),
        (DownloadStep::FetchThumbnail, "DOWNLOADING 0/2 --> GRABBING THUMBNAIL"),
        (DownloadStep::ThumbnailFetched, "DOWNLOADING 0/2 --> DOWNLOADED THUMBNAIL"),
        (DownloadStep::FetchMetadata, "DOWNLOADING 0/2 --> GRABBING METADATA"),
        (DownloadStep::MetadataBuilt, "DOWNLOADING 0/2 --> DOWNLOADED METADATA"),
        (DownloadStep::FetchVideo, "DOWNLOADING 0/2 --> DOWNLOADING VIDEO"),
        (DownloadStep::Downloaded, "DOWNLOADING 0/2 --> DONE"),
    ];
    for (step, label) in steps.iter() {
        s.advance_download(*step);
        assert_eq!(s.progress_label, *label);
    }
    assert_eq!(s.current_download_row(), 0);
    s.mark_downloaded("Title");
    assert_eq!(s.urls_to_download_table_data[0], vec!["Title".to_string(), "Success".to_string()]);
    s.advance_download(DownloadStep::Finish);
    assert_eq!(s.gauge.numer, 4);
    assert_eq!(s.download_index_and_length.0, 1);
    assert!(s.input_mode == InputMode::Downloading);
    for (step, _) in steps.iter() {
        s.advance_download(*step);
    }
    s.advance_download(DownloadStep::Finish);
    assert_eq!(s.gauge.numer, 8);
    assert!(s.input_mode == InputMode::Normal);
    assert_eq!(s.progress_label, "VIEW ---");
}

#[test]
fn failed_thumbnail_ends_only_past_the_end() {
    let mut s = queue(&[("u0", "Dormant")]);
    s.start_download();
    s.advance_download(DownloadStep::Begin);
    s.advance_download(DownloadStep::VideoFound);
    s.advance_download(DownloadStep::ThumbnailMissing);
    assert_eq!(s.progress_label, "DOWNLOADING 0/1 --> FAILED");
    assert_eq!(s.gauge.numer, 4);
    s.advance_download(DownloadStep::SkipAfterMissingThumbnail);
    assert_eq!(s.download_index_and_length.0, 1);
    assert!(s.input_mode == InputMode::Downloading);
}

#[test]
fn failed_metadata_ends_at_the_end() {
    let mut s = queue(&[("u0", "Dormant")]);
    s.start_download();
    for step in [DownloadStep::Begin, DownloadStep::VideoFound, DownloadStep::FetchThumbnail, DownloadStep::ThumbnailFetched, DownloadStep::FetchMetadata, DownloadStep::MetadataMissing].iter() {
        s.advance_download(*step);
    }
    assert_eq!(s.gauge.numer, 4);
    s.advance_download(DownloadStep::SkipAfterMissingMetadata);
    assert!(s.input_mode == InputMode::Normal);
    assert_eq!(s.progress_label, "VIEW ---");
}

#[test]
fn grab_video_failure_marks_row() {
    let mut s = queue(&[("   ", "Dormant")]);
    s.start_download();
    assert!(s.grab_video(0).is_none());
    assert_eq!(s.urls_to_download_table_data[0][1], "Failed");
    assert_eq!(s.download_index_and_length.0, 1);
    assert_eq!(s.gauge.numer, 1);
    s.advance_download(DownloadStep::VideoMissing);
    assert_eq!(s.progress_label, "DOWNLOADING 1/1 --> FAILED");
    s.advance_download(DownloadStep::SkipAfterMissingVideo);
    assert_eq!(s.gauge.numer, 4);
    assert_eq!(s.download_index_and_length.0, 2);
    assert!(s.input_mode == InputMode::Normal);
}

#[test]
fn grab_video_success_leaves_state() {
    let mut s = queue(&[("  https://www.youtube.com/watch?v=dQw4w9WgXcQ ", "Dormant")]);
    let v = s.grab_video(0);
    assert!(v.is_some());
    assert_eq!(s.urls_to_download_table_data[0][1], "Dormant");
    assert_eq!(s.gauge.numer, 0);
}

#[test]
fn metadata_records_title_length_and_url() {
    let mut s = InputState::new();
    let tag = s.create_metadata("213", "https://youtu.be/x", &"My Song".to_string()).unwrap();
    assert_eq!(tag.title(), Some("My Song"));
    assert_eq!(tag.duration(), Some(213));
    assert_eq!(tag.genre(), Some("https://youtu.be/x"));
}

#[test]
fn grab_failure_on_row_without_status() {
    let mut s = InputState::new();
    s.urls_to_download_table_data.push(vec!["only url".to_string()]);
    s.mark_grab_failed(0);
    assert_eq!(s.urls_to_download_table_data[0], vec!["only url".to_string()]);
    assert_eq!(s.download_index_and_length.0, 1);
    assert_eq!(s.gauge.numer, 1);
}

fn walk(outcomes: [bool; 3]) -> (Vec<DownloadStep>, u64) {
    let mut s = queue(&[("u", "Dormant")]);
    s.start_download();
    let mut steps = Vec::new();
    let mut step = DownloadStep::Begin;
    loop {
        steps.push(step);
        s.advance_download(step);
        if moves_on(step) {
            break;
        }
        let ok = match step {
            DownloadStep::Begin => {
                if !outcomes[0] {
                    s.gauge.increase_numerator();
                }
                outcomes[0]
            }
            DownloadStep::FetchThumbnail => outcomes[1],
            DownloadStep::FetchMetadata => outcomes[2],
            _ => true,
        };
        step = next_download_step(step, ok);
    }
    (steps, s.gauge.numer)
}

#[test]
fn download_steps_follow_outcomes() {
    let (steps, gauge) = walk([false, true, true]);
    assert_eq!(steps, vec![DownloadStep::Begin, DownloadStep::VideoMissing, DownloadStep::SkipAfterMissingVideo]);
    assert_eq!(gauge, 4);
    let (steps, gauge) = walk([true, false, true]);
    assert_eq!(steps, vec![DownloadStep::Begin, DownloadStep::VideoFound, DownloadStep::FetchThumbnail, DownloadStep::ThumbnailMissing, DownloadStep::SkipAfterMissingThumbnail]);
    assert_eq!(gauge, 4);
    let (steps, gauge) = walk([true, true, false]);
    assert_eq!(steps, vec![DownloadStep::Begin, DownloadStep::VideoFound, DownloadStep::FetchThumbnail, DownloadStep::ThumbnailFetched, DownloadStep::FetchMetadata, DownloadStep::MetadataMissing, DownloadStep::SkipAfterMissingMetadata]);
    assert_eq!(gauge, 4);
    let (steps, gauge) = walk([true, true, true]);
    assert_eq!(steps, vec![DownloadStep::Begin, DownloadStep::VideoFound, DownloadStep::FetchThumbnail, DownloadStep::ThumbnailFetched, DownloadStep::FetchMetadata, DownloadStep::MetadataBuilt, DownloadStep::FetchVideo, DownloadStep::Downloaded, DownloadStep::Finish]);
    assert_eq!(gauge, 4);
    assert!(next_download_step(DownloadStep::Finish, false) == DownloadStep::Begin);
    assert!(next_download_step(DownloadStep::SkipAfterMissingVideo, true) == DownloadStep::Begin);
}

#[test]
fn clean_titles_are_kept() {
    for c in ["It's_$1.50", "Hello World", "a.b c_d", ""] {
        assert_eq!(sanitize_title(c), c);
    }
}

#[test]
fn file_names_hold_no_separators() {
    let mut s = InputState::new();
    for title in ["a/b\\c|d", "x\ty\u{1}z", "  /  ", "Song | Artist / Live \\ 2020"] {
        let r = s.sanitize_string(title);
        assert!(!r.contains('/') && !r.contains('\\') && !r.contains('|'), "{:?}", r);
        assert!(r.chars().all(|c| c == ' ' || c.is_alphanumeric() || "_.'$".contains(c)), "{:?}", r);
    }
    assert_eq!(s.sanitize_string("It's_$1.50"), "It's_$1.50");
}
