//! What a key press does on each tab, and the steps of a batch of
//! downloads. The program's event loop reads the keys, talks to the
//! network, the audio output and the database, and draws; the decisions and
//! the state changes are here.

use vstd::prelude::*;
use crate::gauge_state::GaugeState;
use crate::input_state::{InputMode, InputState, rows_view};
use crate::library::PlayerState;
use crate::selection::{next_index, previous_index};
use crate::tabs::TabState;
use crate::text::{decimal, push_decimal, push_str, str_eq, to_string, views};

verus! {

/// The key of a key press.
#[derive(PartialEq, Eq, Structural, Clone, Copy, Debug)]
pub enum KeyCode {
    Char(char),
    Up,
    Down,
    Left,
    Right,
    Enter,
    Backspace,
    Esc,
    Other,
}

/// The exact set of modifier keys held during a key press.
#[derive(PartialEq, Eq, Structural, Clone, Copy, Debug)]
pub enum Modifiers {
    /// No modifier.
    Empty,
    /// Alt alone.
    Alt,
    /// Control alone.
    Control,
    /// Any other combination.
    Other,
}

/// A key press.
#[derive(PartialEq, Eq, Structural, Clone, Copy, Debug)]
pub struct KeyPress {
    pub code: KeyCode,
    pub modifiers: Modifiers,
}

// ---------------------------------------------------------------------------
// The download tab
// ---------------------------------------------------------------------------

/// Whether the key press is Alt+d, which starts a batch of downloads.
pub open spec fn is_start_download(key: KeyPress) -> bool {
    key.code == KeyCode::Char('d') && key.modifiers == Modifiers::Alt
}

/// Whether the key press is Control+v, which pastes while editing.
pub open spec fn is_paste(key: KeyPress) -> bool {
    key.code == KeyCode::Char('v') && key.modifiers == Modifiers::Control
}

/// What the shortcut keys of the download tab call for.
#[derive(PartialEq, Eq, Structural, Clone, Copy, Debug)]
pub enum Shortcut {
    /// Go on to the keys of the current mode.
    Proceed,
    /// Ignore the rest of this round of the event loop.
    SkipRest,
    /// Type the clipboard's text, then go on to the keys of the mode.
    PasteClipboard,
    /// Starting a batch while one runs is not supported.
    Unsupported,
}

/// Whether every row of the queue has a status cell.
pub open spec fn rows_have_status(rows: Seq<Seq<Seq<char>>>) -> bool {
    forall|i: int| 0 <= i < rows.len() ==> #[trigger] rows[i].len() >= 2
}

/// The positions, in order, of the rows among the first `n` whose status
/// is neither `Success` nor `Failed`.
pub open spec fn pending_upto(rows: Seq<Seq<Seq<char>>>, n: int) -> Seq<usize>
    decreases n,
{
    if n <= 0 {
        Seq::empty()
    } else {
        let p = pending_upto(rows, n - 1);
        if rows[n - 1][1] != "Success"@ && rows[n - 1][1] != "Failed"@ {
            p.push((n - 1) as usize)
        } else {
            p
        }
    }
}

/// The positions, in order, of the rows still to download.
pub open spec fn pending_rows(rows: Seq<Seq<Seq<char>>>) -> Seq<usize> {
    pending_upto(rows, rows.len() as int)
}

/// The steps planned for `n` downloads: four each, as much as fits.
pub open spec fn planned_steps(n: nat) -> u64 {
    if 4 * n <= u64::MAX {
        (4 * n) as u64
    } else {
        u64::MAX
    }
}

/// The label shown at a stage of a batch: the position in the batch, the
/// size of the batch and the stage.
pub open spec fn progress_text(i: nat, n: nat, stage: Seq<char>) -> Seq<char> {
    "DOWNLOADING "@ + decimal(i) + "/"@ + decimal(n) + " --> "@ + stage
}

/// The stages of the download of one video, in the order the event loop
/// meets them, and their failures.
#[derive(PartialEq, Eq, Structural, Clone, Copy, Debug)]
pub enum DownloadStep {
    /// Before fetching the video handle.
    Begin,
    /// No video handle could be had.
    VideoMissing,
    /// After showing that failure: on to the next video.
    SkipAfterMissingVideo,
    /// The video handle was found.
    VideoFound,
    /// Before fetching the thumbnail.
    FetchThumbnail,
    /// The thumbnail was saved.
    ThumbnailFetched,
    /// The thumbnail could not be had.
    ThumbnailMissing,
    /// After showing that failure: on to the next video.
    SkipAfterMissingThumbnail,
    /// Before building the metadata.
    FetchMetadata,
    /// No metadata could be built.
    MetadataMissing,
    /// After showing that failure: on to the next video.
    SkipAfterMissingMetadata,
    /// The metadata was built.
    MetadataBuilt,
    /// Before downloading the video.
    FetchVideo,
    /// The video is downloaded, converted and tagged.
    Downloaded,
    /// After showing that: on to the next video.
    Finish,
}

/// The stage named in the label at a step, if the step sets the label.
pub open spec fn step_stage(step: DownloadStep) -> Option<Seq<char>> {
    match step {
        DownloadStep::Begin => Some("GRABBING VIDEO"@),
        DownloadStep::VideoMissing => Some("FAILED"@),
        DownloadStep::VideoFound => Some("FOUND VIDEO"@),
        DownloadStep::FetchThumbnail => Some("GRABBING THUMBNAIL"@),
        DownloadStep::ThumbnailFetched => Some("DOWNLOADED THUMBNAIL"@),
        DownloadStep::ThumbnailMissing => Some("FAILED"@),
        DownloadStep::FetchMetadata => Some("GRABBING METADATA"@),
        DownloadStep::MetadataMissing => Some("FAILED"@),
        DownloadStep::MetadataBuilt => Some("DOWNLOADED METADATA"@),
        DownloadStep::FetchVideo => Some("DOWNLOADING VIDEO"@),
        DownloadStep::Downloaded => Some("DONE"@),
        _ => None,
    }
}

/// The gauge steps a download step adds.
pub open spec fn step_gain(step: DownloadStep) -> nat {
    match step {
        DownloadStep::SkipAfterMissingVideo => 3,
        DownloadStep::VideoFound => 1,
        DownloadStep::ThumbnailFetched => 1,
        DownloadStep::ThumbnailMissing => 3,
        DownloadStep::MetadataMissing => 2,
        DownloadStep::MetadataBuilt => 1,
        DownloadStep::Downloaded => 1,
        _ => 0,
    }
}

/// Whether the step moves the batch on to the next video.
pub open spec fn step_moves_on(step: DownloadStep) -> bool {
    step == DownloadStep::SkipAfterMissingVideo || step == DownloadStep::SkipAfterMissingThumbnail
        || step == DownloadStep::SkipAfterMissingMetadata || step == DownloadStep::Finish
}

/// Whether, after moving on to position `i` of a batch of `n`, the batch is
/// over. After a missing video or thumbnail it is over only past the end;
/// otherwise it is over at the end.
pub open spec fn batch_over(step: DownloadStep, i: int, n: int) -> bool {
    if step == DownloadStep::SkipAfterMissingVideo || step
        == DownloadStep::SkipAfterMissingThumbnail {
        i > n
    } else {
        i >= n
    }
}

/// The gauge steps a sequence of download steps adds.
pub open spec fn path_gain(path: Seq<DownloadStep>) -> nat
    decreases path.len(),
{
    if path.len() == 0 {
        0
    } else {
        path_gain(path.drop_last()) + step_gain(path.last())
    }
}

/// The step that follows `step`. `ok` says whether the work done at `step`
/// succeeded: getting the video handle at `Begin`, the thumbnail at
/// `FetchThumbnail`, the metadata at `FetchMetadata`; at other steps it is
/// not looked at. After a step that moves on, the next video begins.
pub open spec fn step_after(step: DownloadStep, ok: bool) -> DownloadStep {
    match step {
        DownloadStep::Begin => if ok {
            DownloadStep::VideoFound
        } else {
            DownloadStep::VideoMissing
        },
        DownloadStep::VideoMissing => DownloadStep::SkipAfterMissingVideo,
        DownloadStep::VideoFound => DownloadStep::FetchThumbnail,
        DownloadStep::FetchThumbnail => if ok {
            DownloadStep::ThumbnailFetched
        } else {
            DownloadStep::ThumbnailMissing
        },
        DownloadStep::ThumbnailFetched => DownloadStep::FetchMetadata,
        DownloadStep::ThumbnailMissing => DownloadStep::SkipAfterMissingThumbnail,
        DownloadStep::FetchMetadata => if ok {
            DownloadStep::MetadataBuilt
        } else {
            DownloadStep::MetadataMissing
        },
        DownloadStep::MetadataMissing => DownloadStep::SkipAfterMissingMetadata,
        DownloadStep::MetadataBuilt => DownloadStep::FetchVideo,
        DownloadStep::FetchVideo => DownloadStep::Downloaded,
        DownloadStep::Downloaded => DownloadStep::Finish,
        _ => DownloadStep::Begin,
    }
}

/// The step that follows `step`, given whether the work done at it
/// succeeded.
pub fn next_download_step(step: DownloadStep, ok: bool) -> (res: DownloadStep)
    ensures
        res == step_after(step, ok),
{
    match step {
        DownloadStep::Begin => if ok {
            DownloadStep::VideoFound
        } else {
            DownloadStep::VideoMissing
        },
        DownloadStep::VideoMissing => DownloadStep::SkipAfterMissingVideo,
        DownloadStep::VideoFound => DownloadStep::FetchThumbnail,
        DownloadStep::FetchThumbnail => if ok {
            DownloadStep::ThumbnailFetched
        } else {
            DownloadStep::ThumbnailMissing
        },
        DownloadStep::ThumbnailFetched => DownloadStep::FetchMetadata,
        DownloadStep::ThumbnailMissing => DownloadStep::SkipAfterMissingThumbnail,
        DownloadStep::FetchMetadata => if ok {
            DownloadStep::MetadataBuilt
        } else {
            DownloadStep::MetadataMissing
        },
        DownloadStep::MetadataMissing => DownloadStep::SkipAfterMissingMetadata,
        DownloadStep::MetadataBuilt => DownloadStep::FetchVideo,
        DownloadStep::FetchVideo => DownloadStep::Downloaded,
        DownloadStep::Downloaded => DownloadStep::Finish,
        _ => DownloadStep::Begin,
    }
}

/// Whether the step moves the batch on to the next video.
pub fn moves_on(step: DownloadStep) -> (res: bool)
    ensures
        res == step_moves_on(step),
{
    match step {
        DownloadStep::SkipAfterMissingVideo | DownloadStep::SkipAfterMissingThumbnail
        | DownloadStep::SkipAfterMissingMetadata | DownloadStep::Finish => true,
        _ => false,
    }
}

/// The steps met from `step` on, `outcomes` saying in turn whether the work
/// at each step succeeded, up to the first step that moves on.
pub open spec fn steps_from(step: DownloadStep, outcomes: Seq<bool>) -> Seq<DownloadStep>
    decreases outcomes.len(),
{
    if step_moves_on(step) || outcomes.len() == 0 {
        seq![step]
    } else {
        seq![step] + steps_from(step_after(step, outcomes[0]), outcomes.drop_first())
    }
}

/// The gauge steps the download of one video adds: those of its steps, and
/// the one that `grab_video` adds when no video handle can be had.
pub open spec fn video_gain(path: Seq<DownloadStep>) -> nat {
    path_gain(path) + if path.contains(DownloadStep::VideoMissing) {
        1nat
    } else {
        0nat
    }
}

/// Whatever way the download of a video goes, its steps from `Begin` end
/// with the one step that moves on to the next video, and they add four
/// steps to the gauge, the four steps planned for it.
pub proof fn lemma_every_video_counts_four(outcomes: Seq<bool>)
    requires
        outcomes.len() >= 8,
    ensures
        ({
            let path = steps_from(DownloadStep::Begin, outcomes);
            &&& step_moves_on(path.last())
            &&& forall|k: int| 0 <= k < path.len() - 1 ==> !step_moves_on(#[trigger] path[k])
            &&& video_gain(path) == 4
        }),
{
    reveal_with_fuel(steps_from, 10);
    reveal_with_fuel(path_gain, 10);
    let o = outcomes;
    let path = steps_from(DownloadStep::Begin, o);
    if !o[0] {
        assert(path =~= seq![
            DownloadStep::Begin,
            DownloadStep::VideoMissing,
            DownloadStep::SkipAfterMissingVideo,
        ]);
        assert(path[1] == DownloadStep::VideoMissing);
    } else if !o[2] {
        assert(path =~= seq![
            DownloadStep::Begin,
            DownloadStep::VideoFound,
            DownloadStep::FetchThumbnail,
            DownloadStep::ThumbnailMissing,
            DownloadStep::SkipAfterMissingThumbnail,
        ]);
    } else if !o[4] {
        assert(path =~= seq![
            DownloadStep::Begin,
            DownloadStep::VideoFound,
            DownloadStep::FetchThumbnail,
            DownloadStep::ThumbnailFetched,
            DownloadStep::FetchMetadata,
            DownloadStep::MetadataMissing,
            DownloadStep::SkipAfterMissingMetadata,
        ]);
    } else {
        assert(path =~= seq![
            DownloadStep::Begin,
            DownloadStep::VideoFound,
            DownloadStep::FetchThumbnail,
            DownloadStep::ThumbnailFetched,
            DownloadStep::FetchMetadata,
            DownloadStep::MetadataBuilt,
            DownloadStep::FetchVideo,
            DownloadStep::Downloaded,
            DownloadStep::Finish,
        ]);
    }
}

/// The gauge steps a batch adds, `outcomes[k]` giving the outcomes of the
/// steps of its `k`-th video.
pub open spec fn batch_gain(outcomes: Seq<Seq<bool>>) -> nat
    decreases outcomes.len(),
{
    if outcomes.len() == 0 {
        0
    } else {
        batch_gain(outcomes.drop_last()) + video_gain(
            steps_from(DownloadStep::Begin, outcomes.last()),
        )
    }
}

/// Whatever happens to each video of a batch, its steps fill the gauge
/// exactly: they add the steps that `start_download` planned for the batch.
pub proof fn lemma_batch_fills_gauge(outcomes: Seq<Seq<bool>>)
    requires
        forall|k: int| 0 <= k < outcomes.len() ==> #[trigger] outcomes[k].len() >= 8,
        4 * outcomes.len() <= u64::MAX,
    ensures
        batch_gain(outcomes) == planned_steps(outcomes.len()),
    decreases outcomes.len(),
{
    if outcomes.len() > 0 {
        let rest = outcomes.drop_last();
        assert forall|k: int| 0 <= k < rest.len() implies #[trigger] rest[k].len() >= 8 by {
            assert(rest[k] == outcomes[k]);
        }
        lemma_batch_fills_gauge(rest);
        assert(outcomes.last() == outcomes[outcomes.len() - 1]);
        lemma_every_video_counts_four(outcomes.last());
    }
}

fn stage_text(step: DownloadStep) -> (res: Option<&'static str>)
    ensures
        res matches Some(s) ==> step_stage(step) == Some(s@),
        res is None ==> step_stage(step) is None,
{
    match step {
        DownloadStep::Begin => Some("GRABBING VIDEO"),
        DownloadStep::VideoMissing => Some("FAILED"),
        DownloadStep::VideoFound => Some("FOUND VIDEO"),
        DownloadStep::FetchThumbnail => Some("GRABBING THUMBNAIL"),
        DownloadStep::ThumbnailFetched => Some("DOWNLOADED THUMBNAIL"),
        DownloadStep::ThumbnailMissing => Some("FAILED"),
        DownloadStep::FetchMetadata => Some("GRABBING METADATA"),
        DownloadStep::MetadataMissing => Some("FAILED"),
        DownloadStep::MetadataBuilt => Some("DOWNLOADED METADATA"),
        DownloadStep::FetchVideo => Some("DOWNLOADING VIDEO"),
        DownloadStep::Downloaded => Some("DONE"),
        _ => None,
    }
}

fn gain_of(step: DownloadStep) -> (res: u64)
    ensures
        res == step_gain(step),
{
    match step {
        DownloadStep::SkipAfterMissingVideo => 3,
        DownloadStep::VideoFound => 1,
        DownloadStep::ThumbnailFetched => 1,
        DownloadStep::ThumbnailMissing => 3,
        DownloadStep::MetadataMissing => 2,
        DownloadStep::MetadataBuilt => 1,
        DownloadStep::Downloaded => 1,
        _ => 0,
    }
}

/// The label for position `i` of a batch of `n` at `stage`.
pub fn progress_label(i: usize, n: usize, stage: &str) -> (res: String)
    ensures
        res@ == progress_text(i as nat, n as nat, stage@),
{
    let mut s = to_string("DOWNLOADING ");
    push_decimal(&mut s, i as u64);
    push_str(&mut s, "/");
    push_decimal(&mut s, n as u64);
    push_str(&mut s, " --> ");
    push_str(&mut s, stage);
    s
}

impl InputState {
    /// Whether every row of the queue has a status cell.
    pub fn rows_have_status(&self) -> (res: bool)
        ensures
            res == rows_have_status(rows_view(self.urls_to_download_table_data@)),
    {
        let n = self.urls_to_download_table_data.len();
        for i in 0..n
            invariant
                n == self.urls_to_download_table_data@.len(),
                forall|j: int|
                    0 <= j < i ==> #[trigger] rows_view(self.urls_to_download_table_data@)[j].len()
                        >= 2,
        {
            if self.urls_to_download_table_data[i].len() < 2 {
                assert(rows_view(self.urls_to_download_table_data@)[i as int].len() < 2);
                return false;
            }
        }
        true
    }

    /// Starts a batch with every row still to download: the gauge plans
    /// four steps for each, the tab shows the batch running.
    pub fn start_download(&mut self)
        requires
            rows_have_status(rows_view(old(self).urls_to_download_table_data@)),
        ensures
            final(self).download_index_and_length.0 == 0,
            final(self).download_index_and_length.1@ == pending_rows(
                rows_view(old(self).urls_to_download_table_data@),
            ),
            final(self).gauge.numer == 0,
            final(self).gauge.denom == planned_steps(
                pending_rows(rows_view(old(self).urls_to_download_table_data@)).len(),
            ),
            final(self).input_mode == InputMode::Downloading,
            final(self).progress_label@ == "DOWNLOADING ---"@,
            final(self).input == old(self).input,
            final(self).cursor_position == old(self).cursor_position,
            final(self).urls_to_download_table == old(self).urls_to_download_table,
            final(self).urls_to_download_table_data == old(self).urls_to_download_table_data,
    {
        proof {
            reveal_strlit("Success");
            reveal_strlit("Failed");
        }
        let ghost rows = rows_view(self.urls_to_download_table_data@);
        let mut res: Vec<usize> = Vec::new();
        let n = self.urls_to_download_table_data.len();
        for i in 0..n
            invariant
                n == self.urls_to_download_table_data@.len(),
                rows == rows_view(self.urls_to_download_table_data@),
                rows_have_status(rows),
                res@ == pending_upto(rows, i as int),
        {
            let row = &self.urls_to_download_table_data[i];
            assert(rows[i as int].len() >= 2);
            assert(rows[i as int][1] == row@[1]@);
            if !str_eq(row[1].as_str(), "Success") && !str_eq(row[1].as_str(), "Failed") {
                res.push(i);
            }
        }
        let len = res.len();
        self.download_index_and_length = (0, res);
        self.gauge.set_numerator(0);
        let denom: u64 = if (len as u64) <= u64::MAX / 4 {
            len as u64 * 4
        } else {
            u64::MAX
        };
        self.gauge.set_denominator(denom);
        self.input_mode = InputMode::Downloading;
        self.progress_label = to_string("DOWNLOADING ---");
    }

    /// The shortcut keys of the download tab, looked at before the keys of the
    /// mode: Alt+d starts a batch when viewing a non-empty queue (and skips
    /// the rest of the round on an empty one); Control+v asks for the
    /// clipboard while editing.
    pub fn handle_shortcut(&mut self, key: KeyPress) -> (res: Shortcut)
        requires
            is_start_download(key) && old(self).input_mode == InputMode::Normal
                && old(self).urls_to_download_table_data@.len() > 0 ==> rows_have_status(
                rows_view(old(self).urls_to_download_table_data@),
            ),
        ensures
            is_start_download(key) ==> match old(self).input_mode {
                InputMode::Normal => if old(self).urls_to_download_table_data@.len() == 0 {
                    res == Shortcut::SkipRest && *final(self) == *old(self)
                } else {
                    &&& res == Shortcut::Proceed
                    &&& final(self).download_index_and_length.0 == 0
                    &&& final(self).download_index_and_length.1@ == pending_rows(
                        rows_view(old(self).urls_to_download_table_data@),
                    )
                    &&& final(self).gauge.numer == 0
                    &&& final(self).gauge.denom == planned_steps(
                        pending_rows(rows_view(old(self).urls_to_download_table_data@)).len(),
                    )
                    &&& final(self).input_mode == InputMode::Downloading
                    &&& final(self).progress_label@ == "DOWNLOADING ---"@
                    &&& final(self).input == old(self).input
                    &&& final(self).cursor_position == old(self).cursor_position
                    &&& final(self).urls_to_download_table == old(self).urls_to_download_table
                    &&& final(self).urls_to_download_table_data == old(
                        self,
                    ).urls_to_download_table_data
                },
                InputMode::Editing => res == Shortcut::Proceed && *final(self) == *old(self),
                InputMode::Downloading => res == Shortcut::Unsupported && *final(self) == *old(
                    self,
                ),
            },
            is_paste(key) ==> *final(self) == *old(self) && res == (if old(self).input_mode
                == InputMode::Editing {
                Shortcut::PasteClipboard
            } else {
                Shortcut::Proceed
            }),
            !is_start_download(key) && !is_paste(key) ==> res == Shortcut::Proceed && *final(self)
                == *old(self),
    {
        if key.code == KeyCode::Char('d') && key.modifiers == Modifiers::Alt {
            match self.input_mode {
                InputMode::Normal => {
                    if self.urls_to_download_table_data.len() == 0 {
                        return Shortcut::SkipRest;
                    }
                    self.start_download();
                    Shortcut::Proceed
                },
                InputMode::Editing => Shortcut::Proceed,
                InputMode::Downloading => Shortcut::Unsupported,
            }
        } else if key.code == KeyCode::Char('v') && key.modifiers == Modifiers::Control {
            match self.input_mode {
                InputMode::Editing => Shortcut::PasteClipboard,
                _ => Shortcut::Proceed,
            }
        } else {
            Shortcut::Proceed
        }
    }

    /// The keys of the current mode of the download tab. Returns `true` for
    /// the key that quits the program.
    ///
    /// Viewing: `e` edits, `q` quits, `]` and `[` change tab, Down and Up
    /// move the highlight in the queue. Editing: Backspace deletes, Enter
    /// queues the URL, a character is typed, Left and Right move the cursor,
    /// Esc goes back to viewing. During a batch: `]` and `[` change tab.
    pub fn handle_mode_key(&mut self, tabs: &mut TabState, key: KeyPress) -> (quit: bool)
        requires
            old(tabs).well_formed(),
            old(self).input_mode == InputMode::Editing ==> (key.code matches KeyCode::Char(_)
                ==> is_boundary_at_cursor(*old(self))),
        ensures
            final(tabs).well_formed(),
            final(tabs).titles == old(tabs).titles,
            quit == (old(self).input_mode == InputMode::Normal && key.code == KeyCode::Char('q')),
            final(tabs).index == (if tab_forward(old(self).input_mode, key) {
                (old(tabs).index + 1) % (old(tabs).titles@.len() as int)
            } else if tab_backward(old(self).input_mode, key) {
                if old(tabs).index > 0 {
                    old(tabs).index - 1
                } else {
                    old(tabs).titles@.len() - 1
                }
            } else {
                old(tabs).index as int
            }),
            mode_key_effect(*old(self), *final(self), key),
    {
        match self.input_mode {
            InputMode::Normal => {
                match key.code {
                    KeyCode::Char('e') => {
                        self.progress_label = to_string("EDITING MODE ---");
                        self.input_mode = InputMode::Editing;
                    },
                    KeyCode::Char('q') => {
                        return true;
                    },
                    KeyCode::Char(']') => tabs.next(),
                    KeyCode::Char('[') => tabs.previous(),
                    KeyCode::Down => self.next(),
                    KeyCode::Up => self.previous(),
                    _ => {},
                }
            },
            InputMode::Editing => {
                match key.code {
                    KeyCode::Backspace => self.delete_char(),
                    KeyCode::Enter => self.submit_url_to_queue(),
                    KeyCode::Char(c) => self.enter_char(c),
                    KeyCode::Left => self.move_cursor_left(),
                    KeyCode::Right => self.move_cursor_right(),
                    KeyCode::Esc => {
                        self.progress_label = to_string("VIEW MODE ---");
                        self.input_mode = InputMode::Normal;
                    },
                    _ => {},
                }
            },
            InputMode::Downloading => {
                match key.code {
                    KeyCode::Char(']') => tabs.next(),
                    KeyCode::Char('[') => tabs.previous(),
                    _ => {},
                }
            },
        }
        false
    }

    /// The row of the queue that the batch is at.
    pub fn current_download_row(&self) -> (res: usize)
        requires
            self.download_index_and_length.0 < self.download_index_and_length.1@.len(),
        ensures
            res == self.download_index_and_length.1@[self.download_index_and_length.0 as int],
    {
        self.download_index_and_length.1[self.download_index_and_length.0]
    }

    /// One step of the download of the current video: the label shows the
    /// stage, the gauge gains the step's steps, and a step that moves on
    /// goes to the next video and ends the batch when it is over.
    pub fn advance_download(&mut self, step: DownloadStep)
        ensures
            final(self).gauge.numer == old(self).gauge.numer.saturating_add(step_gain(step) as u64),
            final(self).gauge.denom == old(self).gauge.denom,
            final(self).download_index_and_length.1 == old(self).download_index_and_length.1,
            final(self).download_index_and_length.0 == (if step_moves_on(step) {
                old(self).download_index_and_length.0.saturating_add(1)
            } else {
                old(self).download_index_and_length.0
            }),
            step_stage(step) matches Some(stage) ==> final(self).progress_label@ == progress_text(
                old(self).download_index_and_length.0 as nat,
                old(self).download_index_and_length.1@.len(),
                stage,
            ),
            ({
                let over = step_moves_on(step) && batch_over(
                    step,
                    final(self).download_index_and_length.0 as int,
                    old(self).download_index_and_length.1@.len() as int,
                );
                &&& over ==> final(self).input_mode == InputMode::Normal
                    && final(self).progress_label@ == "VIEW ---"@
                &&& !over ==> final(self).input_mode == old(self).input_mode
                &&& !over && step_stage(step) is None ==> final(self).progress_label
                    == old(self).progress_label
            }),
            final(self).input == old(self).input,
            final(self).cursor_position == old(self).cursor_position,
            final(self).urls_to_download_table == old(self).urls_to_download_table,
            final(self).urls_to_download_table_data == old(self).urls_to_download_table_data,
    {
        let gain = gain_of(step);
        match stage_text(step) {
            Some(stage) => {
                let label = progress_label(
                    self.download_index_and_length.0,
                    self.download_index_and_length.1.len(),
                    stage,
                );
                self.progress_label = label;
            },
            None => {},
        }
        self.gauge.increase_numerator_by(gain);
        let moves_on = match step {
            DownloadStep::SkipAfterMissingVideo | DownloadStep::SkipAfterMissingThumbnail
            | DownloadStep::SkipAfterMissingMetadata | DownloadStep::Finish => true,
            _ => false,
        };
        if moves_on {
            self.download_index_and_length.0 = self.download_index_and_length.0.saturating_add(1);
            let i = self.download_index_and_length.0;
            let n = self.download_index_and_length.1.len();
            let over = match step {
                DownloadStep::SkipAfterMissingVideo | DownloadStep::SkipAfterMissingThumbnail => i
                    > n,
                _ => i >= n,
            };
            if over {
                self.input_mode = InputMode::Normal;
                self.progress_label = to_string("VIEW ---");
            }
        }
    }

    /// Records the download of the current video in its row: the title
    /// replaces the URL and the status becomes `Success` (each when the row
    /// has that cell).
    pub fn mark_downloaded(&mut self, title: &str)
        requires
            old(self).download_index_and_length.0 < old(self).download_index_and_length.1@.len(),
            old(self).download_index_and_length.1@[old(self).download_index_and_length.0 as int]
                < old(self).urls_to_download_table_data@.len(),
        ensures
            ({
                let r = old(self).download_index_and_length.1@[old(
                    self,
                ).download_index_and_length.0 as int] as int;
                let row = rows_view(old(self).urls_to_download_table_data@)[r];
                let row1 = if row.len() > 0 {
                    row.update(0, title@)
                } else {
                    row
                };
                let row2 = if row.len() > 1 {
                    row1.update(1, "Success"@)
                } else {
                    row1
                };
                rows_view(final(self).urls_to_download_table_data@) == rows_view(
                    old(self).urls_to_download_table_data@,
                ).update(r, row2)
            }),
            final(self).input == old(self).input,
            final(self).cursor_position == old(self).cursor_position,
            final(self).input_mode == old(self).input_mode,
            final(self).urls_to_download_table == old(self).urls_to_download_table,
            final(self).download_index_and_length == old(self).download_index_and_length,
            final(self).gauge == old(self).gauge,
            final(self).progress_label == old(self).progress_label,
    {
        let r = self.download_index_and_length.1[self.download_index_and_length.0];
        let ghost before = self.urls_to_download_table_data@;
        let ghost old_row = views(before[r as int]@);
        let n = self.urls_to_download_table_data[r].len();
        if n > 0 {
            let t = to_string(title);
            self.urls_to_download_table_data[r][0] = t;
        }
        if n > 1 {
            let s = to_string("Success");
            self.urls_to_download_table_data[r][1] = s;
        }
        let ghost after = self.urls_to_download_table_data@;
        let ghost new_row = views(after[r as int]@);
        assert(after.len() == before.len());
        assert(forall|j: int| 0 <= j < before.len() && j != r ==> after[j] == before[j]);
        assert(new_row == (if n > 1 {
            (if n > 0 {
                old_row.update(0, title@)
            } else {
                old_row
            }).update(1, "Success"@)
        } else if n > 0 {
            old_row.update(0, title@)
        } else {
            old_row
        }));
        assert(rows_view(after) == rows_view(before).update(r as int, new_row));
    }
}

/// Whether the typed character can go at the cursor.
pub open spec fn is_boundary_at_cursor(s: InputState) -> bool {
    crate::text::is_boundary(s.input@, s.cursor_position as int)
}

/// Whether the key shows the next tab in this mode of the download tab.
pub open spec fn tab_forward(mode: InputMode, key: KeyPress) -> bool {
    (mode == InputMode::Normal || mode == InputMode::Downloading) && key.code == KeyCode::Char(']')
}

/// Whether the key shows the previous tab in this mode of the download tab.
pub open spec fn tab_backward(mode: InputMode, key: KeyPress) -> bool {
    (mode == InputMode::Normal || mode == InputMode::Downloading) && key.code == KeyCode::Char('[')
}

/// What a key of the current mode does to the download tab.
pub open spec fn mode_key_effect(before: InputState, after: InputState, key: KeyPress) -> bool {
    match before.input_mode {
        InputMode::Normal => match key.code {
            KeyCode::Char('e') => {
                &&& after.progress_label@ == "EDITING MODE ---"@
                &&& after.input_mode == InputMode::Editing
                &&& after.input == before.input
                &&& after.cursor_position == before.cursor_position
                &&& after.urls_to_download_table == before.urls_to_download_table
                &&& after.urls_to_download_table_data == before.urls_to_download_table_data
                &&& after.download_index_and_length == before.download_index_and_length
                &&& after.gauge == before.gauge
            },
            KeyCode::Down => {
                &&& after.urls_to_download_table.selected == Some(
                    next_index(
                        before.urls_to_download_table.selected,
                        before.urls_to_download_table_data@.len(),
                    ),
                )
                &&& after.input == before.input
                &&& after.cursor_position == before.cursor_position
                &&& after.input_mode == before.input_mode
                &&& after.urls_to_download_table_data == before.urls_to_download_table_data
                &&& after.download_index_and_length == before.download_index_and_length
                &&& after.gauge == before.gauge
                &&& after.progress_label == before.progress_label
            },
            KeyCode::Up => {
                &&& after.urls_to_download_table.selected == Some(
                    previous_index(
                        before.urls_to_download_table.selected,
                        before.urls_to_download_table_data@.len(),
                    ),
                )
                &&& after.input == before.input
                &&& after.cursor_position == before.cursor_position
                &&& after.input_mode == before.input_mode
                &&& after.urls_to_download_table_data == before.urls_to_download_table_data
                &&& after.download_index_and_length == before.download_index_and_length
                &&& after.gauge == before.gauge
                &&& after.progress_label == before.progress_label
            },
            _ => after == before,
        },
        InputMode::Editing => match key.code {
            KeyCode::Backspace => {
                &&& before.cursor_position == 0 ==> after == before
                &&& before.cursor_position != 0 ==> {
                    &&& after.input@ == crate::input_state::delete_before(
                        before.input@,
                        before.cursor_position as int,
                    )
                    &&& after.cursor_position == crate::input_state::min(
                        before.cursor_position - 1,
                        crate::text::byte_len(after.input@) as int,
                    )
                    &&& after.same_queue(before)
                }
            },
            KeyCode::Enter => {
                &&& rows_view(after.urls_to_download_table_data@) == rows_view(
                    before.urls_to_download_table_data@,
                ).push(seq![before.input@, "Dormant"@])
                &&& after.input@ == Seq::<char>::empty()
                &&& after.cursor_position == 0
                &&& after.input_mode == before.input_mode
                &&& after.urls_to_download_table == before.urls_to_download_table
                &&& after.download_index_and_length == before.download_index_and_length
                &&& after.gauge == before.gauge
                &&& after.progress_label == before.progress_label
            },
            KeyCode::Char(c) => {
                &&& after.input@ == crate::input_state::insert_at(
                    before.input@,
                    crate::text::boundary_index(before.input@, before.cursor_position as int),
                    c,
                )
                &&& after.cursor_position == crate::input_state::min(
                    before.cursor_position.saturating_add(1) as int,
                    crate::text::byte_len(after.input@) as int,
                )
                &&& after.same_queue(before)
            },
            KeyCode::Left => {
                &&& after.input == before.input
                &&& after.cursor_position == crate::input_state::min(
                    before.cursor_position.saturating_sub(1) as int,
                    crate::text::byte_len(before.input@) as int,
                )
                &&& after.same_queue(before)
            },
            KeyCode::Right => {
                &&& after.input == before.input
                &&& after.cursor_position == crate::input_state::min(
                    before.cursor_position.saturating_add(1) as int,
                    crate::text::byte_len(before.input@) as int,
                )
                &&& after.same_queue(before)
            },
            KeyCode::Esc => {
                &&& after.progress_label@ == "VIEW MODE ---"@
                &&& after.input_mode == InputMode::Normal
                &&& after.input == before.input
                &&& after.cursor_position == before.cursor_position
                &&& after.urls_to_download_table == before.urls_to_download_table
                &&& after.urls_to_download_table_data == before.urls_to_download_table_data
                &&& after.download_index_and_length == before.download_index_and_length
                &&& after.gauge == before.gauge
            },
            _ => after == before,
        },
        InputMode::Downloading => after == before,
    }
}

/// Whether `i` is the thumbnail kept: the first one whose height is larger
/// than every height before it and than zero, and not smaller than any
/// height after it.
pub open spec fn is_tallest(heights: Seq<u64>, i: int) -> bool {
    &&& 0 <= i < heights.len()
    &&& heights[i] > 0
    &&& forall|j: int| 0 <= j < i ==> #[trigger] heights[j] < heights[i]
    &&& forall|j: int| i < j < heights.len() ==> #[trigger] heights[j] <= heights[i]
}

/// The thumbnail to download among thumbnails of the given heights: the
/// first of the largest height, provided that height is not zero.
pub fn tallest_thumbnail(heights: &Vec<u64>) -> (res: Option<usize>)
    ensures
        res matches Some(i) ==> is_tallest(heights@, i as int),
        res is None ==> forall|j: int| 0 <= j < heights@.len() ==> #[trigger] heights@[j] == 0,
{
    let mut best: Option<usize> = None;
    let mut max: u64 = 0;
    let n = heights.len();
    for i in 0..n
        invariant
            n == heights@.len(),
            best is None ==> max == 0 && forall|j: int| 0 <= j < i ==> #[trigger] heights@[j] == 0,
            best matches Some(b) ==> b < i && max == heights@[b as int] && max > 0
                && (forall|j: int| 0 <= j < b ==> #[trigger] heights@[j] < max)
                && (forall|j: int| b < j < i ==> #[trigger] heights@[j] <= max),
    {
        if heights[i] > max {
            best = Some(i);
            max = heights[i];
        }
    }
    best
}

/// A batch downloads only rows still to download: the positions it takes
/// are rows of the queue, in increasing order, none of them marked
/// `Success` or `Failed`, and every such row is taken.
pub proof fn lemma_pending_rows(rows: Seq<Seq<Seq<char>>>, n: int)
    requires
        0 <= n <= rows.len(),
        rows.len() <= usize::MAX,
        rows_have_status(rows),
    ensures
        forall|k: int|
            0 <= k < pending_upto(rows, n).len() ==> {
                let r = #[trigger] pending_upto(rows, n)[k] as int;
                &&& 0 <= r < n
                &&& rows[r][1] != "Success"@
                &&& rows[r][1] != "Failed"@
            },
        forall|k: int, l: int|
            0 <= k < l < pending_upto(rows, n).len() ==> #[trigger] pending_upto(rows, n)[k]
                < #[trigger] pending_upto(rows, n)[l],
        forall|r: int|
            0 <= r < n && rows[r][1] != "Success"@ && rows[r][1] != "Failed"@ ==> #[trigger] pending_upto(
                rows,
                n,
            ).contains(r as usize),
    decreases n,
{
    if n > 0 {
        lemma_pending_rows(rows, n - 1);
        let p = pending_upto(rows, n - 1);
        let q = pending_upto(rows, n);
        if rows[n - 1][1] != "Success"@ && rows[n - 1][1] != "Failed"@ {
            assert(q == p.push((n - 1) as usize));
            assert forall|r: int|
                0 <= r < n && rows[r][1] != "Success"@ && rows[r][1] != "Failed"@ implies #[trigger] q.contains(
                r as usize,
            ) by {
                if r < n - 1 {
                    assert(p.contains(r as usize));
                    let k = choose|k: int| 0 <= k < p.len() && p[k] == r as usize;
                    assert(q[k] == r as usize);
                } else {
                    assert(q[p.len() as int] == r as usize);
                }
            }
        } else {
            assert(q == p);
            assert forall|r: int|
                0 <= r < n && rows[r][1] != "Success"@ && rows[r][1] != "Failed"@ implies #[trigger] q.contains(
                r as usize,
            ) by {
                assert(r < n - 1);
                assert(p.contains(r as usize));
            }
        }
    }
}

/// Whatever key the download tab gets, a cursor within the typed text stays
/// within it.
pub proof fn lemma_cursor_stays_in_text(before: InputState, after: InputState, key: KeyPress)
    requires
        before.cursor_position <= crate::text::byte_len(before.input@),
        mode_key_effect(before, after, key),
    ensures
        after.cursor_position <= crate::text::byte_len(after.input@),
{
}

// ---------------------------------------------------------------------------
// The player tab
// ---------------------------------------------------------------------------

/// What a key press on the player tab calls for.
#[derive(PartialEq, Eq, Structural, Clone, Copy, Debug)]
pub enum PlayerAction {
    /// Show the next tab.
    NextTab,
    /// Show the previous tab.
    PreviousTab,
    /// Highlight the previous entry of the browsed list.
    ListUp,
    /// Highlight the next entry of the browsed list.
    ListDown,
    /// Quit the program.
    Quit,
    /// Pause, or resume, the playback.
    PlayPause,
    /// Play the first song of the queue.
    PlayNext,
    /// Add the highlighted entry to the queue.
    AddToQueue,
    /// Go back to the list of playlists.
    ReturnToPlaylists,
    /// Open the highlighted entry.
    OpenEntry,
    /// Nothing.
    Nothing,
    /// Editing the browsed list is not supported.
    Unsupported,
}

/// The action of a key press on the player tab: in the list of the
/// library, `[` shows the next tab and `]` the previous one, Up and Down
/// move the highlight, `q` quits, space pauses or resumes, `s` plays the
/// next song, Enter adds the highlighted entry to the queue, Left goes back
/// to the playlists and Right opens the highlighted entry.
pub open spec fn player_action_of(state: PlayerState, code: KeyCode) -> PlayerAction {
    match state {
        PlayerState::EditMode => PlayerAction::Unsupported,
        PlayerState::NavigateMode => match code {
            KeyCode::Char('[') => PlayerAction::NextTab,
            KeyCode::Char(']') => PlayerAction::PreviousTab,
            KeyCode::Up => PlayerAction::ListUp,
            KeyCode::Down => PlayerAction::ListDown,
            KeyCode::Char('q') => PlayerAction::Quit,
            KeyCode::Char(' ') => PlayerAction::PlayPause,
            KeyCode::Char('s') => PlayerAction::PlayNext,
            KeyCode::Enter => PlayerAction::AddToQueue,
            KeyCode::Left => PlayerAction::ReturnToPlaylists,
            KeyCode::Right => PlayerAction::OpenEntry,
            _ => PlayerAction::Nothing,
        },
    }
}

/// The action of a key press on the player tab.
pub fn player_action(state: PlayerState, key: KeyPress) -> (res: PlayerAction)
    ensures
        res == player_action_of(state, key.code),
{
    match state {
        PlayerState::EditMode => PlayerAction::Unsupported,
        PlayerState::NavigateMode => match key.code {
            KeyCode::Char('[') => PlayerAction::NextTab,
            KeyCode::Char(']') => PlayerAction::PreviousTab,
            KeyCode::Up => PlayerAction::ListUp,
            KeyCode::Down => PlayerAction::ListDown,
            KeyCode::Char('q') => PlayerAction::Quit,
            KeyCode::Char(' ') => PlayerAction::PlayPause,
            KeyCode::Char('s') => PlayerAction::PlayNext,
            KeyCode::Enter => PlayerAction::AddToQueue,
            KeyCode::Left => PlayerAction::ReturnToPlaylists,
            KeyCode::Right => PlayerAction::OpenEntry,
            _ => PlayerAction::Nothing,
        },
    }
}

/// The keys of the player tab while browsing: Right opens the highlighted
/// entry and Left goes back to the playlists, Up and Down move the
/// highlight up and down, Enter queues the highlighted entry, space pauses
/// or resumes, `s` plays the next song, `q` quits, whatever the modifiers;
/// while editing, no key is handled.
pub proof fn lemma_player_keys(key: KeyPress)
    ensures
        key.code == KeyCode::Right ==> player_action_of(PlayerState::NavigateMode, key.code)
            == PlayerAction::OpenEntry,
        key.code == KeyCode::Left ==> player_action_of(PlayerState::NavigateMode, key.code)
            == PlayerAction::ReturnToPlaylists,
        key.code == KeyCode::Up ==> player_action_of(PlayerState::NavigateMode, key.code)
            == PlayerAction::ListUp,
        key.code == KeyCode::Down ==> player_action_of(PlayerState::NavigateMode, key.code)
            == PlayerAction::ListDown,
        key.code == KeyCode::Enter ==> player_action_of(PlayerState::NavigateMode, key.code)
            == PlayerAction::AddToQueue,
        key.code == KeyCode::Char(' ') ==> player_action_of(PlayerState::NavigateMode, key.code)
            == PlayerAction::PlayPause,
        key.code == KeyCode::Char('s') ==> player_action_of(PlayerState::NavigateMode, key.code)
            == PlayerAction::PlayNext,
        key.code == KeyCode::Char('q') ==> player_action_of(PlayerState::NavigateMode, key.code)
            == PlayerAction::Quit,
        key.code == KeyCode::Char('[') ==> player_action_of(PlayerState::NavigateMode, key.code)
            == PlayerAction::NextTab,
        key.code == KeyCode::Char(']') ==> player_action_of(PlayerState::NavigateMode, key.code)
            == PlayerAction::PreviousTab,
        player_action_of(PlayerState::EditMode, key.code) == PlayerAction::Unsupported,
{
}

/// While viewing the queue, Down highlights the row below (the first row
/// after the last one) and Up the row above (the last row before the first
/// one); with nothing highlighted, either key highlights the first row.
pub proof fn lemma_queue_arrow_keys(before: InputState, after: InputState, key: KeyPress)
    requires
        before.input_mode == InputMode::Normal,
        mode_key_effect(before, after, key),
    ensures
        ({
            let len = before.urls_to_download_table_data@.len();
            let sel = before.urls_to_download_table.selected;
            let now = after.urls_to_download_table.selected;
            &&& key.code == KeyCode::Down ==> match sel {
                Some(i) => if i + 1 < len {
                    now == Some((i + 1) as usize)
                } else {
                    now == Some(0usize)
                },
                None => now == Some(0usize),
            }
            &&& key.code == KeyCode::Up ==> match sel {
                Some(i) => if len == 0 {
                    now == Some(0usize)
                } else if i == 0 {
                    now == Some((len - 1) as usize)
                } else {
                    now == Some((i - 1) as usize)
                },
                None => now == Some(0usize),
            }
            &&& (key.code == KeyCode::Down || key.code == KeyCode::Up)
                ==> after.urls_to_download_table_data == before.urls_to_download_table_data
        }),
{
    let len = before.urls_to_download_table_data@.len();
    let sel = before.urls_to_download_table.selected;
    if key.code == KeyCode::Down {
        assert(after.urls_to_download_table.selected == Some(next_index(sel, len)));
    }
    if key.code == KeyCode::Up {
        assert(after.urls_to_download_table.selected == Some(previous_index(sel, len)));
    }
}

} // verus!
