//! The download tab: the URL being typed, the queue of URLs to download and
//! the progress of a batch of downloads.
//!
//! The cursor is a byte position in the typed text. Inserting goes by byte
//! position; deleting removes the character just before the cursor counted
//! as a character index. For ASCII text the two agree.

use vstd::prelude::*;
use crate::gauge_state::GaugeState;
use crate::selection::{Selection, next_index, previous_index};
use vstd::utf8::encode_utf8;
use rusty_ytdl::Video;
use id3::Tag;
use crate::metadata::{build_metadata, metadata_frames, tag_frames};
use crate::sanitize::{is_ascii_clean_title, is_file_name_char, sanitize, sanitize_title};
use crate::video::{new_video, youtube_video_id};
use crate::text::{parse_u32, parse_u32_spec, trim, trim_str, boundary_index, byte_len, byte_offset, lemma_byte_offset_bound, lemma_byte_offset_step, byte_length, chars_of, find_boundary, is_boundary, string_from_chars, to_string, views};

verus! {

/// What the download tab is doing with key presses.
#[derive(PartialEq, Eq, Structural, Clone, Copy, Debug)]
pub enum InputMode {
    /// Keys navigate the queue.
    Normal,
    /// Keys edit the URL being typed.
    Editing,
    /// A batch of downloads is running.
    Downloading,
}

/// The state of the download tab.
pub struct InputState {
    /// The URL being typed.
    pub input: String,
    /// The cursor, as a byte position in `input`.
    pub cursor_position: usize,
    pub input_mode: InputMode,
    /// The highlighted row of the queue table.
    pub urls_to_download_table: Selection,
    /// The queue: one row per URL, holding the URL (or, once downloaded, the
    /// title) and its status (`Dormant`, `Success` or `Failed`).
    pub urls_to_download_table_data: Vec<Vec<String>>,
    /// The position in the running batch, and the rows of the batch.
    pub download_index_and_length: (usize, Vec<usize>),
    pub gauge: GaugeState,
    pub progress_label: String,
}

/// The views of the rows of a table of strings.
pub open spec fn rows_view(t: Seq<Vec<String>>) -> Seq<Seq<Seq<char>>> {
    t.map_values(|r: Vec<String>| views(r@))
}

/// The smaller of two integers.
pub open spec fn min(a: int, b: int) -> int {
    if a <= b {
        a
    } else {
        b
    }
}

/// `s` with `c` inserted before its `k`-th character.
pub open spec fn insert_at(s: Seq<char>, k: int, c: char) -> Seq<char> {
    s.take(k).push(c) + s.skip(k)
}

/// `s` with the character at index `cursor - 1` removed, where the character
/// indices are taken from the byte cursor and cut at the end of `s`.
pub open spec fn delete_before(s: Seq<char>, cursor: int) -> Seq<char> {
    s.subrange(0, min(cursor - 1, s.len() as int)) + s.subrange(
        min(cursor, s.len() as int),
        s.len() as int,
    )
}

impl InputState {
    /// Everything but the typed text and the cursor is the same in `self`
    /// and `other`.
    pub open spec fn same_queue(self, other: InputState) -> bool {
        &&& self.input_mode == other.input_mode
        &&& self.urls_to_download_table == other.urls_to_download_table
        &&& self.urls_to_download_table_data == other.urls_to_download_table_data
        &&& self.download_index_and_length == other.download_index_and_length
        &&& self.gauge == other.gauge
        &&& self.progress_label == other.progress_label
    }

    /// An empty tab: nothing typed, an empty queue, viewing.
    pub fn new() -> (res: InputState)
        ensures
            res.input@ == Seq::<char>::empty(),
            res.cursor_position == 0,
            res.input_mode == InputMode::Normal,
            res.urls_to_download_table.selected is None,
            res.urls_to_download_table_data@.len() == 0,
            res.download_index_and_length.0 == 0,
            res.download_index_and_length.1@.len() == 0,
            res.gauge.numer == 0,
            res.gauge.denom == 1,
            res.progress_label@ == "VIEW ---"@,
    {
        InputState {
            input: String::new(),
            cursor_position: 0,
            input_mode: InputMode::Normal,
            urls_to_download_table: Selection::new(),
            urls_to_download_table_data: Vec::new(),
            download_index_and_length: (0, Vec::new()),
            gauge: GaugeState { numer: 0, denom: 1 },
            progress_label: to_string("VIEW ---"),
        }
    }

    /// Moves the cursor one byte to the left, staying within the text.
    pub fn move_cursor_left(&mut self)
        ensures
            final(self).input == old(self).input,
            final(self).cursor_position == min(
                old(self).cursor_position.saturating_sub(1) as int,
                byte_len(old(self).input@) as int,
            ),
            final(self).same_queue(*old(self)),
    {
        let cursor_moved_left = self.cursor_position.saturating_sub(1);
        self.cursor_position = self.clamp_cursor(cursor_moved_left);
    }

    /// Moves the cursor one byte to the right, staying within the text.
    pub fn move_cursor_right(&mut self)
        ensures
            final(self).input == old(self).input,
            final(self).cursor_position == min(
                old(self).cursor_position.saturating_add(1) as int,
                byte_len(old(self).input@) as int,
            ),
            final(self).same_queue(*old(self)),
    {
        let cursor_moved_right = self.cursor_position.saturating_add(1);
        self.cursor_position = self.clamp_cursor(cursor_moved_right);
    }

    /// `new_cursor_pos` brought within the text: at most its byte length.
    pub fn clamp_cursor(&mut self, new_cursor_pos: usize) -> (res: usize)
        ensures
            res == min(new_cursor_pos as int, byte_len(old(self).input@) as int),
            *final(self) == *old(self),
    {
        let len = byte_length(self.input.as_str());
        if new_cursor_pos <= len {
            new_cursor_pos
        } else {
            len
        }
    }

    /// Puts the cursor at the start of the text.
    pub fn reset_cursor(&mut self)
        ensures
            final(self).input == old(self).input,
            final(self).cursor_position == 0,
            final(self).same_queue(*old(self)),
    {
        self.cursor_position = 0;
    }

    /// Whether a character can be typed at the cursor: the cursor falls
    /// between two characters of the text.
    pub fn can_insert_at_cursor(&self) -> (res: bool)
        ensures
            res == is_boundary(self.input@, self.cursor_position as int),
    {
        let cs = chars_of(self.input.as_str());
        let _ = byte_length(self.input.as_str());
        let k = find_boundary(&cs, self.cursor_position);
        k.is_some()
    }

    /// Types `new_char` at the cursor and moves the cursor one byte right.
    pub fn enter_char(&mut self, new_char: char)
        requires
            is_boundary(old(self).input@, old(self).cursor_position as int),
        ensures
            final(self).input@ == insert_at(
                old(self).input@,
                boundary_index(old(self).input@, old(self).cursor_position as int),
                new_char,
            ),
            final(self).cursor_position == min(
                old(self).cursor_position.saturating_add(1) as int,
                byte_len(final(self).input@) as int,
            ),
            final(self).same_queue(*old(self)),
    {
        let cs = chars_of(self.input.as_str());
        let _ = byte_length(self.input.as_str());
        let k = match find_boundary(&cs, self.cursor_position) {
            Some(k) => k,
            None => {
                return ;
            },
        };
        let n = cs.len();
        let mut out: Vec<char> = Vec::new();
        for i in 0..k
            invariant
                k <= n,
                n == cs@.len(),
                out@ == cs@.take(i as int),
        {
            out.push(cs[i]);
            assert(cs@.take(i + 1) == cs@.take(i as int).push(cs@[i as int]));
        }
        out.push(new_char);
        let ghost head = out@;
        for i in k..n
            invariant
                n == cs@.len(),
                k <= i <= n,
                out@ == head + cs@.subrange(k as int, i as int),
        {
            out.push(cs[i]);
            assert(cs@.subrange(k as int, i + 1) == cs@.subrange(k as int, i as int).push(
                cs@[i as int],
            ));
        }
        assert(cs@.subrange(k as int, n as int) == cs@.skip(k as int));
        self.input = string_from_chars(out.as_slice());
        self.move_cursor_right();
    }

    /// Deletes the character before the cursor and moves the cursor one
    /// byte left; does nothing with the cursor at the start.
    pub fn delete_char(&mut self)
        ensures
            old(self).cursor_position == 0 ==> *final(self) == *old(self),
            old(self).cursor_position != 0 ==> {
                &&& final(self).input@ == delete_before(
                    old(self).input@,
                    old(self).cursor_position as int,
                )
                &&& final(self).cursor_position == min(
                    old(self).cursor_position - 1,
                    byte_len(final(self).input@) as int,
                )
                &&& final(self).same_queue(*old(self))
            },
    {
        let is_not_cursor_leftmost = self.cursor_position != 0;
        if is_not_cursor_leftmost {
            let current_index = self.cursor_position;
            let from_left = current_index - 1;
            let cs = chars_of(self.input.as_str());
            let n = cs.len();
            let a = if from_left <= n {
                from_left
            } else {
                n
            };
            let b = if current_index <= n {
                current_index
            } else {
                n
            };
            let mut out: Vec<char> = Vec::new();
            for i in 0..a
                invariant
                    a <= n,
                    n == cs@.len(),
                    out@ == cs@.subrange(0, i as int),
            {
                out.push(cs[i]);
                assert(cs@.subrange(0, i + 1) == cs@.subrange(0, i as int).push(cs@[i as int]));
            }
            let ghost head = out@;
            for i in b..n
                invariant
                    n == cs@.len(),
                    b <= i <= n,
                    out@ == head + cs@.subrange(b as int, i as int),
            {
                out.push(cs[i]);
                assert(cs@.subrange(b as int, i + 1) == cs@.subrange(b as int, i as int).push(
                    cs@[i as int],
                ));
            }
            self.input = string_from_chars(out.as_slice());
            self.move_cursor_left();
        }
    }

    /// Adds the typed URL to the queue as a `Dormant` row and clears the
    /// typed text.
    pub fn submit_url_to_queue(&mut self)
        ensures
            rows_view(final(self).urls_to_download_table_data@) == rows_view(
                old(self).urls_to_download_table_data@,
            ).push(seq![old(self).input@, "Dormant"@]),
            final(self).input@ == Seq::<char>::empty(),
            final(self).cursor_position == 0,
            final(self).input_mode == old(self).input_mode,
            final(self).urls_to_download_table == old(self).urls_to_download_table,
            final(self).download_index_and_length == old(self).download_index_and_length,
            final(self).gauge == old(self).gauge,
            final(self).progress_label == old(self).progress_label,
    {
        let mut row: Vec<String> = Vec::new();
        row.push(self.input.clone());
        row.push(to_string("Dormant"));
        assert(views(row@) == seq![self.input@, "Dormant"@]);
        let ghost before = self.urls_to_download_table_data@;
        self.urls_to_download_table_data.push(row);
        assert(rows_view(self.urls_to_download_table_data@) == rows_view(before).push(
            views(row@),
        ));
        self.input = String::new();
        self.reset_cursor();
    }

    /// Highlights the next row of the queue, wrapping to the first.
    pub fn next(&mut self)
        ensures
            final(self).urls_to_download_table.selected == Some(
                next_index(
                    old(self).urls_to_download_table.selected,
                    old(self).urls_to_download_table_data@.len(),
                ),
            ),
            final(self).input == old(self).input,
            final(self).cursor_position == old(self).cursor_position,
            final(self).input_mode == old(self).input_mode,
            final(self).urls_to_download_table_data == old(self).urls_to_download_table_data,
            final(self).download_index_and_length == old(self).download_index_and_length,
            final(self).gauge == old(self).gauge,
            final(self).progress_label == old(self).progress_label,
    {
        let len = self.urls_to_download_table_data.len();
        self.urls_to_download_table.select_next(len);
    }

    /// Highlights the previous row of the queue, wrapping to the last.
    pub fn previous(&mut self)
        ensures
            final(self).urls_to_download_table.selected == Some(
                previous_index(
                    old(self).urls_to_download_table.selected,
                    old(self).urls_to_download_table_data@.len(),
                ),
            ),
            final(self).input == old(self).input,
            final(self).cursor_position == old(self).cursor_position,
            final(self).input_mode == old(self).input_mode,
            final(self).urls_to_download_table_data == old(self).urls_to_download_table_data,
            final(self).download_index_and_length == old(self).download_index_and_length,
            final(self).gauge == old(self).gauge,
            final(self).progress_label == old(self).progress_label,
    {
        let len = self.urls_to_download_table_data.len();
        self.urls_to_download_table.select_previous(len);
    }

    /// The file name made from the title `input` (see `sanitize`): every
    /// character of it is a space or a kept character, never a slash, a
    /// backslash, a bar or an ASCII control character; an ASCII title that
    /// is already such a name comes back unchanged.
    pub fn sanitize_string(&mut self, input: &str) -> (res: String)
        ensures
            res@ == sanitize(input@),
            forall|i: int| 0 <= i < res@.len() ==> is_file_name_char(#[trigger] res@[i]),
            is_ascii_clean_title(input@) ==> res@ == input@,
            *final(self) == *old(self),
    {
        sanitize_title(input)
    }

    /// A video handle for the URL of row `index`, trimmed; one is had only
    /// when a video id can be read from it. When none can be had, the row is
    /// marked `Failed` (if it has a status), the batch moves on by one
    /// and the gauge by one step.
    pub fn grab_video(&mut self, index: usize) -> (res: Option<Video>)
        requires
            index < old(self).urls_to_download_table_data@.len(),
            old(self).urls_to_download_table_data@[index as int]@.len() >= 1,
            old(self).download_index_and_length.0 < usize::MAX,
        ensures
            res is Some ==> *final(self) == *old(self),
            res is Some ==> youtube_video_id(
                trim(old(self).urls_to_download_table_data@[index as int]@[0]@),
            ) is Some,
            res is None ==> {
                &&& rows_view(final(self).urls_to_download_table_data@) == (if old(
                    self,
                ).urls_to_download_table_data@[index as int]@.len() > 1 {
                    rows_view(old(self).urls_to_download_table_data@).update(
                        index as int,
                        rows_view(old(self).urls_to_download_table_data@)[index as int].update(
                            1,
                            "Failed"@,
                        ),
                    )
                } else {
                    rows_view(old(self).urls_to_download_table_data@)
                })
                &&& final(self).download_index_and_length.0 == old(self).download_index_and_length.0
                    + 1
                &&& final(self).download_index_and_length.1 == old(
                    self,
                ).download_index_and_length.1
                &&& final(self).gauge.numer == old(self).gauge.numer.saturating_add(1)
                &&& final(self).gauge.denom == old(self).gauge.denom
                &&& final(self).input == old(self).input
                &&& final(self).cursor_position == old(self).cursor_position
                &&& final(self).input_mode == old(self).input_mode
                &&& final(self).urls_to_download_table == old(self).urls_to_download_table
                &&& final(self).progress_label == old(self).progress_label
            },
    {
        let url = trim_str(self.urls_to_download_table_data[index][0].as_str());
        match new_video(url) {
            Some(vid) => Some(vid),
            None => {
                self.mark_grab_failed(index);
                None
            },
        }
    }

    /// Records that no video handle could be had for row `index`: the row is
    /// marked `Failed` (if it has a status), the batch moves on by one and
    /// the gauge by one step.
    pub fn mark_grab_failed(&mut self, index: usize)
        requires
            index < old(self).urls_to_download_table_data@.len(),
            old(self).download_index_and_length.0 < usize::MAX,
        ensures
            rows_view(final(self).urls_to_download_table_data@) == (if old(
                self,
            ).urls_to_download_table_data@[index as int]@.len() > 1 {
                rows_view(old(self).urls_to_download_table_data@).update(
                    index as int,
                    rows_view(old(self).urls_to_download_table_data@)[index as int].update(
                        1,
                        "Failed"@,
                    ),
                )
            } else {
                rows_view(old(self).urls_to_download_table_data@)
            }),
            final(self).download_index_and_length.0 == old(self).download_index_and_length.0 + 1,
            final(self).download_index_and_length.1 == old(self).download_index_and_length.1,
            final(self).gauge.numer == old(self).gauge.numer.saturating_add(1),
            final(self).gauge.denom == old(self).gauge.denom,
            final(self).input == old(self).input,
            final(self).cursor_position == old(self).cursor_position,
            final(self).input_mode == old(self).input_mode,
            final(self).urls_to_download_table == old(self).urls_to_download_table,
            final(self).progress_label == old(self).progress_label,
    {
        if self.urls_to_download_table_data[index].len() > 1 {
            let ghost before = self.urls_to_download_table_data@;
            let failed = to_string("Failed");
            let ghost fv = failed;
            self.urls_to_download_table_data[index][1] = failed;
            let ghost after = self.urls_to_download_table_data@;
            assert(after.len() == before.len());
            assert(after[index as int]@ == before[index as int]@.update(1, fv));
            assert(forall|j: int| 0 <= j < before.len() && j != index ==> after[j] == before[j]);
            assert(views(after[index as int]@) == views(before[index as int]@).update(1, "Failed"@));
            assert(rows_view(self.urls_to_download_table_data@) == rows_view(before).update(
                index as int,
                rows_view(before)[index as int].update(1, "Failed"@),
            ));
        }
        self.download_index_and_length.0 = self.download_index_and_length.0 + 1;
        self.gauge.increase_numerator();
    }

    /// The tag for a downloaded video: its title, its length (`length_seconds`
    /// read as a whole number of seconds) and its URL.
    pub fn create_metadata(&mut self, length_seconds: &str, video_url: &str, title: &String) -> (res:
        Option<Tag>)
        requires
            parse_u32_spec(length_seconds@) is Some,
        ensures
            *final(self) == *old(self),
            res matches Some(t) && tag_frames(t) == metadata_frames(
                title@,
                parse_u32_spec(length_seconds@)->0,
                video_url@,
            ),
    {
        let seconds = match parse_u32(length_seconds) {
            Some(s) => s,
            None => {
                return None;
            },
        };
        Some(build_metadata(title.as_str(), seconds, video_url))
    }
}

/// Typing a character and then deleting it gives back the text and the
/// cursor, when the text before the cursor is ASCII (so that the byte cursor
/// is also a character index).
pub proof fn lemma_delete_undoes_enter(s: Seq<char>, k: int, c: char)
    requires
        0 <= k <= s.len(),
        forall|j: int| 0 <= j < k ==> (#[trigger] s[j] as u32) <= 0x7F,
    ensures
        byte_offset(s, k) == k,
        min(k + 1, byte_len(insert_at(s, k, c)) as int) == k + 1,
        delete_before(insert_at(s, k, c), k + 1) == s,
        min(k, byte_len(s) as int) == k,
{
    lemma_ascii_offset(s, k);
    let t = insert_at(s, k, c);
    assert(t.take(k + 1) == s.take(k).push(c));
    assert(t.len() == s.len() + 1);
    lemma_byte_offset_step(t, k);
    assert(t.take(k) == s.take(k));
    lemma_byte_offset_bound(t, k + 1);
    lemma_byte_offset_bound(s, k);
    assert(t.subrange(0, k) == s.take(k));
    assert(t.subrange(k + 1, t.len() as int) == s.skip(k));
    assert(delete_before(t, k + 1) == s.take(k) + s.skip(k));
    assert(s.take(k) + s.skip(k) == s);
}

proof fn lemma_ascii_offset(s: Seq<char>, k: int)
    requires
        0 <= k <= s.len(),
        forall|j: int| 0 <= j < k ==> (#[trigger] s[j] as u32) <= 0x7F,
    ensures
        byte_offset(s, k) == k,
    decreases k,
{
    if k > 0 {
        lemma_ascii_offset(s, k - 1);
        lemma_byte_offset_step(s, k - 1);
    } else {
        assert(s.take(0) == Seq::<char>::empty());
        assert(encode_utf8(Seq::<char>::empty()).len() == 0);
    }
}

} // verus!
