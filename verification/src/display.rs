//! Text shown in the player window: entry names, the playback time, the
//! height of the rows of the queue.

use vstd::prelude::*;
use crate::library::playlist_mark;
use crate::text::{chars_of, decimal, has_prefix, push_decimal, push_str, replace_all, replace_str, starts_with, to_string};

verus! {

/// Which tab the keys go to.
#[derive(PartialEq, Eq, Structural, Clone, Copy, Debug)]
pub enum TabActions {
    Downloader,
    Player,
}

/// Whether an entry of the browsed list is a playlist.
pub fn is_playlist_entry(entry: &str) -> (res: bool)
    ensures
        res == has_prefix(entry@, playlist_mark()),
{
    starts_with(entry, "937798798798798")
}

/// The name shown for an entry or a directory: without the playlist mark.
pub fn display_name(entry: &str) -> (res: String)
    ensures
        res@ == replace_all(entry@, playlist_mark(), ""@),
{
    proof {
        reveal_strlit("937798798798798");
    }
    replace_str(entry, "937798798798798", "")
}

/// The playback label for `play` seconds played of `total` seconds:
/// `|| Pm Ss | Tm Us ||`, showing the total twice once playback has reached
/// it (minutes and seconds both).
pub open spec fn time_label(play: nat, total: nat) -> Seq<char> {
    let (shown_m, shown_s) = if !(play / 60 >= total / 60 && play % 60 >= total % 60) {
        (play / 60, play % 60)
    } else {
        (total / 60, total % 60)
    };
    "|| "@ + decimal(shown_m) + "m "@ + decimal(shown_s) + "s | "@ + decimal(total / 60) + "m "@
        + decimal(total % 60) + "s ||"@
}

/// While a song has not reached its end, the label shows the minutes and
/// seconds played, then the minutes and seconds of the whole song; at the
/// end it shows the whole song's time twice.
pub proof fn lemma_label_shows_time_played(play: nat, total: nat)
    ensures
        play < total ==> time_label(play, total) == "|| "@ + decimal(play / 60) + "m "@ + decimal(
            play % 60,
        ) + "s | "@ + decimal(total / 60) + "m "@ + decimal(total % 60) + "s ||"@,
        time_label(total, total) == "|| "@ + decimal(total / 60) + "m "@ + decimal(total % 60)
            + "s | "@ + decimal(total / 60) + "m "@ + decimal(total % 60) + "s ||"@,
{
    if play < total && play / 60 >= total / 60 {
        assert(play / 60 <= total / 60) by (nonlinear_arith)
            requires
                play < total,
        ;
        assert(play % 60 < total % 60) by (nonlinear_arith)
            requires
                play < total,
                play / 60 == total / 60,
        ;
    }
}

/// The playback label for a song `play_ms` milliseconds into its
/// `total_ms` milliseconds.
pub fn player_label(play_ms: u64, total_ms: u64) -> (res: String)
    ensures
        res@ == time_label((play_ms / 1000) as nat, (total_ms / 1000) as nat),
{
    let play_dur = play_ms / 1000;
    let total_dur = total_ms / 1000;
    let (min_play, sec_play) = (play_dur / 60, play_dur % 60);
    let (min_total, sec_total) = (total_dur / 60, total_dur % 60);
    let (shown_m, shown_s) = if !(min_play >= min_total && sec_play >= sec_total) {
        (min_play, sec_play)
    } else {
        (min_total, sec_total)
    };
    let mut s = to_string("|| ");
    push_decimal(&mut s, shown_m);
    push_str(&mut s, "m ");
    push_decimal(&mut s, shown_s);
    push_str(&mut s, "s | ");
    push_decimal(&mut s, min_total);
    push_str(&mut s, "m ");
    push_decimal(&mut s, sec_total);
    push_str(&mut s, "s ||");
    s
}

/// The number of line breaks in `s`.
pub open spec fn newlines(s: Seq<char>) -> nat
    decreases s.len(),
{
    if s.len() == 0 {
        0
    } else {
        newlines(s.drop_last()) + if s.last() == '\n' {
            1nat
        } else {
            0nat
        }
    }
}

/// The most line breaks in a cell of `row` (zero for no cells).
pub open spec fn most_newlines(row: Seq<Seq<char>>) -> nat
    decreases row.len(),
{
    if row.len() == 0 {
        0
    } else {
        let m = most_newlines(row.drop_last());
        let k = newlines(row.last());
        if k > m {
            k
        } else {
            m
        }
    }
}

proof fn lemma_newlines_bound(s: Seq<char>)
    ensures
        newlines(s) <= s.len(),
    decreases s.len(),
{
    if s.len() > 0 {
        lemma_newlines_bound(s.drop_last());
    }
}

fn count_newlines(s: &str) -> (res: usize)
    ensures
        res == newlines(s@),
{
    let cs = chars_of(s);
    let n = cs.len();
    let mut count: usize = 0;
    assert(cs@.take(0) == Seq::<char>::empty());
    for i in 0..n
        invariant
            n == cs@.len(),
            count == newlines(cs@.take(i as int)),
    {
        let ghost t = cs@.take(i + 1);
        assert(t.drop_last() == cs@.take(i as int));
        proof {
            lemma_newlines_bound(cs@.take(i as int));
        }
        if cs[i] == '\n' {
            count = count + 1;
        }
    }
    assert(cs@.take(n as int) == cs@);
    count
}

/// The height, in lines, of a row of the queue: one more than the most line
/// breaks in one of its cells (as many as fit).
pub fn row_height(row: &Vec<String>) -> (res: usize)
    ensures
        res == (if most_newlines(crate::text::views(row@)) + 1 <= usize::MAX {
            most_newlines(crate::text::views(row@)) + 1
        } else {
            usize::MAX as nat
        }),
{
    let n = row.len();
    let mut most: usize = 0;
    let ghost v = crate::text::views(row@);
    assert(v.take(0) == Seq::<Seq<char>>::empty());
    for i in 0..n
        invariant
            n == row@.len(),
            v == crate::text::views(row@),
            most == most_newlines(v.take(i as int)),
    {
        let ghost t = v.take(i + 1);
        assert(t.drop_last() == v.take(i as int));
        assert(t.last() == row@[i as int]@);
        let k = count_newlines(row[i].as_str());
        if k > most {
            most = k;
        }
    }
    assert(v.take(n as int) == v);
    most.saturating_add(1)
}

/// Whether the thumbnail has to be prepared again for an area of
/// `width` by `height` cells after one of `last_width` by `last_height`.
pub fn needs_resize(last_width: u16, last_height: u16, width: u16, height: u16) -> (res: bool)
    ensures
        res == !(last_width == width && last_height == height),
{
    !(last_width == width && last_height == height)
}

/// The pixels drawn in the cell at column `xi` and row `yi` of the
/// thumbnail's area: column `xi` of the image, row `2 * yi` for the upper
/// half and `2 * yi + 1` for the lower half, when both lie in an image of
/// `width` by `height` pixels.
pub fn half_block_pixels(xi: usize, yi: usize, width: u32, height: u32) -> (res: Option<
    (u32, u32, u32),
>)
    requires
        xi <= u16::MAX,
        yi <= u16::MAX,
    ensures
        res is Some <==> xi < width && 2 * yi + 1 < height,
        res matches Some(p) ==> p.0 == xi && p.1 == 2 * yi && p.2 == 2 * yi + 1,
{
    if xi >= width as usize || (yi * 2 + 1) >= height as usize {
        None
    } else {
        Some((xi as u32, (yi * 2) as u32, (yi * 2 + 1) as u32))
    }
}

} // verus!
