//! Turning a video title into a file name: unusual characters become
//! spaces, runs of spaces shrink to one, common decorations such as
//! "Official Audio" are dropped, slashes become bars, and the result is
//! trimmed.

use vstd::prelude::*;
use crate::text::{
    chars_of, has_prefix, is_white_space, is_whitespace, replace_all, replace_chars, string_from_chars, trim,
    trim_chars, trim_end, trim_start,
};

verus! {

/// Whether `c` has the Unicode Alphabetic or Numeric property, as
/// `char::is_alphanumeric` decides.
pub uninterp spec fn char_is_alphanumeric(c: char) -> bool;

/// Whether `c` is an ASCII letter or digit.
pub open spec fn ascii_alnum(c: char) -> bool {
    let u = c as u32;
    (48 <= u && u <= 57) || (65 <= u && u <= 90) || (97 <= u && u <= 122)
}

/// The ASCII characters a title keeps as they are.
pub open spec fn ascii_kept(c: char) -> bool {
    ascii_alnum(c) || c == '_' || c == '.' || c == '\'' || c == '$'
}

/// `char::is_alphanumeric`. Its contract ties the result to the name
/// `char_is_alphanumeric` and states it on ASCII, where the Alphabetic and
/// Numeric properties hold of the letters and digits alone; the Unicode
/// tables behind the other characters are not restated here.
#[verifier::external_body]
fn is_alphanumeric(c: char) -> (res: bool)
    ensures
        res == char_is_alphanumeric(c),
        (c as u32) < 128 ==> (res <==> ascii_alnum(c)),
{
    c.is_alphanumeric()
}

/// The characters a title keeps as they are.
pub open spec fn keeps_char(c: char) -> bool {
    char_is_alphanumeric(c) || c == '_' || c == '.' || c == '\'' || c == '$'
}

/// Whitespace and characters that are not kept become a space.
pub open spec fn clean_char(c: char) -> char {
    if is_white_space(c) {
        ' '
    } else if keeps_char(c) {
        c
    } else {
        ' '
    }
}

/// Every character of `s` cleaned.
pub open spec fn clean_chars(s: Seq<char>) -> Seq<char> {
    s.map_values(|c: char| clean_char(c))
}

/// `s` with every space that follows a space dropped.
pub open spec fn collapse_spaces(s: Seq<char>) -> Seq<char>
    decreases s.len(),
{
    if s.len() == 0 {
        s
    } else if s.len() >= 2 && s[s.len() - 2] == ' ' && s.last() == ' ' {
        collapse_spaces(s.drop_last())
    } else {
        collapse_spaces(s.drop_last()).push(s.last())
    }
}

/// `s` without the decorations, and with slashes turned into bars.
pub open spec fn strip_phrases(s: Seq<char>) -> Seq<char> {
    let s1 = replace_all(s, "Official Music Video"@, ""@);
    let s2 = replace_all(s1, "Official Audio"@, ""@);
    let s3 = replace_all(s2, "Official Video"@, ""@);
    let s4 = replace_all(s3, "Official Lyric Video"@, ""@);
    let s5 = replace_all(s4, "Directed by Cole Bennett"@, ""@);
    let s6 = replace_all(s5, "official lyric video"@, ""@);
    let s7 = replace_all(s6, "Audio"@, ""@);
    let s8 = replace_all(s7, "/"@, "|"@);
    replace_all(s8, "\\"@, "|"@)
}

/// The file name made from the title `s`.
pub open spec fn sanitize(s: Seq<char>) -> Seq<char> {
    trim(strip_phrases(collapse_spaces(clean_chars(s))))
}

/// The characters a file name made by `sanitize` may hold.
pub open spec fn is_safe_char(c: char) -> bool {
    keeps_char(c) || c == ' ' || c == '|'
}

/// Whether every character of `s` satisfies `p`.
pub open spec fn all_chars(s: Seq<char>, p: spec_fn(char) -> bool) -> bool {
    forall|i: int| 0 <= i < s.len() ==> p(#[trigger] s[i])
}

/// Whether every character of `s` is safe.
pub open spec fn all_safe(s: Seq<char>) -> bool {
    all_chars(s, |c: char| is_safe_char(c))
}

/// Whether `c` may stand in a file name made by `sanitize_title`: a space,
/// or a kept character that is not whitespace and, among ASCII characters,
/// only a letter, a digit, `_`, `.`, `'` or `$`.
pub open spec fn is_file_name_char(c: char) -> bool {
    c == ' ' || (keeps_char(c) && !is_white_space(c) && ((c as u32) < 128 ==> ascii_kept(c)))
}

fn clean_all(cs: &Vec<char>) -> (res: Vec<char>)
    ensures
        res@ == clean_chars(cs@),
        forall|i: int| 0 <= i < res@.len() ==> is_file_name_char(#[trigger] res@[i]),
        forall|i: int|
            0 <= i < cs@.len() && (cs@[i] == ' ' || ascii_kept(cs@[i])) ==> #[trigger] res@[i]
                == cs@[i],
{
    let mut out: Vec<char> = Vec::new();
    let n = cs.len();
    for i in 0..n
        invariant
            n == cs@.len(),
            out@ == clean_chars(cs@.take(i as int)),
            forall|j: int| 0 <= j < out@.len() ==> is_file_name_char(#[trigger] out@[j]),
            forall|j: int|
                0 <= j < i && (cs@[j] == ' ' || ascii_kept(cs@[j])) ==> #[trigger] out@[j]
                    == cs@[j],
    {
        let c = cs[i];
        let d = if is_whitespace(c) {
            ' '
        } else if is_alphanumeric(c) || c == '_' || c == '.' || c == '\'' || c == '$' {
            c
        } else {
            ' '
        };
        assert(is_file_name_char(d));
        assert((c == ' ' || ascii_kept(c)) ==> d == c);
        out.push(d);
        assert(clean_chars(cs@.take(i + 1)) == clean_chars(cs@.take(i as int)).push(
            clean_char(c),
        ));
    }
    assert(cs@.take(n as int) == cs@);
    out
}

fn collapse_all(cs: &Vec<char>) -> (res: Vec<char>)
    ensures
        res@ == collapse_spaces(cs@),
{
    let mut last_char: Option<char> = None;
    let mut out: Vec<char> = Vec::new();
    let n = cs.len();
    assert(cs@.take(0) == Seq::<char>::empty());
    for i in 0..n
        invariant
            n == cs@.len(),
            out@ == collapse_spaces(cs@.take(i as int)),
            last_char == (if i == 0 {
                None
            } else {
                Some(cs@[i - 1])
            }),
    {
        let c = cs[i];
        let ghost t = cs@.take(i + 1);
        assert(t.drop_last() == cs@.take(i as int));
        assert(t.last() == c);
        match last_char {
            Some(' ') => {
                if c != ' ' {
                    out.push(c);
                }
            },
            _ => {
                out.push(c);
            },
        }
        last_char = Some(c);
    }
    assert(cs@.take(n as int) == cs@);
    out
}

fn strip_all(cs: &Vec<char>) -> (res: Vec<char>)
    ensures
        res@ == strip_phrases(cs@),
{
    proof {
        reveal_strlit("Official Music Video");
        reveal_strlit("Official Audio");
        reveal_strlit("Official Video");
        reveal_strlit("Official Lyric Video");
        reveal_strlit("Directed by Cole Bennett");
        reveal_strlit("official lyric video");
        reveal_strlit("Audio");
        reveal_strlit("/");
        reveal_strlit("\\");
    }
    let r = replace_chars(cs, "Official Music Video", "");
    let r = replace_chars(&r, "Official Audio", "");
    let r = replace_chars(&r, "Official Video", "");
    let r = replace_chars(&r, "Official Lyric Video", "");
    let r = replace_chars(&r, "Directed by Cole Bennett", "");
    let r = replace_chars(&r, "official lyric video", "");
    let r = replace_chars(&r, "Audio", "");
    let r = replace_chars(&r, "/", "|");
    replace_chars(&r, "\\", "|")
}

/// The file name made from the title `input`.
pub fn sanitize_title(input: &str) -> (res: String)
    ensures
        res@ == sanitize(input@),
        forall|i: int| 0 <= i < res@.len() ==> is_file_name_char(#[trigger] res@[i]),
        is_ascii_clean_title(input@) ==> res@ == input@,
        ({
            let n = input@.len() - 15;
            n >= 0 && input@.skip(n) == " Official Video"@ && is_ascii_clean_title(input@.take(n))
                ==> res@ == input@.take(n)
        }),
{
    let cs = chars_of(input);
    let cleaned = clean_all(&cs);
    proof {
        assert(all_chars(clean_chars(input@), |c: char| is_file_name_char(c)));
        lemma_file_name_chars(input@);
        if is_ascii_clean_title(input@) {
            assert(cleaned@ =~= cs@);
            lemma_sanitize_keeps_ascii_clean(input@);
        }
        let n = input@.len() - 15;
        if n >= 0 && input@.skip(n) == " Official Video"@ && is_ascii_clean_title(input@.take(n)) {
            let x = input@.take(n);
            reveal_strlit(" Official Video");
            assert forall|i: int| 0 <= i < cs@.len() implies cs@[i] == ' ' || ascii_kept(cs@[i]) by {
                if i < n {
                    assert(cs@[i] == x[i]);
                } else {
                    assert(cs@[i] == input@.skip(n)[i - n]);
                }
            }
            assert(cleaned@ =~= cs@);
            assert(input@ =~= x + " Official Video"@);
            if x.len() > 0 {
                assert(x[0] == ' ' || ascii_kept(x[0]));
                assert(x[x.len() - 1] == ' ' || ascii_kept(x[x.len() - 1]));
            }
            lemma_official_video_dropped(input@, x);
        }
    }
    let collapsed = collapse_all(&cleaned);
    let stripped = strip_all(&collapsed);
    let trimmed = trim_chars(&stripped);
    string_from_chars(trimmed.as_slice())
}

// ---------------------------------------------------------------------------
// What a file name made by `sanitize` looks like
// ---------------------------------------------------------------------------

proof fn lemma_clean_safe(s: Seq<char>)
    ensures
        all_safe(clean_chars(s)),
{
    assert forall|i: int| 0 <= i < clean_chars(s).len() implies is_safe_char(
        #[trigger] clean_chars(s)[i],
    ) by {
        assert(clean_chars(s)[i] == clean_char(s[i]));
    }
}

proof fn lemma_collapse_keeps_chars(s: Seq<char>, p: spec_fn(char) -> bool)
    requires
        all_chars(s, p),
    ensures
        all_chars(collapse_spaces(s), p),
    decreases s.len(),
{
    if s.len() > 0 {
        let t = s.drop_last();
        assert(all_chars(t, p)) by {
            assert forall|i: int| 0 <= i < t.len() implies p(#[trigger] t[i]) by {
                assert(t[i] == s[i]);
            }
        }
        lemma_collapse_keeps_chars(t, p);
        assert(p(s[s.len() - 1]));
    }
}

proof fn lemma_replace_keeps_chars(s: Seq<char>, pat: Seq<char>, rep: Seq<char>, p: spec_fn(char) -> bool)
    requires
        all_chars(s, p),
        all_chars(rep, p),
    ensures
        all_chars(replace_all(s, pat, rep), p),
    decreases s.len(),
{
    if pat.len() == 0 || s.len() == 0 {
    } else if s.len() >= pat.len() && s.take(pat.len() as int) == pat {
        let t = s.skip(pat.len() as int);
        assert(all_chars(t, p)) by {
            assert forall|i: int| 0 <= i < t.len() implies p(#[trigger] t[i]) by {
                assert(t[i] == s[i + pat.len()]);
            }
        }
        lemma_replace_keeps_chars(t, pat, rep, p);
        let r = replace_all(t, pat, rep);
        assert forall|i: int| 0 <= i < (rep + r).len() implies p(#[trigger] (rep + r)[i]) by {
            if i < rep.len() {
                assert((rep + r)[i] == rep[i]);
            } else {
                assert((rep + r)[i] == r[i - rep.len()]);
            }
        }
    } else {
        let t = s.drop_first();
        assert(all_chars(t, p)) by {
            assert forall|i: int| 0 <= i < t.len() implies p(#[trigger] t[i]) by {
                assert(t[i] == s[i + 1]);
            }
        }
        lemma_replace_keeps_chars(t, pat, rep, p);
        let r = replace_all(t, pat, rep);
        assert(p(s[0]));
        assert forall|i: int| 0 <= i < (seq![s[0]] + r).len() implies p(
            #[trigger] (seq![s[0]] + r)[i],
        ) by {
            if i == 0 {
                assert((seq![s[0]] + r)[i] == s[0]);
            } else {
                assert((seq![s[0]] + r)[i] == r[i - 1]);
            }
        }
    }
}

proof fn lemma_trim_start_keeps_chars(s: Seq<char>, p: spec_fn(char) -> bool)
    requires
        all_chars(s, p),
    ensures
        all_chars(trim_start(s), p),
        trim_start(s).len() > 0 ==> !is_white_space(trim_start(s)[0]),
    decreases s.len(),
{
    if s.len() > 0 && is_white_space(s[0]) {
        let t = s.drop_first();
        assert(all_chars(t, p)) by {
            assert forall|i: int| 0 <= i < t.len() implies p(#[trigger] t[i]) by {
                assert(t[i] == s[i + 1]);
            }
        }
        lemma_trim_start_keeps_chars(t, p);
    }
}

proof fn lemma_trim_end_keeps_chars(s: Seq<char>, p: spec_fn(char) -> bool)
    requires
        all_chars(s, p),
        s.len() > 0 ==> !is_white_space(s[0]),
    ensures
        all_chars(trim_end(s), p),
        trim_end(s).len() > 0 ==> !is_white_space(trim_end(s)[0]),
        trim_end(s).len() > 0 ==> !is_white_space(trim_end(s).last()),
    decreases s.len(),
{
    if s.len() > 0 && is_white_space(s.last()) {
        let t = s.drop_last();
        assert(all_chars(t, p)) by {
            assert forall|i: int| 0 <= i < t.len() implies p(#[trigger] t[i]) by {
                assert(t[i] == s[i]);
            }
        }
        if t.len() > 0 {
            assert(t[0] == s[0]);
        }
        lemma_trim_end_keeps_chars(t, p);
    }
}

/// A file name made from a title holds only letters, digits, `_`, `.`,
/// `'`, `$`, spaces and bars, and neither starts nor ends with whitespace.
pub proof fn lemma_sanitize_safe(s: Seq<char>)
    ensures
        all_safe(sanitize(s)),
        sanitize(s).len() > 0 ==> !is_white_space(sanitize(s)[0]) && !is_white_space(
            sanitize(s).last(),
        ),
{
    reveal_strlit("");
    reveal_strlit("|");
    let c = clean_chars(s);
    lemma_clean_safe(s);
    let p = |c: char| is_safe_char(c);
    let d = collapse_spaces(c);
    lemma_collapse_keeps_chars(c, p);
    assert(all_safe(""@));
    assert(all_safe("|"@)) by {
        assert("|"@[0] == '|');
    }
    let s1 = replace_all(d, "Official Music Video"@, ""@);
    lemma_replace_keeps_chars(d, "Official Music Video"@, ""@, p);
    let s2 = replace_all(s1, "Official Audio"@, ""@);
    lemma_replace_keeps_chars(s1, "Official Audio"@, ""@, p);
    let s3 = replace_all(s2, "Official Video"@, ""@);
    lemma_replace_keeps_chars(s2, "Official Video"@, ""@, p);
    let s4 = replace_all(s3, "Official Lyric Video"@, ""@);
    lemma_replace_keeps_chars(s3, "Official Lyric Video"@, ""@, p);
    let s5 = replace_all(s4, "Directed by Cole Bennett"@, ""@);
    lemma_replace_keeps_chars(s4, "Directed by Cole Bennett"@, ""@, p);
    let s6 = replace_all(s5, "official lyric video"@, ""@);
    lemma_replace_keeps_chars(s5, "official lyric video"@, ""@, p);
    let s7 = replace_all(s6, "Audio"@, ""@);
    lemma_replace_keeps_chars(s6, "Audio"@, ""@, p);
    let s8 = replace_all(s7, "/"@, "|"@);
    lemma_replace_keeps_chars(s7, "/"@, "|"@, p);
    let s9 = replace_all(s8, "\\"@, "|"@);
    lemma_replace_keeps_chars(s8, "\\"@, "|"@, p);
    assert(s9 == strip_phrases(d));
    lemma_trim_start_keeps_chars(s9, p);
    lemma_trim_end_keeps_chars(trim_start(s9), p);
}

// ---------------------------------------------------------------------------
// Titles that are already file names
// ---------------------------------------------------------------------------

/// Whether `pat` occurs in `s`.
pub open spec fn contains_text(s: Seq<char>, pat: Seq<char>) -> bool {
    exists|i: int| 0 <= i < s.len() && #[trigger] has_prefix(s.skip(i), pat)
}

/// Whether `s` has the shape of a file name made by `sanitize`: single
/// spaces, no space at either end, and none of the decorations, slashes or
/// backslashes.
pub open spec fn has_clean_layout(s: Seq<char>) -> bool {
    &&& forall|i: int| 0 < i < s.len() && #[trigger] s[i] == ' ' ==> s[i - 1] != ' '
    &&& s.len() > 0 ==> s[0] != ' ' && s.last() != ' '
    &&& !contains_text(s, "Official Music Video"@)
    &&& !contains_text(s, "Official Audio"@)
    &&& !contains_text(s, "Official Video"@)
    &&& !contains_text(s, "Official Lyric Video"@)
    &&& !contains_text(s, "Directed by Cole Bennett"@)
    &&& !contains_text(s, "official lyric video"@)
    &&& !contains_text(s, "Audio"@)
    &&& !contains_text(s, "/"@)
    &&& !contains_text(s, "\\"@)
}

/// Whether `s` is already a file name as `sanitize` makes them: only kept
/// characters that are not whitespace and single spaces, laid out as
/// `has_clean_layout` says.
pub open spec fn is_clean_title(s: Seq<char>) -> bool {
    &&& forall|i: int|
        0 <= i < s.len() ==> #[trigger] s[i] == ' ' || (keeps_char(s[i]) && !is_white_space(s[i]))
    &&& has_clean_layout(s)
}

/// Whether `s` is an ASCII file name as `sanitize` makes them: only
/// letters, digits, `_`, `.`, `'`, `$` and single spaces, laid out as
/// `has_clean_layout` says.
pub open spec fn is_ascii_clean_title(s: Seq<char>) -> bool {
    &&& forall|i: int| 0 <= i < s.len() ==> #[trigger] s[i] == ' ' || ascii_kept(s[i])
    &&& has_clean_layout(s)
}

proof fn lemma_clean_chars_keep(s: Seq<char>)
    requires
        forall|i: int|
            0 <= i < s.len() ==> #[trigger] s[i] == ' ' || (keeps_char(s[i]) && !is_white_space(
                s[i],
            )),
    ensures
        clean_chars(s) == s,
{
    assert forall|i: int| 0 <= i < s.len() implies #[trigger] clean_chars(s)[i] == s[i] by {
        assert(is_white_space(' '));
    }
    assert(clean_chars(s) =~= s);
}

proof fn lemma_collapse_keep(s: Seq<char>)
    requires
        forall|i: int| 0 < i < s.len() && #[trigger] s[i] == ' ' ==> s[i - 1] != ' ',
    ensures
        collapse_spaces(s) == s,
    decreases s.len(),
{
    if s.len() > 0 {
        let t = s.drop_last();
        assert forall|i: int| 0 < i < t.len() && #[trigger] t[i] == ' ' implies t[i - 1] != ' ' by {
            assert(t[i] == s[i] && t[i - 1] == s[i - 1]);
        }
        lemma_collapse_keep(t);
        if s.len() >= 2 && s.last() == ' ' {
            assert(s[s.len() - 1] == ' ');
        }
        assert(t.push(s.last()) =~= s);
    }
}

proof fn lemma_replace_absent(s: Seq<char>, pat: Seq<char>, rep: Seq<char>)
    requires
        !contains_text(s, pat),
    ensures
        replace_all(s, pat, rep) == s,
    decreases s.len(),
{
    if pat.len() > 0 && s.len() > 0 {
        assert(s.skip(0) =~= s);
        assert(!has_prefix(s.skip(0), pat));
        let t = s.drop_first();
        assert(!contains_text(t, pat)) by {
            if contains_text(t, pat) {
                let i = choose|i: int| 0 <= i < t.len() && #[trigger] has_prefix(t.skip(i), pat);
                assert(t.skip(i) =~= s.skip(i + 1));
                assert(has_prefix(s.skip(i + 1), pat));
            }
        }
        lemma_replace_absent(t, pat, rep);
        assert(seq![s[0]] + t =~= s);
    }
}

proof fn lemma_clean_layout_keeps(s: Seq<char>)
    requires
        clean_chars(s) == s,
        has_clean_layout(s),
        s.len() > 0 ==> !is_white_space(s[0]) && !is_white_space(s.last()),
    ensures
        sanitize(s) == s,
{
    lemma_collapse_keep(s);
    lemma_replace_absent(s, "Official Music Video"@, ""@);
    lemma_replace_absent(s, "Official Audio"@, ""@);
    lemma_replace_absent(s, "Official Video"@, ""@);
    lemma_replace_absent(s, "Official Lyric Video"@, ""@);
    lemma_replace_absent(s, "Directed by Cole Bennett"@, ""@);
    lemma_replace_absent(s, "official lyric video"@, ""@);
    lemma_replace_absent(s, "Audio"@, ""@);
    lemma_replace_absent(s, "/"@, "|"@);
    lemma_replace_absent(s, "\\"@, "|"@);
    assert(strip_phrases(s) == s);
    assert(trim_start(s) == s);
    assert(trim_end(s) == s);
}

/// A title that is already a file name is its own file name.
pub proof fn lemma_sanitize_keeps_clean(s: Seq<char>)
    requires
        is_clean_title(s),
    ensures
        sanitize(s) == s,
{
    lemma_clean_chars_keep(s);
    if s.len() > 0 {
        assert(s[0] == ' ' || !is_white_space(s[0]));
        assert(s[s.len() - 1] == ' ' || !is_white_space(s[s.len() - 1]));
    }
    lemma_clean_layout_keeps(s);
}

/// An ASCII title that is already a file name, whose characters cleaning
/// keeps, is its own file name.
proof fn lemma_sanitize_keeps_ascii_clean(s: Seq<char>)
    requires
        is_ascii_clean_title(s),
        clean_chars(s) == s,
    ensures
        sanitize(s) == s,
{
    if s.len() > 0 {
        assert(s[0] == ' ' || ascii_kept(s[0]));
        assert(s[s.len() - 1] == ' ' || ascii_kept(s[s.len() - 1]));
    }
    lemma_clean_layout_keeps(s);
}

proof fn lemma_absent_char(s: Seq<char>, x: char, p: spec_fn(char) -> bool)
    requires
        all_chars(s, p),
        !p(x),
    ensures
        !contains_text(s, seq![x]),
{
    if contains_text(s, seq![x]) {
        let i = choose|i: int| 0 <= i < s.len() && #[trigger] has_prefix(s.skip(i), seq![x]);
        assert(s.skip(i).take(1)[0] == s[i]);
        assert(seq![x][0] == x);
    }
}

/// A title whose cleaned characters may all stand in a file name gives a
/// file name whose characters may all stand in one.
proof fn lemma_file_name_chars(s: Seq<char>)
    requires
        all_chars(clean_chars(s), |c: char| is_file_name_char(c)),
    ensures
        all_chars(sanitize(s), |c: char| is_file_name_char(c)),
{
    reveal_strlit("");
    reveal_strlit("/");
    reveal_strlit("\\");
    let p = |c: char| is_file_name_char(c);
    let c = clean_chars(s);
    let d = collapse_spaces(c);
    lemma_collapse_keeps_chars(c, p);
    assert(all_chars(""@, p));
    let s1 = replace_all(d, "Official Music Video"@, ""@);
    lemma_replace_keeps_chars(d, "Official Music Video"@, ""@, p);
    let s2 = replace_all(s1, "Official Audio"@, ""@);
    lemma_replace_keeps_chars(s1, "Official Audio"@, ""@, p);
    let s3 = replace_all(s2, "Official Video"@, ""@);
    lemma_replace_keeps_chars(s2, "Official Video"@, ""@, p);
    let s4 = replace_all(s3, "Official Lyric Video"@, ""@);
    lemma_replace_keeps_chars(s3, "Official Lyric Video"@, ""@, p);
    let s5 = replace_all(s4, "Directed by Cole Bennett"@, ""@);
    lemma_replace_keeps_chars(s4, "Directed by Cole Bennett"@, ""@, p);
    let s6 = replace_all(s5, "official lyric video"@, ""@);
    lemma_replace_keeps_chars(s5, "official lyric video"@, ""@, p);
    let s7 = replace_all(s6, "Audio"@, ""@);
    lemma_replace_keeps_chars(s6, "Audio"@, ""@, p);
    assert("/"@ == seq!['/']);
    assert("\\"@ == seq!['\\']);
    lemma_absent_char(s7, '/', p);
    lemma_replace_absent(s7, "/"@, "|"@);
    let s8 = replace_all(s7, "/"@, "|"@);
    lemma_absent_char(s8, '\\', p);
    lemma_replace_absent(s8, "\\"@, "|"@);
    let s9 = replace_all(s8, "\\"@, "|"@);
    assert(s9 == strip_phrases(d));
    lemma_trim_start_keeps_chars(s9, p);
    lemma_trim_end_keeps_chars(trim_start(s9), p);
}
/// The decorations that `sanitize` drops, in the order it drops them.
pub open spec fn decoration(k: int) -> Seq<char> {
    if k == 0 {
        "Official Music Video"@
    } else if k == 1 {
        "Official Audio"@
    } else if k == 2 {
        "Official Video"@
    } else if k == 3 {
        "Official Lyric Video"@
    } else if k == 4 {
        "Directed by Cole Bennett"@
    } else if k == 5 {
        "official lyric video"@
    } else {
        "Audio"@
    }
}

/// Whether `q` cannot occur across the space between a clean name and a
/// following text that starts with `first`: it neither ends with a space
/// nor has a space followed by `first`.
spec fn cannot_cross_space(q: Seq<char>, first: char) -> bool {
    &&& q.len() > 0
    &&& q.last() != ' '
    &&& forall|j: int| 0 <= j < q.len() - 1 && #[trigger] q[j] == ' ' ==> q[j + 1] != first
}

proof fn lemma_prefix_char(s: Seq<char>, p: Seq<char>, i: int, j: int)
    requires
        0 <= i <= s.len(),
        has_prefix(s.skip(i), p),
        0 <= j < p.len(),
    ensures
        s[i + j] == p[j],
{
    assert(s.skip(i).take(p.len() as int)[j] == p[j]);
}

/// A text that cannot cross the space does not start within `x` in `x`, a
/// space and `p`, when `x` does not hold it.
proof fn lemma_no_cross(x: Seq<char>, p: Seq<char>, q: Seq<char>, i: int)
    requires
        p.len() > 0,
        cannot_cross_space(q, p[0]),
        !contains_text(x, q),
        0 <= i <= x.len(),
    ensures
        !has_prefix((x + " "@ + p).skip(i), q),
{
    reveal_strlit(" ");
    let s = x + " "@ + p;
    if has_prefix(s.skip(i), q) {
        if i + q.len() <= x.len() {
            assert(x.skip(i).take(q.len() as int) =~= s.skip(i).take(q.len() as int));
            assert(has_prefix(x.skip(i), q));
            assert(contains_text(x, q));
        } else {
            let j = x.len() - i;
            lemma_prefix_char(s, q, i, j);
            assert(s[x.len() as int] == ' ');
            if j == q.len() - 1 {
                assert(q.last() == ' ');
            } else {
                lemma_prefix_char(s, q, i, j + 1);
                assert(s[x.len() as int + 1] == p[0]);
            }
        }
    }
}

/// No text that does not end with a space occurs in a name followed by a
/// space, when the name does not hold it.
proof fn lemma_no_end_space(x: Seq<char>, p: Seq<char>)
    requires
        p.len() > 0,
        p.last() != ' ',
        !contains_text(x, p),
    ensures
        !contains_text(x + " "@, p),
{
    reveal_strlit(" ");
    let s = x + " "@;
    if contains_text(s, p) {
        let i = choose|i: int| 0 <= i < s.len() && #[trigger] has_prefix(s.skip(i), p);
        if i + p.len() <= x.len() {
            assert(x.skip(i).take(p.len() as int) =~= s.skip(i).take(p.len() as int));
            assert(has_prefix(x.skip(i), p));
        } else {
            lemma_prefix_char(s, p, i, p.len() - 1);
            assert(s[x.len() as int] == ' ');
        }
    }
}

proof fn lemma_replace_scan(s: Seq<char>, pat: Seq<char>, rep: Seq<char>, k: int)
    requires
        pat.len() > 0,
        0 <= k <= s.len(),
        forall|i: int| 0 <= i < k ==> !#[trigger] has_prefix(s.skip(i), pat),
    ensures
        replace_all(s, pat, rep) == s.take(k) + replace_all(s.skip(k), pat, rep),
    decreases k,
{
    if k == 0 {
        assert(s.skip(0) =~= s);
        assert(s.take(0) + replace_all(s, pat, rep) =~= replace_all(s, pat, rep));
    } else {
        assert(s.skip(0) =~= s);
        assert(!has_prefix(s.skip(0), pat));
        let t = s.drop_first();
        assert forall|i: int| 0 <= i < k - 1 implies !#[trigger] has_prefix(t.skip(i), pat) by {
            assert(t.skip(i) =~= s.skip(i + 1));
        }
        lemma_replace_scan(t, pat, rep, k - 1);
        assert(t.skip(k - 1) =~= s.skip(k));
        assert(seq![s[0]] + t.take(k - 1) =~= s.take(k));
    }
}

/// Removing a decoration that cannot cross the space from a clean name, a
/// space and that decoration leaves the name and the space.
proof fn lemma_remove_decoration(x: Seq<char>, p: Seq<char>)
    requires
        cannot_cross_space(p, p[0]),
        !contains_text(x, p),
    ensures
        replace_all(x + " "@ + p, p, ""@) == x + " "@,
{
    reveal_strlit(" ");
    reveal_strlit("");
    let s = x + " "@ + p;
    let k = x.len() as int + 1;
    assert forall|i: int| 0 <= i < k implies !#[trigger] has_prefix(s.skip(i), p) by {
        lemma_no_cross(x, p, p, i);
    }
    lemma_replace_scan(s, p, ""@, k);
    assert(s.skip(k) =~= p);
    assert(s.take(k) =~= x + " "@);
    assert(p.take(p.len() as int) =~= p);
    assert(p.skip(p.len() as int) =~= Seq::<char>::empty());
    assert(replace_all(p, p, ""@) == ""@ + replace_all(p.skip(p.len() as int), p, ""@));
    assert(replace_all(s, p, ""@) =~= x + " "@);
}

/// Every decoration has the shape that lets it be removed after a clean
/// name: it cannot cross the space before it.
proof fn lemma_decorations_cannot_cross(k: int)
    requires
        0 <= k < 7,
    ensures
        cannot_cross_space(decoration(k), decoration(k)[0]),
        decoration(k).len() > 0,
        decoration(k).last() != ' ',
{
    reveal_strlit("Official Music Video");
    reveal_strlit("Official Audio");
    reveal_strlit("Official Video");
    reveal_strlit("Official Lyric Video");
    reveal_strlit("Directed by Cole Bennett");
    reveal_strlit("official lyric video");
    reveal_strlit("Audio");
}

/// After its decoration is removed, nothing else changes a clean name
/// followed by a space.
proof fn lemma_rest_of_strip(x: Seq<char>)
    requires
        has_clean_layout(x),
    ensures
        ({
            let r = x + " "@;
            &&& replace_all(r, "Official Music Video"@, ""@) == r
            &&& replace_all(r, "Official Audio"@, ""@) == r
            &&& replace_all(r, "Official Video"@, ""@) == r
            &&& replace_all(r, "Official Lyric Video"@, ""@) == r
            &&& replace_all(r, "Directed by Cole Bennett"@, ""@) == r
            &&& replace_all(r, "official lyric video"@, ""@) == r
            &&& replace_all(r, "Audio"@, ""@) == r
            &&& replace_all(r, "/"@, "|"@) == r
            &&& replace_all(r, "\\"@, "|"@) == r
        }),
{
    reveal_strlit("/");
    reveal_strlit("\\");
    let r = x + " "@;
    assert forall|m: int| 0 <= m < 7 implies replace_all(r, #[trigger] decoration(m), ""@) == r by {
        lemma_decorations_cannot_cross(m);
        assert(!contains_text(x, decoration(m)));
        lemma_no_end_space(x, decoration(m));
        lemma_replace_absent(r, decoration(m), ""@);
    }
    assert(replace_all(r, decoration(0), ""@) == r);
    assert(replace_all(r, decoration(1), ""@) == r);
    assert(replace_all(r, decoration(2), ""@) == r);
    assert(replace_all(r, decoration(3), ""@) == r);
    assert(replace_all(r, decoration(4), ""@) == r);
    assert(replace_all(r, decoration(5), ""@) == r);
    assert(replace_all(r, decoration(6), ""@) == r);
    lemma_no_end_space(x, "/"@);
    lemma_replace_absent(r, "/"@, "|"@);
    lemma_no_end_space(x, "\\"@);
    lemma_replace_absent(r, "\\"@, "|"@);
}

/// Trimming a clean name followed by a space gives the name.
proof fn lemma_trim_name_space(x: Seq<char>)
    requires
        x.len() > 0 ==> !is_white_space(x[0]) && !is_white_space(x.last()),
    ensures
        trim(x + " "@) == x,
{
    reveal_strlit(" ");
    let r = x + " "@;
    assert(r.drop_last() =~= x);
    assert(trim_end(r) == trim_end(x));
    assert(trim_end(x) == x);
    if x.len() > 0 {
        assert(r[0] == x[0]);
        assert(trim_start(r) == r);
    } else {
        assert(r.drop_first() =~= Seq::<char>::empty());
        assert(trim_start(r) == trim_start(Seq::<char>::empty()));
    }
}

/// The decorations are dropped: whenever cleaning a title gives a clean
/// name, a space and one of the decorations, and none of the decorations
/// dropped before that one occurs in it, the file name made from the title
/// is that name.
pub proof fn lemma_decoration_dropped(title: Seq<char>, x: Seq<char>, k: int)
    requires
        0 <= k < 7,
        clean_chars(title) == x + " "@ + decoration(k),
        has_clean_layout(x),
        x.len() > 0 ==> !is_white_space(x[0]) && !is_white_space(x.last()),
        forall|m: int| 0 <= m < k ==> !contains_text(x + " "@ + decoration(k), #[trigger] decoration(m)),
    ensures
        sanitize(title) == x,
{
    reveal_strlit("Official Music Video");
    reveal_strlit("Official Audio");
    reveal_strlit("Official Video");
    reveal_strlit("Official Lyric Video");
    reveal_strlit("Directed by Cole Bennett");
    reveal_strlit("official lyric video");
    reveal_strlit("Audio");
    reveal_strlit(" ");
    let p = decoration(k);
    let s = x + " "@ + p;
    let r = x + " "@;
    // collapsing keeps it
    lemma_decorations_cannot_cross(k);
    assert forall|i: int| 0 < i < s.len() && #[trigger] s[i] == ' ' implies s[i - 1] != ' ' by {
        if i < x.len() {
            assert(s[i] == x[i] && s[i - 1] == x[i - 1]);
        } else if i == x.len() {
            assert(s[i - 1] == x.last());
        } else if i == x.len() + 1 {
            assert(s[i] == p[0]);
        } else {
            assert(s[i] == p[i - x.len() - 1]);
            assert(s[i - 1] == p[i - x.len() - 2]);
        }
    }
    lemma_collapse_keep(s);
    // the decorations before it leave it unchanged
    assert forall|m: int| 0 <= m < k implies replace_all(s, #[trigger] decoration(m), ""@) == s by {
        lemma_replace_absent(s, decoration(m), ""@);
    }
    // it is removed
    assert(!contains_text(x, p));
    lemma_remove_decoration(x, p);
    // nothing after it changes the rest
    lemma_rest_of_strip(x);
    assert(decoration(0) == "Official Music Video"@);
    assert(decoration(1) == "Official Audio"@);
    assert(decoration(2) == "Official Video"@);
    assert(decoration(3) == "Official Lyric Video"@);
    assert(decoration(4) == "Directed by Cole Bennett"@);
    assert(decoration(5) == "official lyric video"@);
    assert(decoration(6) == "Audio"@);
    if k == 0 {
        assert(strip_phrases(s) == r);
    } else if k == 1 {
        assert(strip_phrases(s) == r);
    } else if k == 2 {
        assert(strip_phrases(s) == r);
    } else if k == 3 {
        assert(strip_phrases(s) == r);
    } else if k == 4 {
        assert(strip_phrases(s) == r);
    } else if k == 5 {
        assert(strip_phrases(s) == r);
    } else {
        assert(strip_phrases(s) == r);
    }
    lemma_trim_name_space(x);
}

/// The ` Official Video` decoration is dropped after any clean name.
pub proof fn lemma_official_video_dropped(title: Seq<char>, x: Seq<char>)
    requires
        clean_chars(title) == x + " Official Video"@,
        has_clean_layout(x),
        x.len() > 0 ==> !is_white_space(x[0]) && !is_white_space(x.last()),
    ensures
        sanitize(title) == x,
{
    reveal_strlit(" Official Video");
    reveal_strlit("Official Video");
    reveal_strlit("Official Music Video");
    reveal_strlit("Official Audio");
    reveal_strlit(" ");
    let d = "Official Video"@;
    let s = x + " "@ + d;
    assert(s =~= x + " Official Video"@);
    lemma_decorations_cannot_cross(0);
    lemma_decorations_cannot_cross(1);
    assert(decoration(2) == d);
    assert forall|m: int| 0 <= m < 2 implies !contains_text(s, #[trigger] decoration(m)) by {
        let q = decoration(m);
        assert(cannot_cross_space(q, d[0]));
        if contains_text(s, q) {
            let i = choose|i: int| 0 <= i < s.len() && #[trigger] has_prefix(s.skip(i), q);
            if i <= x.len() {
                assert(!contains_text(x, q));
                lemma_no_cross(x, d, q, i);
            } else {
                lemma_prefix_char(s, q, i, 9);
                assert(s[i + 9] == d[i - x.len() - 1 + 9]);
            }
        }
    }
    lemma_decoration_dropped(title, x, 2);
}
} // verus!
