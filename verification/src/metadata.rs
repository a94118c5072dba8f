//! ID3 tags of the downloaded music files, built with the `id3` crate.

use vstd::prelude::*;
use id3::{Tag, TagLike};
use crate::text::{decimal, parse_u32_spec, lemma_parse_decimal};

verus! {

/// `id3::Tag`, whose frames are described by `tag_frames`.
#[verifier::external_type_specification]
#[verifier::external_body]
pub struct ExTag(Tag);

/// The frames of a tag: for each frame id that occurs, the text of the
/// first frame with that id when it holds text, and `None` when it holds
/// other content.
pub uninterp spec fn tag_frames(tag: Tag) -> Map<Seq<char>, Option<Seq<char>>>;

/// What setting the text frame `id` to `text` does to the frames of a tag:
/// `id` occurs afterwards, the other ids keep their frames, and an `id` that
/// did not occur before now holds `text`.
pub open spec fn sets_text(
    before: Map<Seq<char>, Option<Seq<char>>>,
    after: Map<Seq<char>, Option<Seq<char>>>,
    id: Seq<char>,
    text: Seq<char>,
) -> bool {
    &&& after.dom() == before.dom().insert(id)
    &&& forall|k: Seq<char>| k != id && #[trigger] before.dom().contains(k) ==> after[k] == before[k]
    &&& !before.dom().contains(id) ==> after[id] == Some(text)
}

/// The duration a tag gives (`TagLike::duration`): the text of its `TLEN`
/// frame read as a `u32`.
pub open spec fn frames_duration(frames: Map<Seq<char>, Option<Seq<char>>>) -> Option<u32> {
    if frames.dom().contains("TLEN"@) && frames["TLEN"@] is Some {
        parse_u32_spec(frames["TLEN"@]->0)
    } else {
        None
    }
}

/// `Tag::new`: a tag without frames.
#[verifier::external_body]
pub(crate) fn tag_new() -> (res: Tag)
    ensures
        tag_frames(res).dom().is_empty(),
{
    Tag::new()
}

/// `TagLike::set_title`: sets the text frame `TIT2`. It replaces the first
/// frame with that id whose content is text or a link and appends the new
/// frame; when such frames were already there, which one is read first
/// afterwards is left unsaid.
#[verifier::external_body]
pub(crate) fn tag_set_title(tag: &mut Tag, title: &str)
    ensures
        sets_text(tag_frames(*old(tag)), tag_frames(*final(tag)), "TIT2"@, title@),
{
    tag.set_title(title);
}

/// `TagLike::set_duration`: sets the text frame `TLEN` to the decimal form
/// of `duration` (as `set_title` does for `TIT2`).
#[verifier::external_body]
pub(crate) fn tag_set_duration(tag: &mut Tag, duration: u32)
    ensures
        sets_text(tag_frames(*old(tag)), tag_frames(*final(tag)), "TLEN"@, decimal(duration as nat)),
{
    tag.set_duration(duration);
}

/// `TagLike::set_genre`: sets the text frame `TCON` (as `set_title` does
/// for `TIT2`).
#[verifier::external_body]
pub(crate) fn tag_set_genre(tag: &mut Tag, genre: &str)
    ensures
        sets_text(tag_frames(*old(tag)), tag_frames(*final(tag)), "TCON"@, genre@),
{
    tag.set_genre(genre);
}

/// `TagLike::duration`: the text of the first `TLEN` frame parsed as a
/// `u32`, if there is such a frame, it holds text and the text parses.
#[verifier::external_body]
pub(crate) fn tag_duration(tag: &Tag) -> (res: Option<u32>)
    ensures
        res == frames_duration(tag_frames(*tag)),
{
    tag.duration()
}

/// The frames of the tag made for a downloaded video: its title, its length
/// in seconds and its URL (kept in the genre frame).
pub open spec fn metadata_frames(title: Seq<char>, seconds: u32, url: Seq<char>) -> Map<
    Seq<char>,
    Option<Seq<char>>,
> {
    Map::<Seq<char>, Option<Seq<char>>>::empty().insert("TIT2"@, Some(title)).insert(
        "TLEN"@,
        Some(decimal(seconds as nat)),
    ).insert("TCON"@, Some(url))
}

/// The tag for a downloaded video: title, length and URL.
pub fn build_metadata(title: &str, seconds: u32, url: &str) -> (res: Tag)
    ensures
        tag_frames(res) == metadata_frames(title@, seconds, url@),
{
    proof {
        reveal_strlit("TIT2");
        reveal_strlit("TLEN");
        reveal_strlit("TCON");
    }
    proof {
        lemma_ids_distinct();
    }
    let mut tag = tag_new();
    let ghost m0 = tag_frames(tag);
    tag_set_title(&mut tag, title);
    let ghost m1 = tag_frames(tag);
    assert(m1 =~= Map::<Seq<char>, Option<Seq<char>>>::empty().insert("TIT2"@, Some(title@)));
    tag_set_duration(&mut tag, seconds);
    let ghost m2 = tag_frames(tag);
    assert(m2 =~= m1.insert("TLEN"@, Some(decimal(seconds as nat))));
    tag_set_genre(&mut tag, url);
    assert(tag_frames(tag) =~= m2.insert("TCON"@, Some(url@)));
    tag
}

proof fn lemma_ids_distinct()
    ensures
        "TIT2"@ != "TLEN"@,
        "TIT2"@ != "TCON"@,
        "TLEN"@ != "TCON"@,
{
    reveal_strlit("TIT2");
    reveal_strlit("TLEN");
    reveal_strlit("TCON");
    assert("TIT2"@[1] != "TLEN"@[1]);
    assert("TIT2"@[1] != "TCON"@[1]);
    assert("TLEN"@[1] != "TCON"@[1]);
}

/// Reading the duration back from the tag of a downloaded video gives the
/// length it was made with.
pub proof fn lemma_metadata_duration(title: Seq<char>, seconds: u32, url: Seq<char>)
    ensures
        frames_duration(metadata_frames(title, seconds, url)) == Some(seconds),
{
    reveal_strlit("TIT2");
    reveal_strlit("TLEN");
    reveal_strlit("TCON");
    lemma_parse_decimal(seconds);
    lemma_ids_distinct();
    assert(metadata_frames(title, seconds, url)["TLEN"@] == Some(decimal(seconds as nat)));
}

} // verus!
