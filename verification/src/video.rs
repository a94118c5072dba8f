//! The video handle of `rusty_ytdl`, as the download queue sees it.

use vstd::prelude::*;
use rusty_ytdl::Video;

verus! {

/// `rusty_ytdl::Video`, carried through unchanged.
#[verifier::external_type_specification]
#[verifier::external_body]
pub struct ExVideo(Video);

/// The video id that `rusty_ytdl::get_video_id` reads from a text: the text
/// itself when it is an 11-character id, the id in the path or query of a
/// YouTube URL, and `None` otherwise. It depends on the text alone.
pub uninterp spec fn youtube_video_id(url_or_id: Seq<char>) -> Option<Seq<char>>;

/// `rusty_ytdl::Video::new`: a handle for the video that `url_or_id` names.
/// It first reads the video id with `get_video_id` and fails when there is
/// none, which is what the contract states; it also fails when no HTTP
/// client can be built on this machine, which the contract leaves open.
#[verifier::external_body]
pub(crate) fn new_video(url_or_id: String) -> (res: Option<Video>)
    ensures
        res is Some ==> youtube_video_id(url_or_id@) is Some,
{
    Video::new(url_or_id).ok()
}

} // verus!
