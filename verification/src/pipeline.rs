//! What the run as a whole decides between its steps: the name of the
//! subtitle file that goes with a video.

use crate::text::{before_first, text_before_first};
use vstd::prelude::*;
use vstd::string::StringExecFns;

verus! {

/// The name of the subtitle file of a video: what stands in the video's name
/// before its first dot, and `.srt` behind it.
pub open spec fn subtitle_name_of(video_name: Seq<char>) -> Seq<char> {
    before_first(video_name, '.') + ".srt"@
}

/// The name of the subtitle file that goes with the video `video_name`.
pub fn subtitle_file_name(video_name: &str) -> (name: String)
    ensures
        name@ == subtitle_name_of(video_name@),
{
    text_before_first(video_name, '.').concat(".srt")
}

} // verus!
