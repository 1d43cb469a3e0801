//! The command that embeds the subtitle file in the video. The library says
//! what is to be run; to run it is the caller's part.

use vstd::prelude::*;
use vstd::string::StringExecFns;

verus! {

/// A program and the arguments it is started with, in their order.
#[derive(Debug, PartialEq, Eq)]
pub struct MuxCommand {
    pub program: String,
    pub arguments: Vec<String>,
}

/// The views of a run of arguments.
pub open spec fn argument_views(arguments: Seq<String>) -> Seq<Seq<char>> {
    arguments.map_values(|argument: String| argument@)
}

/// The program that embeds the subtitles.
pub open spec fn mux_program() -> Seq<char> {
    "ffmpeg"@
}

/// The file that the program writes, whatever the inputs are called: a name in
/// the directory in which the program runs.
pub open spec fn mux_output() -> Seq<char> {
    "output.mp4"@
}

/// The arguments of the program for a video and a subtitle file. An earlier
/// output is overwritten. The streams of both inputs go to the output, those
/// of the video first. Video and audio are copied as they are, the subtitles
/// become the container's own timed text, and their language is set to
/// English.
pub open spec fn mux_arguments(video_name: Seq<char>, subtitle_name: Seq<char>) -> Seq<Seq<char>> {
    seq![
        "-y"@,
        "-i"@,
        video_name,
        "-i"@,
        subtitle_name,
        "-map"@,
        "0"@,
        "-map"@,
        "1"@,
        "-c:v"@,
        "copy"@,
        "-c:a"@,
        "copy"@,
        "-c:s"@,
        "mov_text"@,
        "-metadata:s:s:0"@,
        "language=eng"@,
        mux_output(),
    ]
}

/// The command that embeds the subtitle file `subtitle_name` in the video
/// `video_name`.
pub fn embed_subtitle(video_name: &str, subtitle_name: &str) -> (command: MuxCommand)
    ensures
        command.program@ == mux_program(),
        argument_views(command.arguments@) == mux_arguments(video_name@, subtitle_name@),
{
    let mut arguments: Vec<String> = Vec::new();
    arguments.push(String::from_str("-y"));
    arguments.push(String::from_str("-i"));
    arguments.push(String::from_str(video_name));
    arguments.push(String::from_str("-i"));
    arguments.push(String::from_str(subtitle_name));
    arguments.push(String::from_str("-map"));
    arguments.push(String::from_str("0"));
    arguments.push(String::from_str("-map"));
    arguments.push(String::from_str("1"));
    arguments.push(String::from_str("-c:v"));
    arguments.push(String::from_str("copy"));
    arguments.push(String::from_str("-c:a"));
    arguments.push(String::from_str("copy"));
    arguments.push(String::from_str("-c:s"));
    arguments.push(String::from_str("mov_text"));
    arguments.push(String::from_str("-metadata:s:s:0"));
    arguments.push(String::from_str("language=eng"));
    arguments.push(String::from_str("output.mp4"));
    assert(argument_views(arguments@) =~= mux_arguments(video_name@, subtitle_name@));
    MuxCommand { program: String::from_str("ffmpeg"), arguments }
}

} // verus!
