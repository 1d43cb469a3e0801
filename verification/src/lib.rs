//! Fetching a talk with its subtitles: what a run decides and computes, apart
//! from the network, the disk and the external program. The page gives a
//! download link and a transcript; the transcript becomes a cue track and a
//! SubRip file; the download is a state machine that its caller drives; the
//! embedding is a command that its caller runs.

pub mod dom;
pub mod download;
pub mod link;
pub mod mux;
pub mod pipeline;
pub mod seconds;
pub mod subtitle;
pub mod text;
pub mod transcript;
