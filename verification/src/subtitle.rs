//! The cue track of a transcript, and the subtitle file that carries it.

use crate::text::{has_infix, lemma_middle_is_infix, quoted};
use crate::transcript::TranscriptEntry;
use subparse::timetypes::{TimePoint, TimeSpan};
use subparse::{SrtFile, SubtitleFileInterface};
use vstd::prelude::*;

verus! {

/// How long, in milliseconds, the last cue of a track is shown: no later entry
/// bounds it.
pub const FALLBACK_CUE_MS: i64 = 3000;

/// A cue as a mathematical value: the view of a `SubtitleCue`.
pub struct Cue {
    pub start: int,
    pub end: int,
    pub text: Seq<char>,
}

/// One timed subtitle: the text is shown from `start_time_ms` up to
/// `end_time_ms`.
#[derive(Debug, PartialEq, Eq)]
pub struct SubtitleCue {
    pub start_time_ms: i64,
    pub end_time_ms: i64,
    pub text: String,
}

impl View for SubtitleCue {
    type V = Cue;

    open spec fn view(&self) -> Cue {
        Cue { start: self.start_time_ms as int, end: self.end_time_ms as int, text: self.text@ }
    }
}

impl Cue {
    /// A cue is shown for a positive time.
    pub open spec fn is_well_formed(&self) -> bool {
        self.end > self.start
    }
}

/// Why no subtitle file came of a transcript.
#[derive(Clone, Copy, Debug, PartialEq, Eq, Structural)]
pub enum SubtitleError {
    /// The last entry starts so late that its cue would end beyond `i64::MAX`.
    TimeOutOfRange,
}

/// The views of a run of cues.
pub open spec fn cue_views(cues: Seq<SubtitleCue>) -> Seq<Cue> {
    cues.map_values(|cue: SubtitleCue| cue@)
}

/// When the cue of entry `i` ends: where the next entry starts, or, for the
/// last entry, the fallback duration after its own start.
pub open spec fn cue_end(entries: Seq<TranscriptEntry>, i: int) -> int {
    if i + 1 < entries.len() {
        entries[i + 1].start()
    } else {
        entries[i].start() + FALLBACK_CUE_MS
    }
}

/// The cue track of a transcript: one cue per entry, in the entries' order.
pub open spec fn cue_track(entries: Seq<TranscriptEntry>) -> Seq<Cue> {
    Seq::new(
        entries.len(),
        |i: int| Cue { start: entries[i].start(), end: cue_end(entries, i), text: entries[i].words() },
    )
}

/// The end of the last cue can be held in an `i64`. Every other time of the
/// track is the start of an entry.
pub open spec fn track_fits(entries: Seq<TranscriptEntry>) -> bool {
    entries.len() > 0 ==> entries.last().start() + FALLBACK_CUE_MS <= i64::MAX
}

/// Each entry starts later than the one before it.
pub open spec fn strictly_increasing(entries: Seq<TranscriptEntry>) -> bool {
    forall|i: int| 0 <= i && i + 1 < entries.len() ==> entries[i].start() < #[trigger] entries[i
        + 1].start()
}

/// The cue track of `entries`. It fails only where the end of the last cue is
/// too large for an `i64`.
///
/// The start times are taken as they come. Where an entry does not start later
/// than the one before it, the earlier of the two gets a cue that is not well
/// formed: it ends where it starts, or before.
pub fn build_cues(entries: &Vec<TranscriptEntry>) -> (track: Result<Vec<SubtitleCue>, SubtitleError>)
    ensures
        track is Ok <==> track_fits(entries@),
        track matches Ok(cues) ==> cue_views(cues@) == cue_track(entries@),
        track matches Err(e) ==> e == SubtitleError::TimeOutOfRange,
{
    let n = entries.len();
    let mut cues: Vec<SubtitleCue> = Vec::new();
    let mut i: usize = 0;
    while i < n
        invariant
            n == entries.len(),
            i <= n,
            cues.len() == i,
            i == n ==> track_fits(entries@),
            forall|j: int| 0 <= j < i ==> (#[trigger] cues@[j])@ == cue_track(entries@)[j],
        decreases n - i,
    {
        let start = entries[i].start_time_ms();
        let end = if i + 1 < n {
            entries[i + 1].start_time_ms()
        } else if start <= i64::MAX - FALLBACK_CUE_MS {
            start + FALLBACK_CUE_MS
        } else {
            return Err(SubtitleError::TimeOutOfRange);
        };
        cues.push(SubtitleCue { start_time_ms: start, end_time_ms: end, text: entries[i].text().clone() });
        i += 1;
    }
    assert(cue_views(cues@) =~= cue_track(entries@));
    Ok(cues)
}

/// The track has one cue per entry, in the entries' order; each cue but the
/// last ends where the next one starts, and the last ends the fallback
/// duration after it started.
pub proof fn lemma_cue_track_bounds(entries: Seq<TranscriptEntry>, i: int)
    requires
        0 <= i < entries.len(),
    ensures
        cue_track(entries).len() == entries.len(),
        cue_track(entries)[i].start == entries[i].start(),
        cue_track(entries)[i].text == entries[i].words(),
        i + 1 < entries.len() ==> cue_track(entries)[i].end == cue_track(entries)[i + 1].start,
        i + 1 == entries.len() ==> cue_track(entries)[i].end == cue_track(entries)[i].start
            + FALLBACK_CUE_MS,
{
}

/// A cue is well formed exactly where it is the last one or the next entry
/// starts later than its own.
pub proof fn lemma_cue_well_formed(entries: Seq<TranscriptEntry>, i: int)
    requires
        0 <= i < entries.len(),
    ensures
        cue_track(entries)[i].is_well_formed() <==> (i + 1 == entries.len() || entries[i].start()
            < entries[i + 1].start()),
{
}

/// Where the start times increase strictly, every cue of the track is shown for
/// a positive time.
pub proof fn lemma_increasing_track_is_well_formed(entries: Seq<TranscriptEntry>)
    requires
        strictly_increasing(entries),
    ensures
        forall|i: int| 0 <= i < entries.len() ==> (#[trigger] cue_track(entries)[i]).is_well_formed(),
{
    assert forall|i: int| 0 <= i < entries.len() implies (#[trigger] cue_track(
        entries,
    )[i]).is_well_formed() by {
        lemma_cue_well_formed(entries, i);
    }
}

#[verifier::external_type_specification]
#[verifier::external_body]
pub struct ExSrtError(subparse::errors::Error);

/// The bytes of the SubRip file that the `subparse` crate makes of a run of
/// cues.
pub uninterp spec fn srt_document(cues: Seq<Cue>) -> Seq<u8>;

/// Hands the cues to `subparse::SrtFile::create`, one line per cue in the
/// cues' order (the time span from the cue's start to its end, both built
/// from milliseconds with `TimePoint::from_msecs`, and the cue's text), and
/// calls `SubtitleFileInterface::to_data` on the file that comes back. Both
/// end in `Ok` on every path through them, so the call is taken to succeed.
/// The bytes are a function of the cues alone, which `srt_document` names;
/// nothing more is claimed of them.
#[verifier::external_body]
fn srt_data(cues: &Vec<SubtitleCue>) -> (data: Result<Vec<u8>, subparse::errors::Error>)
    ensures
        data is Ok,
        data matches Ok(bytes) ==> bytes@ == srt_document(cue_views(cues@)),
{
    SrtFile::create(
        cues.iter().map(
            |cue|
                (
                    TimeSpan::new(
                        TimePoint::from_msecs(cue.start_time_ms),
                        TimePoint::from_msecs(cue.end_time_ms),
                    ),
                    cue.text.clone(),
                ),
        ).collect(),
    )?.to_data()
}

/// The SubRip file of a transcript, as bytes: that of its cue track.
pub open spec fn subtitle_bytes(entries: Seq<TranscriptEntry>) -> Result<Seq<u8>, SubtitleError> {
    if track_fits(entries) {
        Ok(srt_document(cue_track(entries)))
    } else {
        Err(SubtitleError::TimeOutOfRange)
    }
}

/// What a run of subtitle generation has to write: nothing where the
/// destination exists, else the SubRip file of the transcript.
pub open spec fn subtitle_plan(destination_exists: bool, entries: Seq<TranscriptEntry>) -> Result<
    Option<Seq<u8>>,
    SubtitleError,
> {
    if destination_exists {
        Ok(None)
    } else {
        match subtitle_bytes(entries) {
            Ok(bytes) => Ok(Some(bytes)),
            Err(e) => Err(e),
        }
    }
}

/// What the destination holds once a plan is carried out. `None` stands for a
/// destination that does not exist.
pub open spec fn destination_after(before: Option<Seq<u8>>, plan: Option<Seq<u8>>) -> Option<
    Seq<u8>,
> {
    match plan {
        Some(bytes) => Some(bytes),
        None => before,
    }
}

/// The view of a file's bytes or of the reason why there are none.
pub open spec fn bytes_view(data: Result<Vec<u8>, SubtitleError>) -> Result<Seq<u8>, SubtitleError> {
    match data {
        Ok(bytes) => Ok(bytes@),
        Err(e) => Err(e),
    }
}

/// The view of a plan or of the reason why there is none.
pub open spec fn plan_view(plan: Result<Option<Vec<u8>>, SubtitleError>) -> Result<
    Option<Seq<u8>>,
    SubtitleError,
> {
    match plan {
        Ok(Some(bytes)) => Ok(Some(bytes@)),
        Ok(None) => Ok(None),
        Err(e) => Err(e),
    }
}

/// Serialises a run of cues as a SubRip file.
pub fn render_cues(cues: &Vec<SubtitleCue>) -> (data: Vec<u8>)
    ensures
        data@ == srt_document(cue_views(cues@)),
{
    match srt_data(cues) {
        Ok(bytes) => bytes,
        Err(_) => unreached(),
    }
}

/// The SubRip file of a transcript: its cue track, serialised.
pub fn generate_srt(entries: &Vec<TranscriptEntry>) -> (data: Result<Vec<u8>, SubtitleError>)
    ensures
        bytes_view(data) == subtitle_bytes(entries@),
{
    match build_cues(entries) {
        Err(e) => Err(e),
        Ok(cues) => Ok(render_cues(&cues)),
    }
}

/// Decides what subtitle generation writes to its destination. Where the
/// destination exists already, nothing is computed and nothing is to be
/// written: `Ok(None)`. Else the caller is to write the bytes that come back.
pub fn generate_srt_file(destination_exists: bool, entries: &Vec<TranscriptEntry>) -> (plan: Result<
    Option<Vec<u8>>,
    SubtitleError,
>)
    ensures
        plan_view(plan) == subtitle_plan(destination_exists, entries@),
{
    if destination_exists {
        return Ok(None);
    }
    match generate_srt(entries) {
        Ok(bytes) => Ok(Some(bytes)),
        Err(e) => Err(e),
    }
}

/// What the caller says where the subtitle file could not be written: the
/// message holds the destination.
pub open spec fn write_failure_text(destination: Seq<char>) -> Seq<char> {
    "Unable to write file '"@ + destination + "'"@
}

/// The message for a subtitle file that could not be written to
/// `destination`.
pub fn write_failure_message(destination: &str) -> (text: String)
    ensures
        text@ == write_failure_text(destination@),
{
    quoted("Unable to write file '", destination)
}

/// The message of a failed write holds the destination.
pub proof fn lemma_write_failure_holds_destination(destination: Seq<char>)
    ensures
        has_infix(write_failure_text(destination), destination),
{
    lemma_middle_is_infix("Unable to write file '"@, destination, "'"@);
}

/// Generation is idempotent. Once a run has succeeded and its plan is carried
/// out, the destination exists; a second run for the same destination then
/// plans no write, and the destination keeps what the first run left there.
pub proof fn lemma_generation_is_idempotent(
    before: Option<Seq<u8>>,
    entries: Seq<TranscriptEntry>,
    again: Seq<TranscriptEntry>,
)
    requires
        subtitle_plan(before is Some, entries) is Ok,
    ensures
        ({
            let first = subtitle_plan(before is Some, entries)->Ok_0;
            let after = destination_after(before, first);
            &&& after is Some
            &&& subtitle_plan(after is Some, again) == Ok::<Option<Seq<u8>>, SubtitleError>(None)
            &&& destination_after(after, None) == after
        }),
{
}

} // verus!
