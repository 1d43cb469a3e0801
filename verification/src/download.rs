//! The download of the video: the name of the file it is saved under, and the
//! decisions of the transfer as a state machine that the caller drives. The
//! caller does the work that a state asks for and reports what came of it;
//! `step` says what to do next.

use crate::text::{after_last, has_infix, lemma_middle_is_infix, quoted, text_after_last};
use reqwest::Url;
use vstd::prelude::*;
use vstd::string::StringExecFns;

verus! {

/// The path of the address that `reqwest::Url::parse` reads from a text, as
/// `Url::path` gives it, or `None` where the text is not accepted as an
/// address.
pub uninterp spec fn url_path_of(text: Seq<char>) -> Option<Seq<char>>;

/// Calls `Url::parse`, drops what an error says, and copies the text that
/// `Url::path` lends of the address. The result is `url_path_of` of the text.
#[verifier::external_body]
fn url_path(text: &str) -> (path: Option<String>)
    ensures
        path is Some <==> url_path_of(text@) is Some,
        path matches Some(found) ==> url_path_of(text@) == Some(found@),
{
    Url::parse(text).ok().map(|address| address.path().to_string())
}

/// Why a download came to nothing.
#[derive(Clone, Copy, Debug, PartialEq, Eq, Structural)]
pub enum DownloadError {
    /// The link is no absolute address.
    InvalidUrl,
    /// The request could not be sent.
    RequestFailed,
    /// The server did not say how long the body is.
    MissingContentLength,
    /// The destination file could not be created.
    CreateFailed,
    /// A chunk of the body could not be read.
    ChunkFailed,
    /// A chunk could not be written to the destination file.
    WriteFailed,
    /// The caller reported something that the state had not asked for.
    OutOfOrder,
}

/// What the caller says of a failed download. What went wrong on the network
/// is told with the address, what went wrong with the file is told with the
/// destination.
pub open spec fn message_text(error: DownloadError, url: Seq<char>, destination: Seq<char>) -> Seq<
    char,
> {
    match error {
        DownloadError::InvalidUrl => "Failed to parse address '"@ + url + "'"@,
        DownloadError::RequestFailed => "Failed to GET from '"@ + url + "'"@,
        DownloadError::MissingContentLength => "Failed to get content length from '"@ + url + "'"@,
        DownloadError::CreateFailed => "Failed to create file '"@ + destination + "'"@,
        DownloadError::ChunkFailed => "Error while downloading file from '"@ + url + "'"@,
        DownloadError::WriteFailed => "Error while writing to file '"@ + destination + "'"@,
        DownloadError::OutOfOrder => "Error in the order of the download's steps"@,
    }
}

/// The message of a failure on the network holds the address, and the message
/// of a failure on the file holds the destination.
pub proof fn lemma_message_holds_its_subject(
    error: DownloadError,
    url: Seq<char>,
    destination: Seq<char>,
)
    ensures
        error is CreateFailed || error is WriteFailed ==> has_infix(
            message_text(error, url, destination),
            destination,
        ),
        error is InvalidUrl || error is RequestFailed || error is MissingContentLength
            || error is ChunkFailed ==> has_infix(message_text(error, url, destination), url),
{
    lemma_middle_is_infix("Failed to parse address '"@, url, "'"@);
    lemma_middle_is_infix("Failed to GET from '"@, url, "'"@);
    lemma_middle_is_infix("Failed to get content length from '"@, url, "'"@);
    lemma_middle_is_infix("Error while downloading file from '"@, url, "'"@);
    lemma_middle_is_infix("Failed to create file '"@, destination, "'"@);
    lemma_middle_is_infix("Error while writing to file '"@, destination, "'"@);
}

impl DownloadError {
    /// The message of this error for a download from `url` to `destination`.
    pub fn message(&self, url: &str, destination: &str) -> (text: String)
        ensures
            text@ == message_text(*self, url@, destination@),
    {
        match self {
            DownloadError::InvalidUrl => quoted("Failed to parse address '", url),
            DownloadError::RequestFailed => quoted("Failed to GET from '", url),
            DownloadError::MissingContentLength => quoted(
                "Failed to get content length from '",
                url,
            ),
            DownloadError::CreateFailed => quoted("Failed to create file '", destination),
            DownloadError::ChunkFailed => quoted("Error while downloading file from '", url),
            DownloadError::WriteFailed => quoted("Error while writing to file '", destination),
            DownloadError::OutOfOrder => String::from_str(
                "Error in the order of the download's steps",
            ),
        }
    }
}

/// The name of the file that a download from `url` is saved under: what
/// stands behind the last slash of the address's path.
pub open spec fn file_name_of(url: Seq<char>) -> Option<Seq<char>> {
    match url_path_of(url) {
        Some(path) => Some(after_last(path, '/')),
        None => None,
    }
}

/// The name of the file that a download from `url` is saved under. A name is
/// owed for every text that is an absolute address.
pub fn video_file_name(url: &str) -> (name: Result<String, DownloadError>)
    ensures
        match name {
            Ok(file_name) => file_name_of(url@) == Some(file_name@),
            Err(e) => e == DownloadError::InvalidUrl && file_name_of(url@) is None,
        },
{
    match url_path(url) {
        None => Err(DownloadError::InvalidUrl),
        Some(path) => Ok(text_after_last(path.as_str(), '/')),
    }
}

/// Where a download stands, which is also what its caller has to do next.
#[derive(Clone, Copy, Debug, PartialEq, Eq, Structural)]
pub enum DownloadState {
    /// Find out whether the destination file exists.
    Probing,
    /// Send the request for the video.
    Requesting,
    /// Create the destination file. The server has promised `total` bytes.
    Creating { total: u64 },
    /// Wait for the next chunk of the body. `downloaded` is what the progress
    /// indicator shows.
    Receiving { total: u64, downloaded: u64 },
    /// Write the chunk of `chunk` bytes that has come in.
    Writing { total: u64, downloaded: u64, chunk: u64 },
    /// Done: the file is at its destination.
    Finished,
    /// Given up, for this reason.
    Failed(DownloadError),
}

/// What the caller reports of the work that a state asked for.
#[derive(Clone, Copy, Debug, PartialEq, Eq, Structural)]
pub enum DownloadEvent {
    /// The destination file exists.
    Exists,
    /// There is no file at the destination.
    Absent,
    /// The server answered, and gave this content length, or none.
    Response { content_length: Option<u64> },
    /// The request could not be sent.
    RequestFailed,
    /// The destination file was created.
    Created,
    /// The destination file could not be created.
    CreateFailed,
    /// A chunk of `len` bytes came in.
    Chunk { len: usize },
    /// The next chunk could not be read.
    ChunkFailed,
    /// The body has ended.
    EndOfStream,
    /// The chunk in hand was written.
    Written,
    /// The chunk in hand could not be written.
    WriteFailed,
}

/// The progress counter after a chunk: the bytes counted so far and those of
/// the chunk, but never more than the server promised.
pub open spec fn advanced(total: int, downloaded: int, chunk: int) -> int {
    if downloaded + chunk <= total {
        downloaded + chunk
    } else {
        total
    }
}

/// The state that follows on an event. A download that is over stays as it
/// is; an event that the state did not ask for fails it.
pub open spec fn next_state(state: DownloadState, event: DownloadEvent) -> DownloadState {
    match (state, event) {
        (DownloadState::Finished, _) => state,
        (DownloadState::Failed(_), _) => state,
        (DownloadState::Probing, DownloadEvent::Exists) => DownloadState::Finished,
        (DownloadState::Probing, DownloadEvent::Absent) => DownloadState::Requesting,
        (DownloadState::Requesting, DownloadEvent::RequestFailed) => DownloadState::Failed(
            DownloadError::RequestFailed,
        ),
        (
            DownloadState::Requesting,
            DownloadEvent::Response { content_length: None },
        ) => DownloadState::Failed(DownloadError::MissingContentLength),
        (
            DownloadState::Requesting,
            DownloadEvent::Response { content_length: Some(total) },
        ) => DownloadState::Creating { total },
        (DownloadState::Creating { total }, DownloadEvent::Created) => DownloadState::Receiving {
            total,
            downloaded: 0,
        },
        (DownloadState::Creating { total }, DownloadEvent::CreateFailed) => DownloadState::Failed(
            DownloadError::CreateFailed,
        ),
        (
            DownloadState::Receiving { total, downloaded },
            DownloadEvent::Chunk { len },
        ) => DownloadState::Writing { total, downloaded, chunk: len as u64 },
        (DownloadState::Receiving { total, downloaded }, DownloadEvent::ChunkFailed) => {
            DownloadState::Failed(DownloadError::ChunkFailed)
        },
        (DownloadState::Receiving { total, downloaded }, DownloadEvent::EndOfStream) => {
            DownloadState::Finished
        },
        (
            DownloadState::Writing { total, downloaded, chunk },
            DownloadEvent::Written,
        ) => DownloadState::Receiving {
            total,
            downloaded: advanced(total as int, downloaded as int, chunk as int) as u64,
        },
        (DownloadState::Writing { total, downloaded, chunk }, DownloadEvent::WriteFailed) => {
            DownloadState::Failed(DownloadError::WriteFailed)
        },
        _ => DownloadState::Failed(DownloadError::OutOfOrder),
    }
}

/// The state after a run of events.
pub open spec fn state_after(state: DownloadState, events: Seq<DownloadEvent>) -> DownloadState
    decreases events.len(),
{
    if events.len() == 0 {
        state
    } else {
        next_state(state_after(state, events.drop_last()), events.last())
    }
}

/// The progress counter after a chunk of `chunk` bytes.
pub fn advance(total: u64, downloaded: u64, chunk: u64) -> (counter: u64)
    ensures
        counter == advanced(total as int, downloaded as int, chunk as int),
        downloaded <= total ==> counter <= total,
{
    if downloaded <= total && chunk <= total - downloaded {
        downloaded + chunk
    } else {
        total
    }
}

impl DownloadState {
    /// No more is counted than the server promised.
    pub open spec fn within_total(self) -> bool {
        match self {
            DownloadState::Receiving { total, downloaded } => downloaded <= total,
            DownloadState::Writing { total, downloaded, chunk } => downloaded <= total,
            _ => true,
        }
    }

    /// The download is over, well or badly.
    pub open spec fn is_over(self) -> bool {
        self is Finished || self is Failed
    }

    /// The state asks its caller to touch the network.
    pub open spec fn uses_network(self) -> bool {
        self is Requesting || self is Receiving
    }

    /// The state asks its caller to touch the destination file.
    pub open spec fn writes_file(self) -> bool {
        self is Creating || self is Writing
    }

    /// The state in which every download starts.
    pub fn start() -> (state: DownloadState)
        ensures
            state == DownloadState::Probing,
    {
        DownloadState::Probing
    }

    /// What the progress indicator shows in this state, where it shows
    /// anything.
    pub fn progress(&self) -> (position: Option<u64>)
        ensures
            position == match *self {
                DownloadState::Receiving { total, downloaded } => Some(downloaded),
                DownloadState::Writing { total, downloaded, chunk } => Some(downloaded),
                _ => None,
            },
    {
        match self {
            DownloadState::Receiving { total, downloaded } => Some(*downloaded),
            DownloadState::Writing { total, downloaded, chunk } => Some(*downloaded),
            _ => None,
        }
    }

    /// The state that follows on `event`.
    pub fn step(&self, event: DownloadEvent) -> (next: DownloadState)
        ensures
            next == next_state(*self, event),
            self.within_total() ==> next.within_total(),
    {
        match (*self, event) {
            (DownloadState::Finished, _) => *self,
            (DownloadState::Failed(_), _) => *self,
            (DownloadState::Probing, DownloadEvent::Exists) => DownloadState::Finished,
            (DownloadState::Probing, DownloadEvent::Absent) => DownloadState::Requesting,
            (DownloadState::Requesting, DownloadEvent::RequestFailed) => DownloadState::Failed(
                DownloadError::RequestFailed,
            ),
            (
                DownloadState::Requesting,
                DownloadEvent::Response { content_length: None },
            ) => DownloadState::Failed(DownloadError::MissingContentLength),
            (
                DownloadState::Requesting,
                DownloadEvent::Response { content_length: Some(total) },
            ) => DownloadState::Creating { total },
            (
                DownloadState::Creating { total },
                DownloadEvent::Created,
            ) => DownloadState::Receiving { total, downloaded: 0 },
            (
                DownloadState::Creating { total },
                DownloadEvent::CreateFailed,
            ) => DownloadState::Failed(DownloadError::CreateFailed),
            (
                DownloadState::Receiving { total, downloaded },
                DownloadEvent::Chunk { len },
            ) => DownloadState::Writing { total, downloaded, chunk: len as u64 },
            (DownloadState::Receiving { total, downloaded }, DownloadEvent::ChunkFailed) => {
                DownloadState::Failed(DownloadError::ChunkFailed)
            },
            (DownloadState::Receiving { total, downloaded }, DownloadEvent::EndOfStream) => {
                DownloadState::Finished
            },
            (
                DownloadState::Writing { total, downloaded, chunk },
                DownloadEvent::Written,
            ) => DownloadState::Receiving { total, downloaded: advance(total, downloaded, chunk) },
            (DownloadState::Writing { total, downloaded, chunk }, DownloadEvent::WriteFailed) => {
                DownloadState::Failed(DownloadError::WriteFailed)
            },
            _ => DownloadState::Failed(DownloadError::OutOfOrder),
        }
    }
}

/// One event after another is the same as the run of both.
pub proof fn lemma_state_after_concat(
    state: DownloadState,
    first: Seq<DownloadEvent>,
    then: Seq<DownloadEvent>,
)
    ensures
        state_after(state, first + then) == state_after(state_after(state, first), then),
    decreases then.len(),
{
    if then.len() == 0 {
        assert(first + then =~= first);
    } else {
        assert((first + then).drop_last() =~= first + then.drop_last());
        assert((first + then).last() == then.last());
        lemma_state_after_concat(state, first, then.drop_last());
    }
}

/// The state after one event is the next state.
pub proof fn lemma_state_after_one(state: DownloadState, event: DownloadEvent)
    ensures
        state_after(state, seq![event]) == next_state(state, event),
{
    reveal_with_fuel(state_after, 2);
    assert(seq![event].drop_last() =~= Seq::<DownloadEvent>::empty());
}

/// A download that is over stays as it is, whatever is reported to it.
pub proof fn lemma_over_stays_over(state: DownloadState, events: Seq<DownloadEvent>)
    requires
        state.is_over(),
    ensures
        state_after(state, events) == state,
    decreases events.len(),
{
    if events.len() > 0 {
        lemma_over_stays_over(state, events.drop_last());
    }
}

/// The progress counter never exceeds what the server promised: a state that
/// keeps within the total is followed by one that does.
pub proof fn lemma_step_keeps_within_total(state: DownloadState, event: DownloadEvent)
    requires
        state.within_total(),
    ensures
        next_state(state, event).within_total(),
{
}

/// Whatever is reported to a download, from its start on, the progress
/// counter never exceeds what the server promised.
pub proof fn lemma_counter_never_exceeds_total(events: Seq<DownloadEvent>)
    ensures
        state_after(DownloadState::Probing, events).within_total(),
    decreases events.len(),
{
    if events.len() > 0 {
        lemma_counter_never_exceeds_total(events.drop_last());
        lemma_step_keeps_within_total(
            state_after(DownloadState::Probing, events.drop_last()),
            events.last(),
        );
    }
}

/// The bytes of a run of chunks, by their lengths.
pub open spec fn bytes_of(lengths: Seq<usize>) -> int
    decreases lengths.len(),
{
    if lengths.len() == 0 {
        0
    } else {
        bytes_of(lengths.drop_last()) + lengths.last()
    }
}

/// What is reported of a run of chunks that all come in and are all written:
/// each chunk, and after it that it was written.
pub open spec fn chunk_events(lengths: Seq<usize>) -> Seq<DownloadEvent>
    decreases lengths.len(),
{
    if lengths.len() == 0 {
        Seq::empty()
    } else {
        chunk_events(lengths.drop_last()) + seq![
            DownloadEvent::Chunk { len: lengths.last() },
            DownloadEvent::Written,
        ]
    }
}

/// After a run of chunks the progress counter shows the bytes that came in,
/// capped at what the server promised. So it shows the promised total where
/// exactly that many bytes came, and also where more came.
pub proof fn lemma_counter_is_capped_sum(total: u64, lengths: Seq<usize>)
    ensures
        state_after(
            DownloadState::Receiving { total, downloaded: 0 },
            chunk_events(lengths),
        ) == (DownloadState::Receiving {
            total,
            downloaded: (if bytes_of(lengths) <= total {
                bytes_of(lengths)
            } else {
                total as int
            }) as u64,
        }),
        bytes_of(lengths) >= 0,
    decreases lengths.len(),
{
    let begin = DownloadState::Receiving { total, downloaded: 0 };
    if lengths.len() > 0 {
        let earlier = lengths.drop_last();
        lemma_counter_is_capped_sum(total, earlier);
        let chunk = DownloadEvent::Chunk { len: lengths.last() };
        let before = state_after(begin, chunk_events(earlier));
        assert(seq![chunk, DownloadEvent::Written] =~= seq![chunk] + seq![DownloadEvent::Written]);
        lemma_state_after_concat(begin, chunk_events(earlier), seq![chunk, DownloadEvent::Written]);
        lemma_state_after_concat(before, seq![chunk], seq![DownloadEvent::Written]);
        lemma_state_after_one(before, chunk);
        lemma_state_after_one(next_state(before, chunk), DownloadEvent::Written);
    }
}

/// Where the destination exists, the download is over after the probe, and no
/// state that the run passes through asks for a request, for a chunk or for
/// the file: a second run for the same destination leaves the network alone.
pub proof fn lemma_existing_destination_ends_download(events: Seq<DownloadEvent>, k: int)
    requires
        0 <= k <= events.len() + 1,
    ensures
        state_after(DownloadState::Probing, seq![DownloadEvent::Exists] + events)
            == DownloadState::Finished,
        !state_after(
            DownloadState::Probing,
            (seq![DownloadEvent::Exists] + events).take(k),
        ).uses_network(),
        !state_after(
            DownloadState::Probing,
            (seq![DownloadEvent::Exists] + events).take(k),
        ).writes_file(),
{
    let probe = seq![DownloadEvent::Exists];
    lemma_state_after_one(DownloadState::Probing, DownloadEvent::Exists);
    lemma_state_after_concat(DownloadState::Probing, probe, events);
    lemma_over_stays_over(DownloadState::Finished, events);
    if k == 0 {
        assert((probe + events).take(0) =~= Seq::<DownloadEvent>::empty());
    } else {
        assert((probe + events).take(k) =~= probe + events.take(k - 1));
        lemma_state_after_concat(DownloadState::Probing, probe, events.take(k - 1));
        lemma_over_stays_over(DownloadState::Finished, events.take(k - 1));
    }
}

/// Where the server gives no content length, the download fails for that
/// reason as soon as the answer is in, and stays failed. No state that the run
/// passes through asks for the file to be created or written.
pub proof fn lemma_missing_length_fails_before_file(events: Seq<DownloadEvent>, k: int)
    requires
        0 <= k <= events.len() + 2,
    ensures
        state_after(
            DownloadState::Probing,
            seq![DownloadEvent::Absent, DownloadEvent::Response { content_length: None }] + events,
        ) == DownloadState::Failed(DownloadError::MissingContentLength),
        !state_after(
            DownloadState::Probing,
            (seq![DownloadEvent::Absent, DownloadEvent::Response { content_length: None }]
                + events).take(k),
        ).writes_file(),
{
    let response = DownloadEvent::Response { content_length: None };
    let answer = seq![DownloadEvent::Absent, response];
    let failed = DownloadState::Failed(DownloadError::MissingContentLength);
    assert(answer =~= seq![DownloadEvent::Absent] + seq![response]);
    lemma_state_after_concat(DownloadState::Probing, seq![DownloadEvent::Absent], seq![response]);
    lemma_state_after_one(DownloadState::Probing, DownloadEvent::Absent);
    lemma_state_after_one(DownloadState::Requesting, response);
    lemma_state_after_concat(DownloadState::Probing, answer, events);
    lemma_over_stays_over(failed, events);
    if k == 0 {
        assert((answer + events).take(0) =~= Seq::<DownloadEvent>::empty());
    } else if k == 1 {
        assert((answer + events).take(1) =~= seq![DownloadEvent::Absent]);
    } else {
        assert((answer + events).take(k) =~= answer + events.take(k - 2));
        lemma_state_after_concat(DownloadState::Probing, answer, events.take(k - 2));
        lemma_over_stays_over(failed, events.take(k - 2));
    }
}

} // verus!
