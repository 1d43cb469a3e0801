//! The transcript of a page: its timed entries, read in document order from
//! the sentences of the transcript paragraphs.

use crate::dom::{
    attribute, attribute_of, document_matches, element_matches, first_child, first_child_of,
    inner_html, inner_html_of, parse_selector, select_in_document, select_in_element, selector_of,
};
use crate::seconds::{millis_of, seconds_to_millis, StartError};
use scraper::{ElementRef, Html, Selector};
use vstd::prelude::*;

verus! {

/// One sentence of a transcript: when it starts, counted in milliseconds from
/// the start of the video, and what is said. The start is never negative.
#[derive(Debug, PartialEq, Eq)]
pub struct TranscriptEntry {
    start_time_ms: i64,
    text: String,
}

impl TranscriptEntry {
    #[verifier::type_invariant]
    spec fn starts_at_or_after_zero(&self) -> bool {
        self.start_time_ms >= 0
    }

    /// The start of the sentence in milliseconds.
    pub closed spec fn start(&self) -> int {
        self.start_time_ms as int
    }

    /// The text of the sentence.
    pub closed spec fn words(&self) -> Seq<char> {
        self.text@
    }

    /// An entry that starts at `start_time_ms`, unless that is negative.
    pub fn new(start_time_ms: i64, text: String) -> (entry: Option<TranscriptEntry>)
        ensures
            entry is Some <==> start_time_ms >= 0,
            entry matches Some(e) ==> e.start() == start_time_ms && e.words() == text@,
    {
        if start_time_ms < 0 {
            None
        } else {
            Some(TranscriptEntry { start_time_ms, text })
        }
    }

    /// The start of the sentence in milliseconds.
    pub fn start_time_ms(&self) -> (ms: i64)
        ensures
            ms == self.start(),
            ms >= 0,
    {
        proof {
            use_type_invariant(self);
        }
        self.start_time_ms
    }

    /// The text of the sentence.
    pub fn text(&self) -> (text: &String)
        ensures
            text@ == self.words(),
    {
        &self.text
    }
}

/// An entry as a mathematical value.
pub struct EntryView {
    pub start: int,
    pub text: Seq<char>,
}

/// The value of an entry.
pub open spec fn entry_view(entry: TranscriptEntry) -> EntryView {
    EntryView { start: entry.start(), text: entry.words() }
}

/// The values of a run of entries.
pub open spec fn entry_views(entries: Seq<TranscriptEntry>) -> Seq<EntryView> {
    entries.map_values(|entry: TranscriptEntry| entry_view(entry))
}

/// What the parser reads of a sentence element: its first child.
#[derive(Debug, PartialEq, Eq)]
pub enum FirstChild {
    /// The sentence element has no child.
    Missing,
    /// The first child is no element: text, or a comment.
    NotElement,
    /// The first child is an element, with this start attribute, if it has
    /// one, and this inner markup.
    Element { start: Option<String>, text: String },
}

/// A first child as a mathematical value: the view of a `FirstChild`.
pub enum FirstChildView {
    Missing,
    NotElement,
    Element { start: Option<Seq<char>>, text: Seq<char> },
}

impl View for FirstChild {
    type V = FirstChildView;

    open spec fn view(&self) -> FirstChildView {
        match self {
            FirstChild::Missing => FirstChildView::Missing,
            FirstChild::NotElement => FirstChildView::NotElement,
            FirstChild::Element { start, text } => FirstChildView::Element {
                start: match start {
                    Some(value) => Some(value@),
                    None => None,
                },
                text: text@,
            },
        }
    }
}

/// Why a page gave no transcript. All of these are faults of the page's
/// markup but the first.
#[derive(Clone, Copy, Debug, PartialEq, Eq, Structural)]
pub enum TranscriptError {
    /// A selector of the transcript's elements was not accepted.
    Selector,
    /// A sentence element has no child.
    MissingChild,
    /// The first child of a sentence element is no element.
    ChildNotElement,
    /// The first child of a sentence element has no start attribute.
    MissingStart,
    /// The start attribute gives no time, for this reason.
    Start(StartError),
}

/// The views of a run of first children.
pub open spec fn child_views(children: Seq<FirstChild>) -> Seq<FirstChildView> {
    children.map_values(|child: FirstChild| child@)
}

/// The entry that a first child carries, or what is wrong with it: its start
/// attribute read as seconds and counted in milliseconds, and its markup.
pub open spec fn entry_of(child: FirstChildView) -> Result<EntryView, TranscriptError> {
    match child {
        FirstChildView::Missing => Err(TranscriptError::MissingChild),
        FirstChildView::NotElement => Err(TranscriptError::ChildNotElement),
        FirstChildView::Element { start: None, text } => Err(TranscriptError::MissingStart),
        FirstChildView::Element { start: Some(seconds), text } => match millis_of(seconds) {
            Ok(start) => Ok(EntryView { start, text }),
            Err(e) => Err(TranscriptError::Start(e)),
        },
    }
}

/// The first of the children that carries no entry, if there is one.
pub open spec fn first_fault(children: Seq<FirstChildView>) -> Option<int> {
    if exists|i: int| is_first_fault(children, i) {
        Some(choose|i: int| is_first_fault(children, i))
    } else {
        None
    }
}

/// Child `i` carries no entry, and every child before it carries one.
pub open spec fn is_first_fault(children: Seq<FirstChildView>, i: int) -> bool {
    &&& 0 <= i < children.len()
    &&& entry_of(children[i]) is Err
    &&& forall|j: int| 0 <= j < i ==> entry_of(#[trigger] children[j]) is Ok
}

/// The entries that a run of first children carries, in their order. One
/// child that carries none spoils the run, and the first such child says why.
pub open spec fn entries_of(children: Seq<FirstChildView>) -> Result<
    Seq<EntryView>,
    TranscriptError,
> {
    match first_fault(children) {
        Some(i) => Err(entry_of(children[i])->Err_0),
        None => Ok(children.map_values(|child: FirstChildView| entry_of(child)->Ok_0)),
    }
}

/// The view of a run of entries or of the reason why there is none.
pub open spec fn outcome_view(outcome: Result<Vec<TranscriptEntry>, TranscriptError>) -> Result<
    Seq<EntryView>,
    TranscriptError,
> {
    match outcome {
        Ok(entries) => Ok(entry_views(entries@)),
        Err(e) => Err(e),
    }
}

/// The entry that a first child carries.
pub fn read_entry(child: &FirstChild) -> (entry: Result<TranscriptEntry, TranscriptError>)
    ensures
        match entry {
            Ok(found) => entry_of(child@) == Ok::<EntryView, TranscriptError>(entry_view(found)),
            Err(e) => entry_of(child@) == Err::<EntryView, TranscriptError>(e),
        },
{
    match child {
        FirstChild::Missing => Err(TranscriptError::MissingChild),
        FirstChild::NotElement => Err(TranscriptError::ChildNotElement),
        FirstChild::Element { start: None, text } => Err(TranscriptError::MissingStart),
        FirstChild::Element { start: Some(seconds), text } => {
            match seconds_to_millis(seconds.as_str()) {
                Ok(start_time_ms) => Ok(TranscriptEntry { start_time_ms, text: text.clone() }),
                Err(e) => Err(TranscriptError::Start(e)),
            }
        },
    }
}

/// The entries that a run of first children carries.
pub fn read_entries(children: &Vec<FirstChild>) -> (outcome: Result<
    Vec<TranscriptEntry>,
    TranscriptError,
>)
    ensures
        outcome_view(outcome) == entries_of(child_views(children@)),
{
    let ghost all = child_views(children@);
    let mut entries: Vec<TranscriptEntry> = Vec::new();
    let mut i: usize = 0;
    while i < children.len()
        invariant
            i <= children.len(),
            all == child_views(children@),
            entries.len() == i,
            forall|j: int| 0 <= j < i ==> entry_of(#[trigger] all[j]) is Ok,
            forall|j: int|
                0 <= j < i ==> entry_view(#[trigger] entries@[j]) == entry_of(all[j])->Ok_0,
        decreases children.len() - i,
    {
        assert(all[i as int] == children@[i as int]@);
        match read_entry(&children[i]) {
            Err(e) => {
                assert(is_first_fault(all, i as int));
                proof {
                    lemma_first_fault_is_unique(all, i as int);
                }
                return Err(e);
            },
            Ok(entry) => {
                entries.push(entry);
            },
        }
        i += 1;
    }
    proof {
        assert forall|k: int| !is_first_fault(all, k) by {
            if 0 <= k < all.len() {
                assert(entry_of(all[k]) is Ok);
            }
        }
        assert(entry_views(entries@) =~= all.map_values(
            |child: FirstChildView| entry_of(child)->Ok_0,
        ));
    }
    Ok(entries)
}

/// A run of children has at most one first fault.
pub proof fn lemma_first_fault_is_unique(children: Seq<FirstChildView>, i: int)
    requires
        is_first_fault(children, i),
    ensures
        first_fault(children) == Some(i),
{
    let k = choose|k: int| is_first_fault(children, k);
    if k < i {
        assert(entry_of(children[k]) is Ok);
    } else if i < k {
        assert(entry_of(children[i]) is Ok);
    }
}

/// The selector of the paragraphs of a page's transcript.
pub open spec fn paragraph_selector() -> Seq<char> {
    "li.supplement.transcript p"@
}

/// The selector of the sentence elements within a paragraph.
pub open spec fn sentence_selector() -> Seq<char> {
    "span.sentence"@
}

/// What the parser reads of one sentence element: whether it has a first
/// child that is an element, and of that child the `data-start` attribute and
/// the inner markup.
pub open spec fn child_of(sentence: ElementRef) -> FirstChildView {
    match first_child_of(sentence) {
        None => FirstChildView::Missing,
        Some(None) => FirstChildView::NotElement,
        Some(Some(child)) => FirstChildView::Element {
            start: attribute_of(child, "data-start"@),
            text: inner_html_of(child),
        },
    }
}

/// What the parser reads of each of a run of sentence elements.
pub open spec fn children_of(sentences: Seq<ElementRef>) -> Seq<FirstChildView> {
    sentences.map_values(|sentence: ElementRef| child_of(sentence))
}

/// The sentence elements of the first `n` paragraphs: those of the first
/// paragraph in their order, then those of the second, and so on.
pub open spec fn sentences_within(paragraphs: Seq<ElementRef>, selector: Selector, n: int) -> Seq<
    ElementRef,
>
    decreases n,
{
    if n <= 0 {
        Seq::empty()
    } else {
        sentences_within(paragraphs, selector, n - 1) + element_matches(
            paragraphs[n - 1],
            selector,
        )
    }
}

/// The first children of all sentence elements of a page's transcript, in
/// document order, or `None` where a selector is not accepted.
pub open spec fn transcript_children(html: Html) -> Option<Seq<FirstChildView>> {
    match (selector_of(paragraph_selector()), selector_of(sentence_selector())) {
        (Some(paragraph), Some(sentence)) => {
            let paragraphs = document_matches(html, paragraph);
            Some(children_of(sentences_within(paragraphs, sentence, paragraphs.len() as int)))
        },
        _ => None,
    }
}

/// The transcript of a page.
pub open spec fn transcript_of(html: Html) -> Result<Seq<EntryView>, TranscriptError> {
    match transcript_children(html) {
        None => Err(TranscriptError::Selector),
        Some(children) => entries_of(children),
    }
}

/// What the parser reads of one sentence element.
fn read_child(sentence: &ElementRef) -> (child: FirstChild)
    ensures
        child@ == child_of(*sentence),
{
    match first_child(sentence) {
        None => FirstChild::Missing,
        Some(None) => FirstChild::NotElement,
        Some(Some(element)) => {
            let start = attribute(&element, "data-start");
            let text = inner_html(&element);
            FirstChild::Element { start, text }
        },
    }
}

/// The first children of all sentence elements of a page's transcript, in
/// document order.
pub fn read_children(html: &Html) -> (children: Option<Vec<FirstChild>>)
    ensures
        match children {
            Some(found) => transcript_children(*html) == Some(child_views(found@)),
            None => transcript_children(*html) is None,
        },
{
    let paragraph = match parse_selector("li.supplement.transcript p") {
        Some(selector) => selector,
        None => {
            return None;
        },
    };
    let sentence = match parse_selector("span.sentence") {
        Some(selector) => selector,
        None => {
            return None;
        },
    };
    let paragraphs = select_in_document(html, &paragraph);
    let mut children: Vec<FirstChild> = Vec::new();
    let mut i: usize = 0;
    assert(child_views(children@) =~= children_of(sentences_within(paragraphs@, sentence, 0)));
    while i < paragraphs.len()
        invariant
            i <= paragraphs.len(),
            child_views(children@) == children_of(
                sentences_within(paragraphs@, sentence, i as int),
            ),
        decreases paragraphs.len() - i,
    {
        let sentences = select_in_element(&paragraphs[i], &sentence);
        let ghost before = sentences_within(paragraphs@, sentence, i as int);
        let mut k: usize = 0;
        assert(child_views(children@) =~= children_of(before + sentences@.take(0)));
        while k < sentences.len()
            invariant
                k <= sentences.len(),
                child_views(children@) == children_of(before + sentences@.take(k as int)),
            decreases sentences.len() - k,
        {
            let child = read_child(&sentences[k]);
            let ghost earlier = children@;
            children.push(child);
            proof {
                let seen = before + sentences@.take(k as int);
                assert(before + sentences@.take(k + 1) =~= seen.push(sentences@[k as int]));
                assert(children_of(seen.push(sentences@[k as int])) =~= children_of(seen).push(
                    child_of(sentences@[k as int]),
                ));
                assert(child_views(earlier.push(child)) =~= child_views(earlier).push(child@));
            }
            k += 1;
        }
        assert(sentences@.take(k as int) =~= sentences@);
        i += 1;
    }
    Some(children)
}

/// The transcript of a page, in document order: for each sentence element of
/// each transcript paragraph an entry, made of the `data-start` attribute of
/// its first child, read as seconds and counted in whole milliseconds, and of
/// that child's inner markup. The first sentence element that lacks such a
/// child, or whose child lacks the attribute, or whose attribute gives no
/// time, fails the whole page.
pub fn parse_transcript(html: &Html) -> (outcome: Result<Vec<TranscriptEntry>, TranscriptError>)
    ensures
        outcome_view(outcome) == transcript_of(*html),
{
    match read_children(html) {
        None => Err(TranscriptError::Selector),
        Some(children) => read_entries(&children),
    }
}

} // verus!
