use scraper::Html;
use videosub::seconds::StartError;
use videosub::transcript::{
    parse_transcript, read_children, read_entries, read_entry, FirstChild, TranscriptEntry,
    TranscriptError,
};

fn page(paragraphs: &str) -> Html {
    Html::parse_document(&format!(
        "<html><body><ul><li class=\"supplement transcript\">{}</li></ul></body></html>",
        paragraphs
    ))
}

fn entry(start: i64, text: &str) -> TranscriptEntry {
    TranscriptEntry::new(start, String::from(text)).unwrap()
}

fn element(start: Option<&str>, text: &str) -> FirstChild {
    FirstChild::Element { start: start.map(String::from), text: String::from(text) }
}

#[test]
fn entries_come_in_document_order() {
    let html = page(
        "<p><span class=\"sentence\"><span data-start=\"1.0\">Hello </span></span>\
         <span class=\"sentence\"><span data-start=\"2.5\">World</span></span></p>\
         <p><span class=\"sentence\"><span data-start=\"7.25\">Again</span></span></p>",
    );
    assert_eq!(
        parse_transcript(&html),
        Ok(vec![entry(1000, "Hello "), entry(2500, "World"), entry(7250, "Again")])
    );
}

#[test]
fn the_text_is_the_inner_markup_of_the_child() {
    let html = page(
        "<p><span class=\"sentence\"><span data-start=\"3\">a <i>b</i> &amp; c</span>tail</span></p>",
    );
    assert_eq!(parse_transcript(&html), Ok(vec![entry(3000, "a <i>b</i> &amp; c")]));
}

#[test]
fn attributes_within_the_text_keep_the_order_of_the_page() {
    let html = page(
        "<p><span class=\"sentence\"><span data-start=\"1\"><a title=\"t\" href=\"h\" id=\"i\">x</a></span></span></p>",
    );
    assert_eq!(
        parse_transcript(&html),
        Ok(vec![entry(1000, "<a title=\"t\" href=\"h\" id=\"i\">x</a>")])
    );
}

#[test]
fn a_start_that_is_no_number_fails_the_page() {
    let html = page("<p><span class=\"sentence\"><span data-start=\"soon\">x</span></span></p>");
    assert_eq!(parse_transcript(&html), Err(TranscriptError::Start(StartError::NotNumeric)));
}

#[test]
fn a_start_below_zero_fails_the_page() {
    let html = page("<p><span class=\"sentence\"><span data-start=\"-1.5\">x</span></span></p>");
    assert_eq!(parse_transcript(&html), Err(TranscriptError::Start(StartError::Negative)));
}

#[test]
fn a_start_beyond_range_fails_the_page() {
    let html = page(
        "<p><span class=\"sentence\"><span data-start=\"9223372036854775.808\">x</span></span></p>",
    );
    assert_eq!(parse_transcript(&html), Err(TranscriptError::Start(StartError::OutOfRange)));
}

#[test]
fn a_page_without_transcript_has_no_entries() {
    let html = Html::parse_document("<html><body><p><span class=\"sentence\">x</span></p></body></html>");
    assert_eq!(parse_transcript(&html), Ok(Vec::new()));
    assert_eq!(read_children(&html), Some(Vec::new()));
}

#[test]
fn a_sentence_without_child_fails_the_page() {
    let html = page("<p><span class=\"sentence\"></span></p>");
    assert_eq!(read_children(&html), Some(vec![FirstChild::Missing]));
    assert_eq!(parse_transcript(&html), Err(TranscriptError::MissingChild));
}

#[test]
fn a_sentence_that_begins_with_text_fails_the_page() {
    let html = page("<p><span class=\"sentence\"> <span data-start=\"1\">x</span></span></p>");
    assert_eq!(read_children(&html), Some(vec![FirstChild::NotElement]));
    assert_eq!(parse_transcript(&html), Err(TranscriptError::ChildNotElement));
}

#[test]
fn a_child_without_start_fails_the_page() {
    let html = page("<p><span class=\"sentence\"><span>x</span></span></p>");
    assert_eq!(read_children(&html), Some(vec![element(None, "x")]));
    assert_eq!(parse_transcript(&html), Err(TranscriptError::MissingStart));
}

#[test]
fn the_first_fault_is_reported() {
    let html = page(
        "<p><span class=\"sentence\"><span data-start=\"1\">fine</span></span>\
         <span class=\"sentence\"><span data-start=\"x\">no number</span></span></p>\
         <p><span class=\"sentence\"></span></p>",
    );
    assert_eq!(parse_transcript(&html), Err(TranscriptError::Start(StartError::NotNumeric)));
}

#[test]
fn read_entry_tells_the_cases_apart() {
    assert_eq!(read_entry(&FirstChild::Missing), Err(TranscriptError::MissingChild));
    assert_eq!(read_entry(&FirstChild::NotElement), Err(TranscriptError::ChildNotElement));
    assert_eq!(read_entry(&element(None, "x")), Err(TranscriptError::MissingStart));
    assert_eq!(read_entry(&element(Some("1.5"), "x")), Ok(entry(1500, "x")));
    assert_eq!(read_entry(&element(Some("1.001"), "x")), Ok(entry(1001, "x")));
    assert_eq!(read_entry(&element(Some(""), "x")), Err(TranscriptError::Start(StartError::NotNumeric)));
    assert_eq!(read_entry(&element(Some("-2"), "x")), Err(TranscriptError::Start(StartError::Negative)));
}

#[test]
fn read_entries_stops_at_the_first_fault() {
    assert_eq!(read_entries(&Vec::new()), Ok(Vec::new()));
    assert_eq!(
        read_entries(&vec![element(Some("1"), "a"), element(Some("2"), "b")]),
        Ok(vec![entry(1000, "a"), entry(2000, "b")])
    );
    assert_eq!(
        read_entries(&vec![element(Some("1"), "a"), FirstChild::NotElement, FirstChild::Missing]),
        Err(TranscriptError::ChildNotElement)
    );
}
