use scraper::Html;
use videosub::link::{choose_link, parse_video, read_anchors, Anchor, LinkError, VideoType};

fn page(list: &str) -> Html {
    Html::parse_document(&format!(
        "<html><body><ul><li class=\"download\"><ul>{}</ul></li></ul></body></html>",
        list
    ))
}

fn anchor(label: &str, href: Option<&str>) -> Anchor {
    Anchor { label: String::from(label), href: href.map(String::from) }
}

#[test]
fn markers_are_the_tier_names() {
    assert_eq!(VideoType::HD.label_marker(), "HD");
    assert_eq!(VideoType::SD.label_marker(), "SD");
}

#[test]
fn the_hd_link_is_found() {
    let html = page(
        "<li><a href=\"https://cdn.example/v_hd.mp4\">HD Video</a></li>\
         <li><a href=\"https://cdn.example/v_sd.mp4\">SD Video</a></li>",
    );
    assert_eq!(parse_video(&html, &VideoType::HD), Ok(String::from("https://cdn.example/v_hd.mp4")));
    assert_eq!(parse_video(&html, &VideoType::SD), Ok(String::from("https://cdn.example/v_sd.mp4")));
}

#[test]
fn a_page_without_hd_anchor_gives_the_empty_link() {
    let html = page("<li><a href=\"https://cdn.example/v_sd.mp4\">SD Video</a></li>");
    assert_eq!(parse_video(&html, &VideoType::HD), Ok(String::new()));
}

#[test]
fn a_page_without_download_list_gives_the_empty_link() {
    let html = Html::parse_document("<html><body><a href=\"x\">HD</a></body></html>");
    assert_eq!(parse_video(&html, &VideoType::HD), Ok(String::new()));
    assert_eq!(read_anchors(&html), Some(Vec::new()));
}

#[test]
fn the_first_match_wins() {
    let html = page(
        "<li><a href=\"first\">HD small</a></li><li><a href=\"second\">HD large</a></li>",
    );
    assert_eq!(parse_video(&html, &VideoType::HD), Ok(String::from("first")));
}

#[test]
fn a_match_without_address_is_an_error() {
    let html = page("<li><a>HD Video</a></li><li><a href=\"later\">HD Video</a></li>");
    assert_eq!(parse_video(&html, &VideoType::HD), Err(LinkError::MissingHref));
}

#[test]
fn an_anchor_without_address_that_does_not_match_is_passed_over() {
    let html = page("<li><a>SD Video</a></li><li><a href=\"hd\">HD Video</a></li>");
    assert_eq!(parse_video(&html, &VideoType::HD), Ok(String::from("hd")));
}

#[test]
fn the_label_is_the_inner_markup() {
    let html = page("<li><a href=\"x\"><b>HD</b> Video</a></li>");
    assert_eq!(read_anchors(&html), Some(vec![anchor("<b>HD</b> Video", Some("x"))]));
    assert_eq!(parse_video(&html, &VideoType::HD), Ok(String::from("x")));
}

#[test]
fn anchors_come_in_document_order() {
    let html = page("<li><a href=\"1\">one</a></li><li><a>two</a></li><li><a href=\"3\">three</a></li>");
    assert_eq!(
        read_anchors(&html),
        Some(vec![anchor("one", Some("1")), anchor("two", None), anchor("three", Some("3"))])
    );
}

#[test]
fn the_marker_is_matched_by_case() {
    let html = page("<li><a href=\"x\">hd video</a></li>");
    assert_eq!(parse_video(&html, &VideoType::HD), Ok(String::new()));
}

#[test]
fn choose_link_reads_plain_anchors() {
    let anchors = vec![anchor("SD", Some("sd")), anchor("Video in HD", Some("hd")), anchor("HD", Some("no"))];
    assert_eq!(choose_link(&anchors, &VideoType::HD), Ok(String::from("hd")));
    assert_eq!(choose_link(&anchors, &VideoType::SD), Ok(String::from("sd")));
    assert_eq!(choose_link(&Vec::new(), &VideoType::HD), Ok(String::new()));
    assert_eq!(choose_link(&vec![anchor("HD", None)], &VideoType::HD), Err(LinkError::MissingHref));
    assert_eq!(choose_link(&vec![anchor("HD", None)], &VideoType::SD), Ok(String::new()));
}
