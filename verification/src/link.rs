//! The download link of a page: the address behind the first anchor of the
//! download list whose label names the wanted quality.

use crate::dom::{
    attribute, attribute_of, document_matches, inner_html, inner_html_of, parse_selector,
    select_in_document, selector_of,
};
use crate::text::{contains, has_infix};
use scraper::{ElementRef, Html};
use vstd::prelude::*;

verus! {

/// The quality of video that a run asks for.
#[derive(Clone, Copy, Debug, PartialEq, Eq, Structural)]
pub enum VideoType {
    HD,
    SD,
}

impl VideoType {
    /// The text by which an anchor's label names this quality.
    pub open spec fn marker(self) -> Seq<char> {
        match self {
            VideoType::HD => "HD"@,
            VideoType::SD => "SD"@,
        }
    }

    /// The text by which an anchor's label names this quality.
    pub fn label_marker(&self) -> (marker: &'static str)
        ensures
            marker@ == self.marker(),
    {
        match self {
            VideoType::HD => "HD",
            VideoType::SD => "SD",
        }
    }
}

/// What the resolver reads of an anchor: its label, which is the markup
/// between its tags, and the address it points to, if it has one.
#[derive(Debug, PartialEq, Eq)]
pub struct Anchor {
    pub label: String,
    pub href: Option<String>,
}

/// An anchor as a mathematical value: the view of an `Anchor`.
pub struct AnchorView {
    pub label: Seq<char>,
    pub href: Option<Seq<char>>,
}

impl View for Anchor {
    type V = AnchorView;

    open spec fn view(&self) -> AnchorView {
        AnchorView {
            label: self.label@,
            href: match self.href {
                Some(address) => Some(address@),
                None => None,
            },
        }
    }
}

/// Why a page gave no answer on its download link.
#[derive(Clone, Copy, Debug, PartialEq, Eq, Structural)]
pub enum LinkError {
    /// The selector of the download list's anchors was not accepted.
    Selector,
    /// The first anchor that names the wanted quality points nowhere.
    MissingHref,
}

/// The views of a run of anchors.
pub open spec fn anchor_views(anchors: Seq<Anchor>) -> Seq<AnchorView> {
    anchors.map_values(|anchor: Anchor| anchor@)
}

/// The link that a run of anchors offers for a marker: the address of the
/// first anchor whose label holds the marker. Later anchors are not looked at,
/// whatever they hold. Where no label holds the marker the link is empty.
pub open spec fn chosen_link(anchors: Seq<AnchorView>, marker: Seq<char>) -> Result<
    Seq<char>,
    LinkError,
>
    decreases anchors.len(),
{
    if anchors.len() == 0 {
        Ok(Seq::empty())
    } else if has_infix(anchors[0].label, marker) {
        match anchors[0].href {
            Some(address) => Ok(address),
            None => Err(LinkError::MissingHref),
        }
    } else {
        chosen_link(anchors.drop_first(), marker)
    }
}

/// The view of a link or of the reason why there is none.
pub open spec fn link_view(link: Result<String, LinkError>) -> Result<Seq<char>, LinkError> {
    match link {
        Ok(address) => Ok(address@),
        Err(e) => Err(e),
    }
}

/// The first anchor wins: where anchor `i` is the first whose label holds the
/// marker, the link is that anchor's address, and it is an error for that
/// anchor to have none.
pub proof fn lemma_first_match_wins(anchors: Seq<AnchorView>, marker: Seq<char>, i: int)
    requires
        0 <= i < anchors.len(),
        has_infix(anchors[i].label, marker),
        forall|j: int| 0 <= j < i ==> !has_infix(#[trigger] anchors[j].label, marker),
    ensures
        chosen_link(anchors, marker) == match anchors[i].href {
            Some(address) => Ok::<Seq<char>, LinkError>(address),
            None => Err::<Seq<char>, LinkError>(LinkError::MissingHref),
        },
    decreases anchors.len(),
{
    if i > 0 {
        let rest = anchors.drop_first();
        assert forall|j: int| 0 <= j < i - 1 implies !has_infix(
            #[trigger] rest[j].label,
            marker,
        ) by {
            assert(rest[j] == anchors[j + 1]);
        }
        lemma_first_match_wins(rest, marker, i - 1);
    }
}

/// Where no label holds the marker, the link is empty and no error is raised.
pub proof fn lemma_no_match_is_empty(anchors: Seq<AnchorView>, marker: Seq<char>)
    requires
        forall|j: int| 0 <= j < anchors.len() ==> !has_infix(#[trigger] anchors[j].label, marker),
    ensures
        chosen_link(anchors, marker) == Ok::<Seq<char>, LinkError>(Seq::empty()),
    decreases anchors.len(),
{
    if anchors.len() > 0 {
        let rest = anchors.drop_first();
        assert forall|j: int| 0 <= j < rest.len() implies !has_infix(
            #[trigger] rest[j].label,
            marker,
        ) by {
            assert(rest[j] == anchors[j + 1]);
        }
        lemma_no_match_is_empty(rest, marker);
    }
}

/// The link that `anchors`, taken in their order, offer for the wanted
/// quality.
pub fn choose_link(anchors: &Vec<Anchor>, video_type: &VideoType) -> (link: Result<String, LinkError>)
    ensures
        link_view(link) == chosen_link(anchor_views(anchors@), video_type.marker()),
{
    let marker = video_type.label_marker();
    let ghost all = anchor_views(anchors@);
    let mut i: usize = 0;
    assert(all.skip(0) =~= all);
    while i < anchors.len()
        invariant
            i <= anchors.len(),
            all == anchor_views(anchors@),
            marker@ == video_type.marker(),
            chosen_link(all, marker@) == chosen_link(all.skip(i as int), marker@),
        decreases anchors.len() - i,
    {
        let ghost rest = all.skip(i as int);
        assert(rest[0] == anchors@[i as int]@);
        assert(rest.drop_first() =~= all.skip(i + 1));
        if contains(anchors[i].label.as_str(), marker) {
            return match &anchors[i].href {
                Some(address) => Ok(address.clone()),
                None => Err(LinkError::MissingHref),
            };
        }
        i += 1;
    }
    Ok(String::new())
}

/// The selector of the anchors of a page's download list.
pub open spec fn link_selector() -> Seq<char> {
    "li.download ul li a"@
}

/// What the resolver reads of one element: its inner markup as the label, its
/// `href` attribute as the address.
pub open spec fn anchor_of(element: ElementRef) -> AnchorView {
    AnchorView { label: inner_html_of(element), href: attribute_of(element, "href"@) }
}

/// The anchors of the download list of a page, in the order in which the
/// document yields them, or `None` where the selector is not accepted.
pub open spec fn download_anchors(html: Html) -> Option<Seq<AnchorView>> {
    match selector_of(link_selector()) {
        None => None,
        Some(selector) => Some(
            document_matches(html, selector).map_values(|element: ElementRef| anchor_of(element)),
        ),
    }
}

/// The download link of a page for a quality.
pub open spec fn resolved_link(html: Html, video_type: VideoType) -> Result<Seq<char>, LinkError> {
    match download_anchors(html) {
        None => Err(LinkError::Selector),
        Some(anchors) => chosen_link(anchors, video_type.marker()),
    }
}

/// The anchors of the download list of a page.
pub fn read_anchors(html: &Html) -> (anchors: Option<Vec<Anchor>>)
    ensures
        match anchors {
            Some(found) => download_anchors(*html) == Some(anchor_views(found@)),
            None => download_anchors(*html) is None,
        },
{
    let selector = match parse_selector("li.download ul li a") {
        Some(selector) => selector,
        None => {
            return None;
        },
    };
    let elements = select_in_document(html, &selector);
    let ghost wanted = document_matches(*html, selector).map_values(
        |element: ElementRef| anchor_of(element),
    );
    let mut anchors: Vec<Anchor> = Vec::new();
    let mut i: usize = 0;
    while i < elements.len()
        invariant
            i <= elements.len(),
            elements@ == document_matches(*html, selector),
            wanted == document_matches(*html, selector).map_values(
                |element: ElementRef| anchor_of(element),
            ),
            anchors.len() == i,
            forall|j: int| 0 <= j < i ==> (#[trigger] anchors@[j])@ == wanted[j],
        decreases elements.len() - i,
    {
        let label = inner_html(&elements[i]);
        let href = attribute(&elements[i], "href");
        anchors.push(Anchor { label, href });
        i += 1;
    }
    assert(anchor_views(anchors@) =~= wanted);
    Some(anchors)
}

/// The download link of a page for a quality: the `href` of the first anchor
/// of the download list whose inner markup holds the quality's marker. A page
/// that offers no such anchor gives the empty link, not an error.
pub fn parse_video(html: &Html, video_type: &VideoType) -> (link: Result<String, LinkError>)
    ensures
        link_view(link) == resolved_link(*html, *video_type),
{
    match read_anchors(html) {
        None => Err(LinkError::Selector),
        Some(anchors) => choose_link(&anchors, video_type),
    }
}

} // verus!
