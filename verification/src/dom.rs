//! The parsed page, as the `scraper` crate holds it, and the few questions the
//! library asks of it. Nothing here is proved: each function hands its
//! question to `scraper`, and the spec functions without a body name the
//! answer. They say only that the answer depends on what was asked and on
//! nothing else.

use scraper::{ElementRef, Html, Selector};
use vstd::prelude::*;

verus! {

#[verifier::external_type_specification]
#[verifier::external_body]
pub struct ExHtml(Html);

#[verifier::external_type_specification]
#[verifier::external_body]
pub struct ExSelector(Selector);

#[verifier::external_type_specification]
#[verifier::external_body]
pub struct ExElementRef<'a>(ElementRef<'a>);

/// The selector group that `Selector::parse` reads from `css`, or `None` where
/// it reports a parse error.
pub uninterp spec fn selector_of(css: Seq<char>) -> Option<Selector>;

/// The elements that `Html::select` yields for a selector, in the order in
/// which it yields them.
pub uninterp spec fn document_matches(html: Html, selector: Selector) -> Seq<ElementRef<'static>>;

/// The elements that `ElementRef::select` yields for a selector, in the order
/// in which it yields them.
pub uninterp spec fn element_matches(element: ElementRef, selector: Selector) -> Seq<
    ElementRef<'static>,
>;

/// The first child of an element's node: `None` where the node has no child,
/// `Some(None)` where the first child is no element (`ElementRef::wrap` gives
/// `None` for it), else that child.
pub uninterp spec fn first_child_of(element: ElementRef) -> Option<Option<ElementRef<'static>>>;

/// The value that `Element::attr` gives for an attribute of the element, or
/// `None` where the element has no such attribute.
pub uninterp spec fn attribute_of(element: ElementRef, name: Seq<char>) -> Option<Seq<char>>;

/// The text that `ElementRef::inner_html` gives for the element. The crate
/// is built to keep the attributes of an element in the order of the page, so
/// the markup of the elements within comes out the same in every run.
pub uninterp spec fn inner_html_of(element: ElementRef) -> Seq<char>;

/// Calls `Selector::parse` and drops what the error says. The result is
/// `selector_of` of the text.
#[verifier::external_body]
pub(crate) fn parse_selector(css: &str) -> (parsed: Option<Selector>)
    ensures
        parsed == selector_of(css@),
{
    Selector::parse(css).ok()
}

/// Calls `Html::select` and collects what the iterator yields, in its order.
/// The result is `document_matches` of the document and the selector.
#[verifier::external_body]
pub(crate) fn select_in_document<'a>(html: &'a Html, selector: &Selector) -> (found: Vec<
    ElementRef<'a>,
>)
    ensures
        found@ == document_matches(*html, *selector),
{
    html.select(selector).collect()
}

/// Calls `ElementRef::select` and collects what the iterator yields, in its
/// order. The result is `element_matches` of the element and the selector.
#[verifier::external_body]
pub(crate) fn select_in_element<'a>(element: &ElementRef<'a>, selector: &Selector) -> (found: Vec<
    ElementRef<'a>,
>)
    ensures
        found@ == element_matches(*element, *selector),
{
    element.select(selector).collect()
}

/// Calls `first_child` on the element's node and hands the child, where there
/// is one, to `ElementRef::wrap`. The result is `first_child_of` of the
/// element.
#[verifier::external_body]
pub(crate) fn first_child<'a>(element: &ElementRef<'a>) -> (child: Option<Option<ElementRef<'a>>>)
    ensures
        child == first_child_of(*element),
{
    element.first_child().map(ElementRef::wrap)
}

/// Calls `Element::attr` on the element's value and copies the text it lends.
/// The result is `attribute_of` of the element and the name.
#[verifier::external_body]
pub(crate) fn attribute(element: &ElementRef, name: &str) -> (value: Option<String>)
    ensures
        value.is_some() == attribute_of(*element, name@).is_some(),
        value matches Some(text) ==> attribute_of(*element, name@) == Some(text@),
{
    element.value().attr(name).map(String::from)
}

/// Calls `ElementRef::inner_html`. The result is `inner_html_of` of the
/// element.
#[verifier::external_body]
pub(crate) fn inner_html(element: &ElementRef) -> (text: String)
    ensures
        text@ == inner_html_of(*element),
{
    element.inner_html()
}

} // verus!
