//! Markup, by way of the `scraper` and `voca_rs` crates.
//!
//! A document is handed over as text and what a selector matches comes back
//! as text. How markup is parsed and what a selector matches is the crates'
//! business: the library names their answers and reasons about what it does
//! with them.
//!
//! `scraper` is built with its feature `deterministic`, which keeps the
//! attributes of an element in the order in which they were written.
//! Without it that order changes from one process to the next, and the
//! markup of an element would be no function of the document.

use crate::error::AppError;
use vstd::prelude::*;

verus! {

/// An element that a selector matched.
#[derive(Debug, PartialEq, Eq)]
pub struct Element {
    /// The element's markup, its own tag included.
    pub html: String,
    /// The markup inside the element.
    pub inner_html: String,
    /// The value of the attribute that was asked for, where the element has
    /// it.
    pub attribute: Option<String>,
}

/// The mathematical value of an `Element`.
pub struct ElementView {
    pub html: Seq<char>,
    pub inner_html: Seq<char>,
    pub attribute: Option<Seq<char>>,
}

impl View for Element {
    type V = ElementView;

    open spec fn view(&self) -> ElementView {
        ElementView {
            html: self.html@,
            inner_html: self.inner_html@,
            attribute: self.attribute.deep_view(),
        }
    }
}

impl DeepView for Element {
    type V = ElementView;

    open spec fn deep_view(&self) -> ElementView {
        self@
    }
}

/// Longest markup, in characters, that is handed to `voca_rs` for stripping.
pub const MAX_STRIPPED_LEN: usize = 0x7fff_ffff;

/// `scraper::Selector::parse` accepts the selector.
pub uninterp spec fn selector_is_valid(selector: Seq<char>) -> bool;

/// The elements of `document`, parsed as a whole document, that `selector`
/// matches, in the order in which `scraper::Html::select` yields them, each
/// with its value of `attribute`.
pub uninterp spec fn document_matches(
    document: Seq<char>,
    selector: Seq<char>,
    attribute: Seq<char>,
) -> Seq<ElementView>;

/// The elements of `fragment`, parsed as a fragment of a document, that
/// `selector` matches, in the order in which `scraper::Html::select` yields
/// them, each with its value of `attribute`.
pub uninterp spec fn fragment_matches(
    fragment: Seq<char>,
    selector: Seq<char>,
    attribute: Seq<char>,
) -> Seq<ElementView>;

/// For each element of `document` that `outer` matches, in the order in
/// which `scraper::Html::select` yields them, its descendants that `inner`
/// matches, in the order in which `scraper::ElementRef::select` yields them,
/// each with its value of `attribute`.
pub uninterp spec fn nested_matches(
    document: Seq<char>,
    outer: Seq<char>,
    inner: Seq<char>,
    attribute: Seq<char>,
) -> Seq<Seq<ElementView>>;

/// `markup` with its tags removed, as `voca_rs::strip::strip_tags` removes
/// them.
pub uninterp spec fn without_tags(markup: Seq<char>) -> Seq<char>;

/// `scraper::Selector::parse`: the error it reports for the selector, if
/// any.
#[verifier::external_body]
fn selector_error(selector: &'static str) -> (r: Option<scraper::error::SelectorErrorKind<'static>>)
    ensures
        r is None <==> selector_is_valid(selector@),
{
    scraper::Selector::parse(selector).err()
}

/// `scraper::Html::parse_document` and `Html::select`, with the selector that
/// `Selector::parse` makes of the text; each element that comes out is
/// written down by `ElementRef::html`, `ElementRef::inner_html` and
/// `Element::attr`. The result is the named one.
#[verifier::external_body]
fn select_in_document(document: &str, selector: &str, attribute: &str) -> (r: Vec<Element>)
    requires
        selector_is_valid(selector@),
    ensures
        r.deep_view() == document_matches(document@, selector@, attribute@),
{
    let selector = scraper::Selector::parse(selector).unwrap();
    scraper::Html::parse_document(document).select(&selector).map(
        |e| Element {
            html: e.html(),
            inner_html: e.inner_html(),
            attribute: e.value().attr(attribute).map(|v| v.to_string()),
        },
    ).collect()
}

/// `scraper::Html::parse_fragment` and `Html::select`, with the selector that
/// `Selector::parse` makes of the text; each element that comes out is
/// written down by `ElementRef::html`, `ElementRef::inner_html` and
/// `Element::attr`. The result is the named one.
#[verifier::external_body]
fn select_in_fragment(fragment: &str, selector: &str, attribute: &str) -> (r: Vec<Element>)
    requires
        selector_is_valid(selector@),
    ensures
        r.deep_view() == fragment_matches(fragment@, selector@, attribute@),
{
    let selector = scraper::Selector::parse(selector).unwrap();
    scraper::Html::parse_fragment(fragment).select(&selector).map(
        |e| Element {
            html: e.html(),
            inner_html: e.inner_html(),
            attribute: e.value().attr(attribute).map(|v| v.to_string()),
        },
    ).collect()
}

/// `scraper::Html::parse_document` and `Html::select` with `outer`, then
/// `ElementRef::select` with `inner` on each element that came out, the
/// selectors being what `Selector::parse` makes of the texts; each inner
/// element is written down by `ElementRef::html`, `ElementRef::inner_html`
/// and `Element::attr`. The result is the named one.
#[verifier::external_body]
fn select_nested(document: &str, outer: &str, inner: &str, attribute: &str) -> (r: Vec<
    Vec<Element>,
>)
    requires
        selector_is_valid(outer@),
        selector_is_valid(inner@),
    ensures
        r.deep_view() == nested_matches(document@, outer@, inner@, attribute@),
{
    let outer = scraper::Selector::parse(outer).unwrap();
    let inner = scraper::Selector::parse(inner).unwrap();
    scraper::Html::parse_document(document).select(&outer).map(
        |o| o.select(&inner).map(
            |e| Element {
                html: e.html(),
                inner_html: e.inner_html(),
                attribute: e.value().attr(attribute).map(|v| v.to_string()),
            },
        ).collect(),
    ).collect()
}

/// `voca_rs::strip::strip_tags`. The result is the named one. Markup of
/// `MAX_STRIPPED_LEN` characters or more is kept away from it: it counts
/// nested brackets in a 32-bit number.
#[verifier::external_body]
fn strip_tags(markup: &str) -> (r: String)
    requires
        markup@.len() < MAX_STRIPPED_LEN,
    ensures
        r@ == without_tags(markup@),
{
    voca_rs::strip::strip_tags(markup)
}

/// Checks that the selector is one that `scraper` accepts.
pub fn check_selector(selector: &'static str) -> (r: Result<(), AppError>)
    ensures
        r is Ok <==> selector_is_valid(selector@),
        r matches Err(e) ==> e is ScrapeError,
{
    match selector_error(selector) {
        Some(e) => Err(AppError::ScrapeError(e)),
        None => Ok(()),
    }
}

/// The elements of a document that the selector matches.
pub fn select(document: &str, selector: &'static str, attribute: &str) -> (r: Result<
    Vec<Element>,
    AppError,
>)
    ensures
        r is Ok <==> selector_is_valid(selector@),
        r matches Ok(found) ==> found.deep_view() == document_matches(
            document@,
            selector@,
            attribute@,
        ),
        r matches Err(e) ==> e is ScrapeError,
{
    match check_selector(selector) {
        Err(e) => Err(e),
        Ok(_) => Ok(select_in_document(document, selector, attribute)),
    }
}

/// The elements of a fragment that the selector matches.
pub fn select_fragment(fragment: &str, selector: &'static str, attribute: &str) -> (r: Result<
    Vec<Element>,
    AppError,
>)
    ensures
        r is Ok <==> selector_is_valid(selector@),
        r matches Ok(found) ==> found.deep_view() == fragment_matches(
            fragment@,
            selector@,
            attribute@,
        ),
        r matches Err(e) ==> e is ScrapeError,
{
    match check_selector(selector) {
        Err(e) => Err(e),
        Ok(_) => Ok(select_in_fragment(fragment, selector, attribute)),
    }
}

/// For each element of a document that `outer` matches, its descendants
/// that `inner` matches.
pub fn select_within(
    document: &str,
    outer: &'static str,
    inner: &'static str,
    attribute: &str,
) -> (r: Result<Vec<Vec<Element>>, AppError>)
    ensures
        r is Ok <==> selector_is_valid(outer@) && selector_is_valid(inner@),
        r matches Ok(found) ==> found.deep_view() == nested_matches(
            document@,
            outer@,
            inner@,
            attribute@,
        ),
        r matches Err(e) ==> e is ScrapeError,
{
    match check_selector(outer) {
        Err(e) => Err(e),
        Ok(_) => match check_selector(inner) {
            Err(e) => Err(e),
            Ok(_) => Ok(select_nested(document, outer, inner, attribute)),
        },
    }
}

/// Markup without its tags, or `None` for markup of `MAX_STRIPPED_LEN`
/// characters or more.
pub fn text_without_tags(markup: &str) -> (r: Option<String>)
    ensures
        r.deep_view() == if markup@.len() < MAX_STRIPPED_LEN {
            Some(without_tags(markup@))
        } else {
            None
        },
{
    if markup.unicode_len() < MAX_STRIPPED_LEN {
        Some(strip_tags(markup))
    } else {
        None
    }
}

} // verus!
