//! The element tree of a page, as `scraper` builds it. An element is named
//! by its position among the page's elements in document order: 0 is the
//! root `html` element. Each query parses the page again with
//! `scraper::Html::parse_document`, which builds the same tree from the same
//! text, so a position found by one query names the same element in the next.

use scraper::{ElementRef, Html, Selector};
use vstd::prelude::*;

verus! {

/// The elements below `scope` that `selector` matches, in document order,
/// as `scraper::ElementRef::select` finds them; none when the selector does
/// not parse or the page has no element `scope`.
pub uninterp spec fn selected(html: Seq<char>, scope: usize, selector: Seq<char>) -> Option<Seq<usize>>;

/// The text of element `e` (its text nodes joined, as `ElementRef::text`
/// gives them); none when the page has no element `e`.
pub uninterp spec fn element_text(html: Seq<char>, e: usize) -> Option<Seq<char>>;

/// The attribute `name` of element `e` (`ElementRef::attr`); the outer none
/// when the page has no element `e`.
pub uninterp spec fn element_attr(html: Seq<char>, e: usize, name: Seq<char>) -> Option<Option<Seq<char>>>;

/// The elements that follow `e` among its siblings, nearest first; none when
/// the page has no element `e`.
pub uninterp spec fn following_elements(html: Seq<char>, e: usize) -> Option<Seq<usize>>;

/// The elements that precede `e` among its siblings, nearest first; none
/// when the page has no element `e`.
pub uninterp spec fn preceding_elements(html: Seq<char>, e: usize) -> Option<Seq<usize>>;

/// The text of the first child of `e` that is a text node, if any; the outer
/// none when the page has no element `e`.
pub uninterp spec fn first_text_child(html: Seq<char>, e: usize) -> Option<Option<Seq<char>>>;

/// The class names of element `e`, as `Element::classes` lists them; none
/// when the page has no element `e`.
pub uninterp spec fn element_classes(html: Seq<char>, e: usize) -> Option<Seq<Seq<char>>>;

/// The parent of `e` when that is an element; the outer none when the page
/// has no element `e`.
pub uninterp spec fn parent_element(html: Seq<char>, e: usize) -> Option<Option<usize>>;

/// Whether `selector` matches element `e` (`Selector::matches`); none when
/// the selector does not parse or the page has no element `e`.
pub uninterp spec fn element_matches(html: Seq<char>, e: usize, selector: Seq<char>) -> Option<bool>;

/// Runs `ElementRef::select` with `selector` under element `scope` of the
/// page and gives back the positions of the matches. The result is named,
/// not stated: HTML parsing and selector matching are not restated here.
#[verifier::external_body]
pub(crate) fn select(html: &str, scope: usize, selector: &str) -> (r: Option<Vec<usize>>)
    ensures
        r.deep_view() == selected(html@, scope, selector@),
{
    let doc = Html::parse_document(html);
    let all: Vec<ElementRef> = doc.root_element().descendants().filter_map(ElementRef::wrap).collect();
    let selector = Selector::parse(selector).ok()?;
    let found = all.get(scope)?.select(&selector);
    Some(found.map(|e| all.iter().position(|a| a.id() == e.id()).unwrap_or(0)).collect())
}

/// The text of an element (`ElementRef::text`, joined).
#[verifier::external_body]
pub(crate) fn text(html: &str, e: usize) -> (r: Option<String>)
    ensures
        r.deep_view() == element_text(html@, e),
{
    let doc = Html::parse_document(html);
    let all: Vec<ElementRef> = doc.root_element().descendants().filter_map(ElementRef::wrap).collect();
    Some(all.get(e)?.text().collect())
}

/// An attribute of an element (`ElementRef::attr`).
#[verifier::external_body]
pub(crate) fn attr(html: &str, e: usize, name: &str) -> (r: Option<Option<String>>)
    ensures
        r.deep_view() == element_attr(html@, e, name@),
{
    let doc = Html::parse_document(html);
    let all: Vec<ElementRef> = doc.root_element().descendants().filter_map(ElementRef::wrap).collect();
    Some(all.get(e)?.attr(name).map(str::to_owned))
}

/// The elements among the next siblings of an element (`next_siblings`).
#[verifier::external_body]
pub(crate) fn following(html: &str, e: usize) -> (r: Option<Vec<usize>>)
    ensures
        r.deep_view() == following_elements(html@, e),
{
    let doc = Html::parse_document(html);
    let all: Vec<ElementRef> = doc.root_element().descendants().filter_map(ElementRef::wrap).collect();
    let next = all.get(e)?.next_siblings().filter_map(ElementRef::wrap);
    Some(next.map(|n| all.iter().position(|a| a.id() == n.id()).unwrap_or(0)).collect())
}

/// The elements among the previous siblings of an element (`prev_siblings`).
#[verifier::external_body]
pub(crate) fn preceding(html: &str, e: usize) -> (r: Option<Vec<usize>>)
    ensures
        r.deep_view() == preceding_elements(html@, e),
{
    let doc = Html::parse_document(html);
    let all: Vec<ElementRef> = doc.root_element().descendants().filter_map(ElementRef::wrap).collect();
    let prev = all.get(e)?.prev_siblings().filter_map(ElementRef::wrap);
    Some(prev.map(|p| all.iter().position(|a| a.id() == p.id()).unwrap_or(0)).collect())
}

/// The first child of an element that is a text node (`children`).
#[verifier::external_body]
pub(crate) fn text_child(html: &str, e: usize) -> (r: Option<Option<String>>)
    ensures
        r.deep_view() == first_text_child(html@, e),
{
    let doc = Html::parse_document(html);
    let all: Vec<ElementRef> = doc.root_element().descendants().filter_map(ElementRef::wrap).collect();
    Some(all.get(e)?.children().find_map(|c| c.value().as_text().map(|t| t.to_string())))
}

/// The class names of an element (`Element::classes`).
#[verifier::external_body]
pub(crate) fn classes(html: &str, e: usize) -> (r: Option<Vec<String>>)
    ensures
        r.deep_view() == element_classes(html@, e),
{
    let doc = Html::parse_document(html);
    let all: Vec<ElementRef> = doc.root_element().descendants().filter_map(ElementRef::wrap).collect();
    Some(all.get(e)?.value().classes().map(str::to_owned).collect())
}

/// The parent of an element, when it is an element (`parent`).
#[verifier::external_body]
pub(crate) fn parent(html: &str, e: usize) -> (r: Option<Option<usize>>)
    ensures
        r == parent_element(html@, e),
{
    let doc = Html::parse_document(html);
    let all: Vec<ElementRef> = doc.root_element().descendants().filter_map(ElementRef::wrap).collect();
    let up = all.get(e)?.parent().and_then(ElementRef::wrap);
    Some(up.map(|p| all.iter().position(|a| a.id() == p.id()).unwrap_or(0)))
}

/// Whether a selector matches an element (`Selector::matches`).
#[verifier::external_body]
pub(crate) fn matches_selector(html: &str, e: usize, selector: &str) -> (r: Option<bool>)
    ensures
        r == element_matches(html@, e, selector@),
{
    let doc = Html::parse_document(html);
    let all: Vec<ElementRef> = doc.root_element().descendants().filter_map(ElementRef::wrap).collect();
    let selector = Selector::parse(selector).ok()?;
    Some(selector.matches(all.get(e)?))
}

/// The first element below `scope` that `selector` matches: the outer none
/// when the query fails.
pub open spec fn first_match(html: Seq<char>, scope: usize, selector: Seq<char>) -> Option<Option<usize>> {
    match selected(html, scope, selector) {
        None => None,
        Some(s) => Some(if s.len() > 0 { Some(s[0]) } else { None }),
    }
}

/// The text of the first element below `scope` that `selector` matches;
/// the inner none when there is no such element.
pub open spec fn first_text(html: Seq<char>, scope: usize, selector: Seq<char>) -> Option<Option<Seq<char>>> {
    match first_match(html, scope, selector) {
        None => None,
        Some(None) => Some(None),
        Some(Some(e)) => match element_text(html, e) {
            None => None,
            Some(t) => Some(Some(t)),
        },
    }
}

/// The attribute `name` of the first element below `scope` that `selector`
/// matches; the middle none when there is no such element.
pub open spec fn first_attr(html: Seq<char>, scope: usize, selector: Seq<char>, name: Seq<char>) -> Option<
    Option<Option<Seq<char>>>,
> {
    match first_match(html, scope, selector) {
        None => None,
        Some(None) => Some(None),
        Some(Some(e)) => match element_attr(html, e, name) {
            None => None,
            Some(a) => Some(Some(a)),
        },
    }
}

/// The first element below `scope` that `selector` matches.
pub fn first(html: &str, scope: usize, selector: &str) -> (r: Option<Option<usize>>)
    ensures
        r == first_match(html@, scope, selector@),
{
    match select(html, scope, selector) {
        None => None,
        Some(v) => if v.len() > 0 {
            Some(Some(v[0]))
        } else {
            Some(None)
        },
    }
}

/// The text of the first element below `scope` that `selector` matches.
pub fn first_text_of(html: &str, scope: usize, selector: &str) -> (r: Option<Option<String>>)
    ensures
        r.deep_view() == first_text(html@, scope, selector@),
{
    match first(html, scope, selector) {
        None => None,
        Some(None) => Some(None),
        Some(Some(e)) => match text(html, e) {
            None => None,
            Some(t) => Some(Some(t)),
        },
    }
}

/// An attribute of the first element below `scope` that `selector` matches.
pub fn first_attr_of(html: &str, scope: usize, selector: &str, name: &str) -> (r: Option<Option<Option<String>>>)
    ensures
        r.deep_view() == first_attr(html@, scope, selector@, name@),
{
    match first(html, scope, selector) {
        None => None,
        Some(None) => Some(None),
        Some(Some(e)) => match attr(html, e, name) {
            None => None,
            Some(a) => Some(Some(a)),
        },
    }
}

} // verus!
