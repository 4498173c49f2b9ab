//! Queries on parsed pages through `scraper`, and the reduction of table rows
//! to the plain model that the row parsers read.

use scraper::{ElementRef, Html, Selector};
use vstd::prelude::*;
use vstd::string::*;

use crate::table::{rows_view, Row, RowView};
use crate::tree::{elements_view, rows_exec, rows_of, Element, ElementView};
use crate::text::{collapse_ws, collapse_ws_exec, one_line, one_line_exec, opt_view, trim, trimmed};

verus! {

#[verifier::external_type_specification]
#[verifier::external_body]
pub struct ExHtml(Html);

#[verifier::external_type_specification]
#[verifier::external_body]
pub struct ExSelector(Selector);

#[verifier::external_type_specification]
#[verifier::external_body]
pub struct ExElementRef<'a>(ElementRef<'a>);

/// Relies on `scraper::Selector::parse`; `None` where the selector is invalid.
#[verifier::external_body]
fn parse_selector(selectors: &str) -> Option<Selector> {
    Selector::parse(selectors).ok()
}

/// Relies on `scraper::Html::select`: the elements that match, in document order.
#[verifier::external_body]
fn select_in_document<'a>(doc: &'a Html, selector: &Selector) -> Vec<ElementRef<'a>> {
    doc.select(selector).collect()
}

/// Relies on `scraper::ElementRef::select`: the descendants that match, in
/// document order.
#[verifier::external_body]
fn select_in_element<'a>(element: &ElementRef<'a>, selector: &Selector) -> Vec<ElementRef<'a>> {
    element.select(selector).collect()
}

/// Relies on `scraper::ElementRef::attr`: the value of an attribute.
#[verifier::external_body]
fn element_attr(element: &ElementRef, name: &str) -> Option<String> {
    element.attr(name).map(|v| v.to_string())
}

/// A query that found nothing.
#[derive(Debug, Clone)]
pub enum SoupError {
    /// The selector is not valid CSS.
    InvalidSelector(String),
    /// Nothing matches the selector.
    NotFound(String),
    /// The element has no such attribute.
    MissingAttribute(String),
}

/// Element queries by CSS selector.
pub trait SoupFind<'a>: Sized {
    /// All matching elements, in document order; none for an invalid selector.
    fn find_all(self, selectors: &str) -> Vec<ElementRef<'a>>;

    /// The first matching element; where there is none, an error that
    /// names the selector.
    fn find(self, selectors: &str) -> (r: Result<ElementRef<'a>, SoupError>)
        ensures
            r matches Err(e) ==> match e {
                SoupError::InvalidSelector(s) => s@ == selectors@,
                SoupError::NotFound(s) => s@ == selectors@,
                SoupError::MissingAttribute(_) => false,
            },
    ;
}

impl<'a> SoupFind<'a> for &'a Html {
    fn find_all(self, selectors: &str) -> Vec<ElementRef<'a>> {
        match parse_selector(selectors) {
            Some(s) => select_in_document(self, &s),
            None => Vec::new(),
        }
    }

    fn find(self, selectors: &str) -> Result<ElementRef<'a>, SoupError> {
        let s = match parse_selector(selectors) {
            Some(s) => s,
            None => {
                return Err(SoupError::InvalidSelector(String::from_str(selectors)));
            },
        };
        let found = select_in_document(self, &s);
        if found.len() == 0 {
            Err(SoupError::NotFound(String::from_str(selectors)))
        } else {
            Ok(found[0])
        }
    }
}

impl<'a> SoupFind<'a> for ElementRef<'a> {
    fn find_all(self, selectors: &str) -> Vec<ElementRef<'a>> {
        match parse_selector(selectors) {
            Some(s) => select_in_element(&self, &s),
            None => Vec::new(),
        }
    }

    fn find(self, selectors: &str) -> Result<ElementRef<'a>, SoupError> {
        let s = match parse_selector(selectors) {
            Some(s) => s,
            None => {
                return Err(SoupError::InvalidSelector(String::from_str(selectors)));
            },
        };
        let found = select_in_element(&self, &s);
        if found.len() == 0 {
            Err(SoupError::NotFound(String::from_str(selectors)))
        } else {
            Ok(found[0])
        }
    }
}

/// An attribute that must be present.
pub trait TryAttr<'a> {
    /// The value of the attribute, or an error naming it.
    fn try_attr(&self, attr: &str) -> (r: Result<String, SoupError>)
        ensures
            r matches Err(e) ==> e matches SoupError::MissingAttribute(a) && a@ == attr@,
    ;
}

impl<'a> TryAttr<'a> for ElementRef<'a> {
    fn try_attr(&self, attr: &str) -> Result<String, SoupError> {
        match element_attr(self, attr) {
            Some(v) => Ok(v),
            None => Err(SoupError::MissingAttribute(String::from_str(attr))),
        }
    }
}

/// The status text of a page without the expected table: its alert text,
/// or a message naming the selector and the page, as one line.
pub open spec fn missing_table_status(alert: Option<Seq<char>>, selectors: Seq<char>, url: Seq<char>) -> Seq<char> {
    collapse_ws(
        one_line(
            match alert {
                Some(a) => a,
                None => "Unknown Hydra Error with '"@ + selectors + "' found at "@ + url,
            },
        ),
    )
}

/// The status text of a page without the expected table (see `missing_table_status`).
pub fn missing_table_status_exec(alert: Option<&str>, selectors: &str, url: &str) -> (r: String)
    ensures
        r@ == missing_table_status(
            match alert {
                Some(a) => Some(a@),
                None => None,
            },
            selectors@,
            url@,
        ),
{
    match alert {
        Some(a) => collapse_ws_exec(one_line_exec(a).as_str()),
        None => {
            let m = String::from_str("Unknown Hydra Error with '").concat(selectors).concat(
                "' found at ",
            ).concat(url);
            collapse_ws_exec(one_line_exec(m.as_str()).as_str())
        },
    }
}

/// The `index`-th element of a page that matches `selectors`, with its
/// descendant elements, in document order; none where there is no such
/// element or the selector is invalid.
pub uninterp spec fn page_elements(page: Seq<char>, selectors: Seq<char>, index: nat) -> Option<
    Seq<ElementView>,
>;

/// The rows (`tr`) inside the `index`-th element of a page that matches
/// `selectors`.
pub open spec fn page_rows(page: Seq<char>, selectors: Seq<char>, index: nat) -> Option<
    Seq<RowView>,
> {
    match page_elements(page, selectors, index) {
        Some(els) => Some(rows_of(els)),
        None => None,
    }
}

/// The text of the first element of a page that matches `selectors`.
pub uninterp spec fn page_text(page: Seq<char>, selectors: Seq<char>) -> Option<Seq<char>>;

/// The value of `attr` on the first element of a page that matches `selectors`.
pub uninterp spec fn page_attr(page: Seq<char>, selectors: Seq<char>, attr: Seq<char>) -> Option<
    Seq<char>,
>;

/// Relies on `scraper::Html::parse_document`, `scraper::Html::select` and
/// `scraper::ElementRef::descendent_elements`: the `index`-th match and its
/// descendant elements, each converted one for one (tag name, attributes,
/// text, markup, number of ancestors); they depend on the page text alone.
#[verifier::external_body]
fn element_list(page: &str, selectors: &str, index: usize) -> (r: Option<Vec<Element>>)
    ensures
        match r {
            Some(v) => page_elements(page@, selectors@, index as nat) == Some(elements_view(v@)),
            None => page_elements(page@, selectors@, index as nat) is None,
        },
{
    let doc = Html::parse_document(page);
    let root = doc.select(&Selector::parse(selectors).ok()?).nth(index)?;
    let convert = |e: ElementRef| Element {
        tag: e.value().name().to_string(),
        attrs: e.value().attrs().map(|(k, v)| (k.to_string(), v.to_string())).collect(),
        text: e.text().collect(),
        html: e.html(),
        depth: e.ancestors().count(),
    };
    Some(root.descendent_elements().map(convert).collect())
}

/// The rows (`tr`) inside the `index`-th element of a page that matches
/// `selectors` (see `page_rows`).
pub(crate) fn table_rows(page: &str, selectors: &str, index: usize) -> (r: Option<Vec<Row>>)
    ensures
        match r {
            Some(v) => page_rows(page@, selectors@, index as nat) == Some(rows_view(v@)),
            None => page_rows(page@, selectors@, index as nat) is None,
        },
{
    match element_list(page, selectors, index) {
        Some(els) => Some(rows_exec(&els)),
        None => None,
    }
}

/// Relies on `scraper::Html::parse_document`, `scraper::Html::select` and
/// `scraper::ElementRef::text`: the text of the first match, which depends on
/// the page text alone.
#[verifier::external_body]
fn first_text(page: &str, selectors: &str) -> (r: Option<String>)
    ensures
        opt_view(r) == page_text(page@, selectors@),
{
    let doc = Html::parse_document(page);
    let selector = Selector::parse(selectors).ok()?;
    doc.select(&selector).next().map(|e| e.text().collect())
}

/// Relies on `scraper::Html::parse_document`, `scraper::Html::select` and
/// `scraper::ElementRef::attr`: an attribute of the first match, which
/// depends on the page text alone.
#[verifier::external_body]
pub(crate) fn first_attr(page: &str, selectors: &str, attr: &str) -> (r: Option<String>)
    ensures
        opt_view(r) == page_attr(page@, selectors@, attr@),
{
    let doc = Html::parse_document(page);
    let selector = Selector::parse(selectors).ok()?;
    doc.select(&selector).next()?.attr(attr).map(String::from)
}

/// The rows of the table body under `selector` in a page (`selector tbody`).
pub open spec fn table_of(page: Seq<char>, selector: Seq<char>) -> Option<Seq<RowView>> {
    page_rows(page, trimmed(selector + " tbody"@), 0)
}

/// The status text of a page that lacks the table under `selector`.
pub open spec fn table_status(page: Seq<char>, selector: Seq<char>, url: Seq<char>) -> Seq<char> {
    missing_table_status(page_text(page, "div.alert"@), selector + " tbody"@, url)
}

/// The rows of the table body under `selector`, or, where the page has none,
/// its status text for a placeholder record.
pub fn find_tbody(page: &str, selector: &str, url: &str) -> (r: Result<Vec<Row>, String>)
    ensures
        match table_of(page@, selector@) {
            Some(rows) => r matches Ok(v) && rows_view(v@) == rows,
            None => r matches Err(s) && s@ == table_status(page@, selector@, url@),
        },
{
    let selectors = String::from_str(selector).concat(" tbody");
    let trimmed_selectors = trim(selectors.as_str());
    match table_rows(page, trimmed_selectors.as_str(), 0) {
        Some(rows) => Ok(rows),
        None => {
            let alert = first_text(page, "div.alert");
            let status = match &alert {
                Some(a) => missing_table_status_exec(Some(a.as_str()), selectors.as_str(), url),
                None => missing_table_status_exec(None, selectors.as_str(), url),
            };
            Err(status)
        },
    }
}

} // verus!
