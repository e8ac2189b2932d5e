//! Reading HTML pages, done by the `scraper` crate.
//!
//! Each function parses a page with `scraper::Html::parse_document`, compiles its CSS
//! selectors with `scraper::Selector::parse`, and hands out the texts of what the selectors
//! match. Nothing is claimed of these texts but that they are the ones named here.

use scraper::Element;
use vstd::prelude::*;
use crate::text::views;

verus! {

/// The text of a page: what `ElementRef::text` yields for its root element, joined.
pub uninterp spec fn html_text(html: Seq<char>) -> Seq<char>;

/// For every element of a page that `Html::select` matches under `rows`, in the order in
/// which `Html::select` yields them, the texts (`ElementRef::text`, joined) of the elements
/// below it that `ElementRef::select` matches under `cells`. Empty where a selector does
/// not parse.
pub uninterp spec fn html_rows(html: Seq<char>, rows: Seq<char>, cells: Seq<char>) -> Seq<
    Seq<Seq<char>>,
>;

/// For every element of a page that `Html::select` matches under `scope`, in the order in
/// which `Html::select` yields them, the rows and cells below it as [`html_rows`] gives
/// them for a page, but with the markup of each cell (`ElementRef::inner_html`) in place of
/// its text. Empty where a selector does not parse.
pub uninterp spec fn html_scope_rows(
    html: Seq<char>,
    scope: Seq<char>,
    rows: Seq<char>,
    cells: Seq<char>,
) -> Seq<Seq<Seq<Seq<char>>>>;

/// For every element of a page that matches `heading`, in the order in which
/// `Html::select` yields them: its text, and, where an element follows it as its next
/// sibling (`Element::next_sibling_element`), the rows and cells of that sibling as
/// [`html_rows`] gives them for a page.
pub uninterp spec fn html_section_rows(
    html: Seq<char>,
    heading: Seq<char>,
    rows: Seq<char>,
    cells: Seq<char>,
) -> Seq<(Seq<char>, Option<Seq<Seq<Seq<char>>>>)>;

/// For every element of a page that matches `heading`, in the order in which
/// `Html::select` yields them: its text, and, where an element follows it as its next
/// sibling, the texts of the elements below that sibling that match `items`.
pub uninterp spec fn html_section_items(html: Seq<char>, heading: Seq<char>, items: Seq<char>)
    -> Seq<(Seq<char>, Option<Seq<Seq<char>>>)>;

/// The views of the rows of a table.
pub open spec fn table_view(table: Seq<Vec<String>>) -> Seq<Seq<Seq<char>>> {
    table.map_values(|row: Vec<String>| views(row@))
}

/// The views of several tables.
pub open spec fn tables_view(tables: Seq<Vec<Vec<String>>>) -> Seq<Seq<Seq<Seq<char>>>> {
    tables.map_values(|t: Vec<Vec<String>>| table_view(t@))
}

/// The views of optional rows.
pub open spec fn opt_table_view(table: Option<Vec<Vec<String>>>) -> Option<Seq<Seq<Seq<char>>>> {
    match table {
        Some(t) => Some(table_view(t@)),
        None => None,
    }
}

/// The views of optional items.
pub open spec fn opt_items_view(items: Option<Vec<String>>) -> Option<Seq<Seq<char>>> {
    match items {
        Some(i) => Some(views(i@)),
        None => None,
    }
}

/// The views of sections with rows.
pub open spec fn section_rows_view(sections: Seq<(String, Option<Vec<Vec<String>>>)>) -> Seq<
    (Seq<char>, Option<Seq<Seq<Seq<char>>>>),
> {
    sections.map_values(|s: (String, Option<Vec<Vec<String>>>)| (s.0@, opt_table_view(s.1)))
}

/// The views of sections with items.
pub open spec fn section_items_view(sections: Seq<(String, Option<Vec<String>>)>) -> Seq<
    (Seq<char>, Option<Seq<Seq<char>>>),
> {
    sections.map_values(|s: (String, Option<Vec<String>>)| (s.0@, opt_items_view(s.1)))
}

/// Calls `Html::parse_document` and joins what `ElementRef::text` yields for the root.
#[verifier::external_body]
pub(crate) fn page_text(html: &str) -> (text: String)
    ensures
        text@ == html_text(html@),
{
    scraper::Html::parse_document(html).root_element().text().collect::<String>()
}

/// Calls `Html::select` for the rows and `ElementRef::select` for the cells of each.
#[verifier::external_body]
pub(crate) fn select_rows(html: &str, rows: &str, cells: &str) -> (table: Vec<Vec<String>>)
    ensures
        table_view(table@) == html_rows(html@, rows@, cells@),
{
    let (Ok(rows), Ok(cells)) = (scraper::Selector::parse(rows), scraper::Selector::parse(cells))
    else {
        return Vec::new();
    };
    let page = scraper::Html::parse_document(html);
    page.select(&rows).map(|r| r.select(&cells).map(|c| c.text().collect()).collect()).collect()
}

/// Calls `Html::select` for the scope and, for each match, `ElementRef::select` for the
/// rows below it and the cells of each, whose markup `ElementRef::inner_html` gives.
#[verifier::external_body]
pub(crate) fn select_scope_rows(html: &str, scope: &str, rows: &str, cells: &str) -> (tables: Vec<
    Vec<Vec<String>>,
>)
    ensures
        tables_view(tables@) == html_scope_rows(html@, scope@, rows@, cells@),
{
    let (Ok(scope), Ok(rows), Ok(cells)) = (
        scraper::Selector::parse(scope),
        scraper::Selector::parse(rows),
        scraper::Selector::parse(cells),
    ) else {
        return Vec::new();
    };
    let page = scraper::Html::parse_document(html);
    page.select(&scope).map(|t|
        t.select(&rows).map(|r| r.select(&cells).map(|c| c.inner_html()).collect()).collect()).collect()
}

/// Calls `Html::select` for the headings, `Element::next_sibling_element` on each, and
/// `ElementRef::select` for the rows below the sibling and the cells of each.
#[verifier::external_body]
pub(crate) fn select_section_rows(html: &str, heading: &str, rows: &str, cells: &str) -> (sections:
    Vec<(String, Option<Vec<Vec<String>>>)>)
    ensures
        section_rows_view(sections@) == html_section_rows(html@, heading@, rows@, cells@),
{
    let (Ok(heading), Ok(rows), Ok(cells)) = (
        scraper::Selector::parse(heading),
        scraper::Selector::parse(rows),
        scraper::Selector::parse(cells),
    ) else {
        return Vec::new();
    };
    let page = scraper::Html::parse_document(html);
    page.select(&heading).map(|h| (h.text().collect(), h.next_sibling_element().map(|t|
        t.select(&rows).map(|r| r.select(&cells).map(|c| c.text().collect()).collect()).collect()))).collect()
}

/// Calls `Html::select` for the headings, `Element::next_sibling_element` on each, and
/// `ElementRef::select` for the items below the sibling.
#[verifier::external_body]
pub(crate) fn select_section_items(html: &str, heading: &str, items: &str) -> (sections: Vec<
    (String, Option<Vec<String>>),
>)
    ensures
        section_items_view(sections@) == html_section_items(html@, heading@, items@),
{
    let (Ok(heading), Ok(items)) = (
        scraper::Selector::parse(heading),
        scraper::Selector::parse(items),
    ) else {
        return Vec::new();
    };
    let page = scraper::Html::parse_document(html);
    page.select(&heading).map(|h| (h.text().collect(), h.next_sibling_element().map(|u|
        u.select(&items).map(|i| i.text().collect()).collect()))).collect()
}

} // verus!
