use vstd::prelude::*;

use crate::text::concat_all;

verus! {

/// Whether scraper's `Selector::parse` accepts the selector.
pub uninterp spec fn selector_ok(selector: Seq<char>) -> bool;

/// How many elements scraper's `Html::select` yields for the selector on the
/// document parsed from `html`.
pub uninterp spec fn match_count(html: Seq<char>, selector: Seq<char>) -> nat;

/// For each element that the selector matches, in the order scraper's `select` yields them, what
/// scraper's `Element::attr` gives for `attr`.
pub uninterp spec fn attr_values(html: Seq<char>, selector: Seq<char>, attr: Seq<char>) -> Seq<
    Option<Seq<char>>,
>;

/// For each element that the selector matches, in the order scraper's `select` yields them, the text
/// nodes under it as scraper's `ElementRef::text` yields them.
pub uninterp spec fn text_runs(html: Seq<char>, selector: Seq<char>) -> Seq<Seq<Seq<char>>>;

pub open spec fn opt_view(o: Option<String>) -> Option<Seq<char>> {
    match o {
        Some(s) => Some(s@),
        None => None,
    }
}

pub open spec fn opts_view(v: Seq<Option<String>>) -> Seq<Option<Seq<char>>> {
    v.map_values(|o: Option<String>| opt_view(o))
}

pub open spec fn strings_view(v: Seq<String>) -> Seq<Seq<char>> {
    v.map_values(|s: String| s@)
}

pub open spec fn rows_view(v: Seq<Vec<String>>) -> Seq<Seq<Seq<char>>> {
    v.map_values(|r: Vec<String>| strings_view(r@))
}

/// Relies on scraper's `Html::parse_document`, `Selector::parse`,
/// `Html::select` and `Element::attr`: the attribute `attr` of each element
/// that `selector` matches, in the order scraper's `select` yields them; `None` where the selector
/// does not parse.
#[verifier::external_body]
pub fn select_attr(html: &str, selector: &str, attr: &str) -> (r: Option<Vec<Option<String>>>)
    ensures
        r is Some == selector_ok(selector@),
        r is Some ==> opts_view(r->0@) == attr_values(html@, selector@, attr@),
        r is Some ==> r->0@.len() == match_count(html@, selector@),
{
    let sel = scraper::Selector::parse(selector).ok()?;
    let doc = scraper::Html::parse_document(html);
    Some(doc.select(&sel).map(|e| e.value().attr(attr).map(|a| a.to_string())).collect())
}

/// Relies on scraper's `Html::parse_document`, `Selector::parse`,
/// `Html::select` and `ElementRef::text`: the text nodes under each element
/// that `selector` matches, in the order scraper's `select` yields them; `None` where the selector
/// does not parse.
#[verifier::external_body]
pub fn select_text(html: &str, selector: &str) -> (r: Option<Vec<Vec<String>>>)
    ensures
        r is Some == selector_ok(selector@),
        r is Some ==> rows_view(r->0@) == text_runs(html@, selector@),
        r is Some ==> r->0@.len() == match_count(html@, selector@),
{
    let sel = scraper::Selector::parse(selector).ok()?;
    let doc = scraper::Html::parse_document(html);
    Some(doc.select(&sel).map(|e| e.text().map(|t| t.to_string()).collect()).collect())
}

/// For each element that `row_selector` matches, in the order scraper's
/// `select` yields them, and for each element under it that
/// `cell_selector` matches, the text nodes under that cell as scraper's
/// `ElementRef::text` yields them.
pub uninterp spec fn cell_text_runs(html: Seq<char>, row_selector: Seq<char>, cell_selector: Seq<
    char,
>) -> Seq<Seq<Seq<Seq<char>>>>;

pub open spec fn cells_view(v: Seq<Vec<Vec<String>>>) -> Seq<Seq<Seq<Seq<char>>>> {
    v.map_values(|r: Vec<Vec<String>>| rows_view(r@))
}

/// Relies on scraper's `Html::parse_document`, `Selector::parse`,
/// `Html::select`, `ElementRef::select` and `ElementRef::text`: the text
/// nodes of each cell of each row; `None` where a selector does not parse.
#[verifier::external_body]
pub fn select_cell_text(html: &str, row_selector: &str, cell_selector: &str) -> (r: Option<
    Vec<Vec<Vec<String>>>,
>)
    ensures
        r is Some == (selector_ok(row_selector@) && selector_ok(cell_selector@)),
        r is Some ==> cells_view(r->0@) == cell_text_runs(html@, row_selector@, cell_selector@),
{
    let rows = scraper::Selector::parse(row_selector).ok()?;
    let cells = scraper::Selector::parse(cell_selector).ok()?;
    let doc = scraper::Html::parse_document(html);
    Some(
        doc.select(&rows).map(
            |e| e.select(&cells).map(|c| c.text().map(|t| t.to_string()).collect()).collect(),
        ).collect(),
    )
}

/// The text of each element: its text nodes joined.
pub open spec fn joined(rows: Seq<Seq<Seq<char>>>) -> Seq<Seq<char>> {
    rows.map_values(|r: Seq<Seq<char>>| concat_all(r))
}

/// The strings joined, in order.
pub fn concat_strings(v: &Vec<String>) -> (r: String)
    ensures
        r@ == concat_all(strings_view(v@)),
{
    let mut all = String::new();
    let mut i: usize = 0;
    while i < v.len()
        invariant
            i <= v@.len(),
            all@ == concat_all(strings_view(v@).subrange(0, i as int)),
        decreases v.len() - i,
    {
        assert(strings_view(v@).subrange(0, i + 1).drop_last() =~= strings_view(v@).subrange(
            0,
            i as int,
        ));
        all = all.concat(v[i].as_str());
        i = i + 1;
    }
    assert(strings_view(v@).subrange(0, i as int) =~= strings_view(v@));
    all
}

/// The text of each element, from its text nodes.
pub fn join_rows(rows: &Vec<Vec<String>>) -> (r: Vec<String>)
    ensures
        strings_view(r@) == joined(rows_view(rows@)),
{
    let mut out: Vec<String> = Vec::new();
    let mut i: usize = 0;
    while i < rows.len()
        invariant
            i <= rows@.len(),
            out@.len() == i,
            forall|k: int| 0 <= k < i ==> #[trigger] out@[k]@ == joined(rows_view(rows@))[k],
        decreases rows.len() - i,
    {
        assert(rows_view(rows@)[i as int] == strings_view(rows@[i as int]@));
        out.push(concat_strings(&rows[i]));
        i = i + 1;
    }
    assert(strings_view(out@) =~= joined(rows_view(rows@)));
    out
}

} // verus!
