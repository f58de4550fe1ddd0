use vstd::prelude::*;

use crate::error::{ErrorType, SDKError};
use crate::html::{
    attr_values, join_rows, joined, opt_view, opts_view, select_attr, select_text, selector_ok,
    strings_view, text_runs,
};
use crate::session::fields_view;
use crate::text::{regex_captures, regex_groups, regex_ok, same_text};

verus! {

pub const JWFW_URL: &'static str = "https://jwfw.fudan.edu.cn/eams/home.action";

pub const JWFW_COURSE_TABLE_QUERY_URL: &'static str =
    "https://jwfw.fudan.edu.cn/eams/courseTableForStd!courseTable.action";

pub const JWFW_COURSE_TABLE_MAIN_URL: &'static str =
    "https://jwfw.fudan.edu.cn/eams/courseTableForStd.action";

/// The statement of the course-table page that carries the student's ids.
pub const IDS_PATTERN: &'static str = "bg.form.addInput\\(form,\"ids\",\"(\\d+)\"\\);";

/// The anchors of the portal's interstitial page.
pub const JUMP_ANCHORS: &'static str = "html > body > a";

/// The text of the anchor that leads on from the interstitial page.
pub const JUMP_TEXT: &'static str = "点击此处";

/// The ids (a value tied to the student) on the course-table page.
pub fn parse_ids(html: &str) -> (r: Result<String, SDKError>)
    ensures
        r matches Ok(s) ==> regex_ok(IDS_PATTERN@) && (match regex_groups(IDS_PATTERN@, html@) {
            Some(g) => g.len() > 1 && g[1] == Some(s@),
            None => false,
        }),
        regex_ok(IDS_PATTERN@) && (match regex_groups(IDS_PATTERN@, html@) {
            Some(g) => g.len() > 1 && g[1] is Some,
            None => false,
        }) ==> r is Ok,
        r matches Err(e) ==> e.kind == ErrorType::ParseError,
{
    match regex_captures(IDS_PATTERN, html) {
        Some(Some(g)) => {
            if g.len() > 1 {
                assert(opts_view(g@)[1] == opt_view(g@[1]));
                match &g[1] {
                    Some(s) => return Ok(s.clone()),
                    None => {},
                }
            }
            Err(SDKError::with_type(ErrorType::ParseError, String::from_str("ids not found")))
        },
        _ => Err(SDKError::with_type(ErrorType::ParseError, String::from_str("ids not found"))),
    }
}

/// The form that asks for the course table of the student with `ids`.
pub open spec fn course_table_fields(ids: Seq<char>) -> Seq<(Seq<char>, Seq<char>)> {
    seq![
        ("ignoreHead"@, "1"@),
        ("setting.kind"@, "std"@),
        ("startWeek"@, "1"@),
        ("project.id"@, "1"@),
        ("semester.id"@, "385"@),
        ("ids"@, ids),
    ]
}

/// The form that asks for the course table of the student with `ids`.
pub fn course_table_form(ids: &str) -> (r: Vec<(String, String)>)
    ensures
        fields_view(r@) == course_table_fields(ids@),
{
    let mut v: Vec<(String, String)> = Vec::new();
    v.push((String::from_str("ignoreHead"), String::from_str("1")));
    v.push((String::from_str("setting.kind"), String::from_str("std")));
    v.push((String::from_str("startWeek"), String::from_str("1")));
    v.push((String::from_str("project.id"), String::from_str("1")));
    v.push((String::from_str("semester.id"), String::from_str("385")));
    v.push((String::from_str("ids"), String::from_str(ids)));
    assert(fields_view(v@) =~= course_table_fields(ids@));
    v
}

/// The targets of the anchors whose text is exactly the jump text, in
/// order, among the first `n`.
pub open spec fn jump_targets(htmls: Seq<Seq<char>>, hrefs: Seq<Option<Seq<char>>>, n: int) -> Seq<
    Seq<char>,
>
    decreases n,
{
    if n <= 0 {
        Seq::empty()
    } else {
        let prev = jump_targets(htmls, hrefs, n - 1);
        if htmls[n - 1] == JUMP_TEXT@ && hrefs[n - 1] is Some {
            prev.push(hrefs[n - 1]->0)
        } else {
            prev
        }
    }
}

/// The targets of the anchors, given each one's text and `href`.
pub fn collect_jump_links(htmls: &Vec<String>, hrefs: &Vec<Option<String>>) -> (r: Vec<String>)
    requires
        htmls@.len() == hrefs@.len(),
    ensures
        strings_view(r@) == jump_targets(strings_view(htmls@), opts_view(hrefs@), htmls@.len() as int),
{
    let mut out: Vec<String> = Vec::new();
    let mut i: usize = 0;
    while i < htmls.len()
        invariant
            i <= htmls@.len() == hrefs@.len(),
            strings_view(out@) == jump_targets(strings_view(htmls@), opts_view(hrefs@), i as int),
        decreases htmls.len() - i,
    {
        let ghost prev = strings_view(out@);
        assert(opts_view(hrefs@)[i as int] == opt_view(hrefs@[i as int]));
        if same_text(htmls[i].as_str(), JUMP_TEXT) {
            match &hrefs[i] {
                Some(h) => {
                    out.push(h.clone());
                    assert(strings_view(out@) =~= prev.push(h@));
                },
                None => {},
            }
        }
        i = i + 1;
    }
    out
}

/// The pages the interstitial page leads on to, in order.
pub fn jump_links(html: &str) -> (r: Vec<String>)
    ensures
        selector_ok(JUMP_ANCHORS@) ==> strings_view(r@) == jump_targets(
            joined(text_runs(html@, JUMP_ANCHORS@)),
            attr_values(html@, JUMP_ANCHORS@, "href"@),
            text_runs(html@, JUMP_ANCHORS@).len() as int,
        ),
        !selector_ok(JUMP_ANCHORS@) ==> r@.len() == 0,
{
    let texts = select_text(html, JUMP_ANCHORS);
    let hrefs = select_attr(html, JUMP_ANCHORS, "href");
    match (texts, hrefs) {
        (Some(t), Some(a)) => {
            let texts = join_rows(&t);
            assert(strings_view(texts@).len() == texts@.len());
            assert(joined(crate::html::rows_view(t@)).len() == t@.len());
            collect_jump_links(&texts, &a)
        },
        _ => Vec::new(),
    }
}

} // verus!
