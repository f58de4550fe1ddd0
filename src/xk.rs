use vstd::prelude::*;

use crate::error::{ErrorType, SDKError};
use crate::html::{attr_values, opts_view, select_attr, select_text, selector_ok, text_runs};
use crate::session::{HIDDEN_INPUT, fields_view};
use crate::text::{
    chars_of, concat_all, contains_text, digits_end, find_text, int_text, int_to_text, number, parse_bounded,
    regex_captures, regex_groups, regex_ok, regex_replace_all, regex_replaced,
    remove_whitespace, replace_single_quotes, skip_digits, strip_space,
    swap_quotes,
};

verus! {

/// The course-election portal's login form.
pub const XK_LOGIN_URL: &'static str = "https://xk.fudan.edu.cn/xk/login.action";

/// Where a successful election login lands (with a query after it).
pub const XK_LOGIN_SUCCESS_URL: &'static str = "https://xk.fudan.edu.cn/xk/home.action";

/// The election page, which holds the election profile id.
pub const XK_URL: &'static str = "https://xk.fudan.edu.cn/xk/stdElectCourse!defaultPage.action";

pub const XK_LOGOUT_URL: &'static str = "https://xk.fudan.edu.cn/xk/logout.action";

pub const QUERY_COURSE_URL: &'static str =
    "https://xk.fudan.edu.cn/xk/stdElectCourse!queryLesson.action";

pub const OPERATE_COURSE_URL: &'static str =
    "https://xk.fudan.edu.cn/xk/stdElectCourse!batchOperator.action";

/// The lesson list (an array literal) and then the enrolment counts (an
/// object literal) in a query answer.
pub const COURSE_LISTS: &'static str = "(\\[.+])[\\s\\S]*?(\\{.+})";

/// A bare key of a script object literal.
pub const BARE_KEY: &'static str = "([a-zA-Z]+?):";

/// The bare key quoted.
pub const QUOTED_KEY: &'static str = "\"${1}\":";

/// What an operation's answer says when it succeeded.
pub const SUCCESS_MARK: &'static str = "成功";

/// What to look a course up by; an empty field matches only an empty one.
#[derive(Debug, Default)]
pub struct CourseQuery {
    pub no: String,
    pub code: String,
    pub name: String,
}

/// How many places a lesson has, and how many are taken.
#[derive(Clone, Copy, Debug, Default, PartialEq, Eq, Structural)]
pub struct AmountInfo {
    pub total: i32,
    pub selected: i32,
}

/// A lesson offered for election.
#[derive(Debug)]
pub struct Course {
    pub id: i32,
    pub no: String,
    pub code: String,
    pub name: String,
    pub amount: AmountInfo,
}

pub open spec fn course_matches(c: Course, q: CourseQuery) -> bool {
    c.no@ == q.no@ || c.code@ == q.code@ || c.name@ == q.name@
}

/// The id of the first lesson that shares its number, code or name with the
/// query.
pub fn get_id(query: &CourseQuery, courses: &Vec<Course>) -> (r: Result<i32, SDKError>)
    ensures
        r is Ok <==> exists|k: int| 0 <= k < courses@.len() && course_matches(#[trigger] courses@[k], *query),
        r matches Ok(id) ==> exists|k: int|
            0 <= k < courses@.len() && course_matches(#[trigger] courses@[k], *query) && courses@[k].id == id
                && forall|m: int| 0 <= m < k ==> !course_matches(#[trigger] courses@[m], *query),
        r matches Err(e) ==> e.kind == ErrorType::OtherError,
{
    let mut i: usize = 0;
    while i < courses.len()
        invariant
            i <= courses@.len(),
            forall|m: int| 0 <= m < i ==> !course_matches(#[trigger] courses@[m], *query),
        decreases courses.len() - i,
    {
        let c = &courses[i];
        if c.no == query.no || c.code == query.code || c.name == query.name {
            assert(course_matches(courses@[i as int], *query));
            return Ok(c.id);
        }
        i = i + 1;
    }
    Err(SDKError::with_type(ErrorType::OtherError, String::from_str("id not found")))
}

/// The form of an election operation: `optype` and `operator0`, which is
/// `<id>:true:0` to select and `<id>:false` to drop.
pub open spec fn operation_fields(id: i32, select: bool) -> Seq<(Seq<char>, Seq<char>)> {
    if select {
        seq![("optype"@, "true"@), ("operator0"@, int_text(id as int) + ":true:0"@)]
    } else {
        seq![("optype"@, "false"@), ("operator0"@, int_text(id as int) + ":false"@)]
    }
}

/// The form that selects (or drops) lesson `id`.
pub fn operation_form(id: i32, select: bool) -> (r: Vec<(String, String)>)
    ensures
        fields_view(r@) == operation_fields(id, select),
{
    let idt = int_to_text(id as i64);
    let mut v: Vec<(String, String)> = Vec::new();
    if select {
        v.push((String::from_str("optype"), String::from_str("true")));
        v.push((String::from_str("operator0"), idt.concat(":true:0")));
    } else {
        v.push((String::from_str("optype"), String::from_str("false")));
        v.push((String::from_str("operator0"), idt.concat(":false")));
    }
    assert(fields_view(v@) =~= operation_fields(id, select));
    v
}

/// Whether an operation's answer reports success: the text of its first
/// `div`, whitespace taken out, holds the success mark.
pub open spec fn operation_succeeded(texts: Seq<Seq<char>>) -> bool {
    contains_text(strip_space(concat_all(texts)), SUCCESS_MARK@)
}

/// Whether the text runs of an answer's first `div` report success.
pub fn operation_result(texts: &Vec<String>) -> (r: bool)
    ensures
        r == operation_succeeded(crate::html::strings_view(texts@)),
{
    let all = crate::html::concat_strings(texts);
    let stripped = remove_whitespace(all.as_str());
    find_text(&stripped, SUCCESS_MARK)
}

/// Whether an operation's answer page reports success; an answer without a
/// `div` is a parse error.
pub fn operate_course_result(html: &str) -> (r: Result<bool, SDKError>)
    ensures
        r is Ok <==> selector_ok("div"@) && text_runs(html@, "div"@).len() > 0,
        r matches Ok(b) ==> b == operation_succeeded(text_runs(html@, "div"@)[0]),
        r matches Err(e) ==> e.kind == ErrorType::ParseError,
{
    match select_text(html, "div") {
        Some(divs) => {
            if divs.len() == 0 {
                return Err(SDKError::with_type(ErrorType::ParseError, String::from_str("operate course result")));
            }
            assert(crate::html::rows_view(divs@)[0] == crate::html::strings_view(divs@[0]@));
            Ok(operation_result(&divs[0]))
        },
        None => Err(SDKError::with_type(ErrorType::ParseError, String::from_str("operate course result"))),
    }
}

/// A script object literal made JSON: bare keys quoted, then single quotes
/// made double.
pub fn normalize_json(json: &str) -> (r: Result<String, SDKError>)
    ensures
        r is Ok == regex_ok(BARE_KEY@),
        r matches Ok(s) ==> s@ == swap_quotes(regex_replaced(BARE_KEY@, json@, QUOTED_KEY@)),
        r matches Err(e) ==> e.kind == ErrorType::OtherError,
{
    match regex_replace_all(BARE_KEY, json, QUOTED_KEY) {
        Some(s) => Ok(replace_single_quotes(s.as_str())),
        None => Err(SDKError::with_type(ErrorType::OtherError, String::from_str("bad key pattern"))),
    }
}

/// The two lists in a lesson-query answer, normalized to JSON: the lessons
/// and the enrolment counts. Any status but 200 is a network error.
pub fn split_course_response(status: u16, text: &str) -> (r: Result<(String, String), SDKError>)
    ensures
        status != 200 ==> (r matches Err(e) && e.kind == ErrorType::NetworkError),
        r matches Ok(p) ==> status == 200 && regex_ok(COURSE_LISTS@) && regex_ok(BARE_KEY@) && (
        match regex_groups(COURSE_LISTS@, text@) {
            Some(g) => g.len() > 2 && g[1] is Some && g[2] is Some && p.0@ == swap_quotes(
                regex_replaced(BARE_KEY@, g[1]->0, QUOTED_KEY@),
            ) && p.1@ == swap_quotes(regex_replaced(BARE_KEY@, g[2]->0, QUOTED_KEY@)),
            None => false,
        }),
        status == 200 && regex_ok(COURSE_LISTS@) && regex_ok(BARE_KEY@) && (match regex_groups(
            COURSE_LISTS@,
            text@,
        ) {
            Some(g) => g.len() > 2 && g[1] is Some && g[2] is Some,
            None => false,
        }) ==> r is Ok,
{
    if status != 200 {
        let msg = String::from_str("status code: ").concat(int_to_text(status as i64).as_str());
        let msg = msg.concat("\ntext: ").concat(text);
        return Err(SDKError::with_type(ErrorType::NetworkError, msg));
    }
    let groups = match regex_captures(COURSE_LISTS, text) {
        Some(Some(g)) => g,
        _ => return Err(SDKError::with_type(ErrorType::ParseError, String::from_str("parse course error"))),
    };
    if groups.len() <= 2 {
        return Err(SDKError::with_type(ErrorType::ParseError, String::from_str("parse course error")));
    }
    assert(opts_view(groups@)[1] == crate::html::opt_view(groups@[1]));
    assert(opts_view(groups@)[2] == crate::html::opt_view(groups@[2]));
    let courses = match &groups[1] {
        Some(c) => c,
        None => return Err(SDKError::with_type(ErrorType::ParseError, String::from_str("course_str does not exist"))),
    };
    let amounts = match &groups[2] {
        Some(a) => a,
        None => return Err(SDKError::with_type(ErrorType::ParseError, String::from_str("amounts_str does not exist"))),
    };
    let c = normalize_json(courses.as_str())?;
    let a = normalize_json(amounts.as_str())?;
    Ok((c, a))
}

/// Gives each lesson the counts listed under its id (the first entry whose
/// key is the id in decimal); a lesson without one keeps its counts.
pub fn merge_amounts(courses: &mut Vec<Course>, amounts: &Vec<(String, AmountInfo)>)
    ensures
        final(courses)@.len() == old(courses)@.len(),
        forall|k: int| 0 <= k < final(courses)@.len() ==> {
            let c = #[trigger] final(courses)@[k];
            let o = old(courses)@[k];
            &&& c.id == o.id && c.no == o.no && c.code == o.code && c.name == o.name
            &&& (exists|m: int| 0 <= m < amounts@.len() && amounts@[m].0@ == int_text(o.id as int))
                ==> exists|m: int|
                0 <= m < amounts@.len() && #[trigger] amounts@[m].0@ == int_text(o.id as int) && c.amount
                    == amounts@[m].1 && forall|j: int|
                    0 <= j < m ==> amounts@[j].0@ != int_text(o.id as int)
            &&& !(exists|m: int| 0 <= m < amounts@.len() && amounts@[m].0@ == int_text(o.id as int))
                ==> c.amount == o.amount
        },
{
    let ghost orig = courses@;
    let mut i: usize = 0;
    while i < courses.len()
        invariant
            i <= courses@.len() == orig.len(),
            forall|k: int| i <= k < courses@.len() ==> #[trigger] courses@[k] == orig[k],
            forall|k: int| 0 <= k < i ==> {
                let c = #[trigger] courses@[k];
                let o = orig[k];
                &&& c.id == o.id && c.no == o.no && c.code == o.code && c.name == o.name
                &&& (exists|m: int| 0 <= m < amounts@.len() && amounts@[m].0@ == int_text(o.id as int))
                    ==> exists|m: int|
                    0 <= m < amounts@.len() && #[trigger] amounts@[m].0@ == int_text(o.id as int)
                        && c.amount == amounts@[m].1 && forall|j: int|
                        0 <= j < m ==> amounts@[j].0@ != int_text(o.id as int)
                &&& !(exists|m: int| 0 <= m < amounts@.len() && amounts@[m].0@ == int_text(o.id as int))
                    ==> c.amount == o.amount
            },
        decreases courses.len() - i,
    {
        let key = int_to_text(courses[i].id as i64);
        let mut m: usize = 0;
        let mut found: Option<AmountInfo> = None;
        while m < amounts.len()
            invariant
                m <= amounts@.len(),
                key@ == int_text(orig[i as int].id as int),
                i < courses@.len(),
                found is None ==> forall|j: int| 0 <= j < m ==> amounts@[j].0@ != key@,
                found matches Some(a) ==> exists|j: int|
                    0 <= j < m && #[trigger] amounts@[j].0@ == key@ && a == amounts@[j].1 && forall|
                        q: int,
                    | 0 <= q < j ==> amounts@[q].0@ != key@,
            decreases amounts.len() - m,
        {
            if found.is_none() && amounts[m].0 == key {
                found = Some(amounts[m].1);
            }
            m = m + 1;
        }
        match found {
            Some(a) => {
                let mut c = courses.remove(i);
                c.amount = a;
                courses.insert(i, c);
            },
            None => {},
        }
        i = i + 1;
    }
}

/// Whether the election page answered the profile choice: only status 200
/// lets the election go on.
pub fn check_election_access(status: u16) -> (r: Result<(), SDKError>)
    ensures
        r is Ok == (status == 200),
        r matches Err(e) ==> e.kind == ErrorType::LoginError,
{
    if status == 200 {
        Ok(())
    } else {
        Err(SDKError::with_type(ErrorType::LoginError, String::from_str("access xk page error")))
    }
}

/// Where an optional `+` or `-` sign ends.
pub open spec fn sign_len(t: Seq<char>) -> int {
    if t.len() > 0 && (t[0] == '+' || t[0] == '-') {
        1
    } else {
        0
    }
}

/// An `i32` written in decimal with an optional sign.
pub open spec fn i32_value(t: Seq<char>) -> Option<int> {
    let s = sign_len(t);
    let n = number(t, s, t.len() as int) as int;
    if t.len() > s && digits_end(t, s) == t.len() {
        if t[0] == '-' && n <= 0x8000_0000 {
            Some(-n)
        } else if t[0] != '-' && n <= i32::MAX {
            Some(n)
        } else {
            None
        }
    } else {
        None
    }
}

/// The election profile id a value attribute gives: an `i32` in decimal,
/// other than 0.
pub open spec fn profile_id_value(v: Option<Seq<char>>) -> Option<int> {
    match v {
        Some(t) => match i32_value(t) {
            Some(n) => if n != 0 {
                Some(n)
            } else {
                None
            },
            None => None,
        },
        None => None,
    }
}

/// The election profile id on the election page: the value of the first
/// hidden input that scraper's `select` yields.
pub fn profile_id_of(html: &str) -> (r: Result<i32, SDKError>)
    ensures
        r matches Ok(id) ==> selector_ok(HIDDEN_INPUT@) && attr_values(html@, HIDDEN_INPUT@, "value"@).len() > 0
            && profile_id_value(attr_values(html@, HIDDEN_INPUT@, "value"@)[0]) == Some(id as int),
        selector_ok(HIDDEN_INPUT@) && attr_values(html@, HIDDEN_INPUT@, "value"@).len() > 0
            && profile_id_value(attr_values(html@, HIDDEN_INPUT@, "value"@)[0]) is Some ==> r is Ok,
        r matches Err(e) ==> e.kind == ErrorType::ParseError,
{
    let values = match select_attr(html, HIDDEN_INPUT, "value") {
        Some(v) => v,
        None => return Err(SDKError::with_type(ErrorType::ParseError, String::from_str("get profile id error"))),
    };
    if values.len() == 0 {
        return Err(SDKError::with_type(ErrorType::ParseError, String::from_str("get profile id error")));
    }
    assert(opts_view(values@)[0] == crate::html::opt_view(values@[0]));
    let text = match &values[0] {
        Some(t) => t,
        None => return Err(SDKError::with_type(ErrorType::ParseError, String::from_str("get profile id error"))),
    };
    let t = chars_of(text.as_str());
    let s: usize = if t.len() > 0 && (t[0] == '+' || t[0] == '-') {
        1
    } else {
        0
    };
    let e = skip_digits(&t, s);
    if t.len() <= s || e != t.len() {
        return Err(SDKError::with_type(ErrorType::ParseError, String::from_str("get profile id error")));
    }
    let negative = t[0] == '-';
    let limit: u64 = if negative {
        0x8000_0000
    } else {
        0x7fff_ffff
    };
    match parse_bounded(&t, s, t.len(), limit) {
        Some(n) if n != 0 => {
            let id: i32 = if negative {
                if n == 0x8000_0000 {
                    i32::MIN
                } else {
                    -(n as i32)
                }
            } else {
                n as i32
            };
            Ok(id)
        },
        _ => Err(SDKError::with_type(ErrorType::ParseError, String::from_str("get profile id error"))),
    }
}

} // verus!
