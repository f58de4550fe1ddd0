use vstd::prelude::*;

use chrono::Datelike;

use crate::error::{ErrorType, SDKError};
use crate::html::opt_view;
use crate::text::string_of_range;

verus! {

/// The health-check service's record of the latest check-in.
pub const GET_INFO_URL: &'static str = "https://zlapp.fudan.edu.cn/ncov/wap/fudan/get-info";

/// Where the date of the latest check-in sits in that record.
pub const CHECK_IN_DATE_POINTER: &'static str = "/d/info/date";

#[verifier::external_type_specification]
#[verifier::external_body]
pub struct ExJsonError(serde_json::Error);

/// Whether serde_json's `from_str` reads `text` as a JSON value.
pub uninterp spec fn json_ok(text: Seq<char>) -> bool;

/// The string that serde_json's `Value::pointer` finds at `pointer` in the
/// value read from `text`, where there is one.
pub uninterp spec fn json_str_at(text: Seq<char>, pointer: Seq<char>) -> Option<Seq<char>>;

/// Relies on serde_json's `from_str` into a `Value`, `Value::pointer` and
/// `Value::as_str`: the string at `pointer`, `None` where the path is
/// missing or holds no string, and the parse error where `text` is no JSON.
#[verifier::external_body]
fn json_str_at_pointer(text: &str, pointer: &str) -> (r: Result<Option<String>, serde_json::Error>)
    ensures
        r is Ok == json_ok(text@),
        r matches Ok(f) ==> opt_view(f) == json_str_at(text@, pointer@),
{
    let v: serde_json::Value = serde_json::from_str(text)?;
    Ok(v.pointer(pointer).and_then(|x| x.as_str()).map(|s| s.to_string()))
}

/// Relies on `Display` of serde_json's `Error`: its message, to keep as the
/// cause of a parse error.
#[verifier::external_body]
fn json_error_text(e: &serde_json::Error) -> (r: String) {
    e.to_string()
}

/// Relies on std's `SystemTime::now` and `duration_since`, and on chrono's
/// `DateTime::from_timestamp`, `with_timezone(&Local)` and `Datelike`:
/// today's year, month (1 to 12) and day of month (1 to 31) in the
/// machine's time zone; `None` where the clock reads before 1970 or out of
/// chrono's range.
#[verifier::external_body]
fn local_today() -> (r: Option<(i32, u32, u32)>)
    ensures
        r matches Some(d) ==> 1 <= d.1 <= 12 && 1 <= d.2 <= 31,
{
    let since = std::time::SystemTime::now().duration_since(std::time::UNIX_EPOCH).ok()?;
    let utc = chrono::DateTime::from_timestamp(since.as_secs() as i64, since.subsec_nanos())?;
    let now = utc.with_timezone(&chrono::Local);
    Some((now.year(), now.month(), now.day()))
}

/// A calendar date.
#[derive(Clone, Copy, Debug, PartialEq, Eq, Structural)]
pub struct Date {
    pub year: i32,
    pub month: u32,
    pub day: u32,
}

/// A date that has an eight-digit stamp.
pub open spec fn date_ok(d: Date) -> bool {
    0 <= d.year <= 9999 && 1 <= d.month <= 12 && 1 <= d.day <= 31
}

pub open spec fn digit_char(n: int) -> char {
    seq!['0', '1', '2', '3', '4', '5', '6', '7', '8', '9'][n]
}

/// The date written `YYYYMMDD`.
pub open spec fn stamp(d: Date) -> Seq<char> {
    let y = d.year as int;
    let m = d.month as int;
    let a = d.day as int;
    seq![
        digit_char(y / 1000),
        digit_char(y / 100 % 10),
        digit_char(y / 10 % 10),
        digit_char(y % 10),
        digit_char(m / 10),
        digit_char(m % 10),
        digit_char(a / 10),
        digit_char(a % 10),
    ]
}

fn digit(n: u32) -> (r: char)
    requires
        n < 10,
    ensures
        r == digit_char(n as int),
{
    if n == 0 {
        '0'
    } else if n == 1 {
        '1'
    } else if n == 2 {
        '2'
    } else if n == 3 {
        '3'
    } else if n == 4 {
        '4'
    } else if n == 5 {
        '5'
    } else if n == 6 {
        '6'
    } else if n == 7 {
        '7'
    } else if n == 8 {
        '8'
    } else {
        '9'
    }
}

impl Date {
    /// The date written `YYYYMMDD`.
    pub fn stamp(&self) -> (r: String)
        requires
            date_ok(*self),
        ensures
            r@ == stamp(*self),
    {
        let y = self.year as u32;
        let mut v: Vec<char> = Vec::new();
        v.push(digit(y / 1000));
        v.push(digit(y / 100 % 10));
        v.push(digit(y / 10 % 10));
        v.push(digit(y % 10));
        v.push(digit(self.month / 10));
        v.push(digit(self.month % 10));
        v.push(digit(self.day / 10));
        v.push(digit(self.day % 10));
        assert(v@ =~= stamp(*self));
        string_of_range(&v, 0, v.len())
    }
}

/// Whether the recorded check-in date is the given day.
pub fn checked_in(recorded: &Option<String>, today: Date) -> (r: bool)
    requires
        date_ok(today),
    ensures
        r == (opt_view(*recorded) == Some(stamp(today))),
{
    match recorded {
        Some(d) => {
            let s = today.stamp();
            *d == s
        },
        None => false,
    }
}

/// Whether the health-check record `history` (JSON) shows a check-in on
/// `today`. A missing or malformed date means no check-in; text that is no
/// JSON at all is a parse error, and a day without an eight-digit stamp is
/// refused.
pub fn has_tick_on(history: &str, today: Date) -> (r: Result<bool, SDKError>)
    ensures
        !date_ok(today) ==> (r matches Err(e) && e.kind == ErrorType::OtherError),
        date_ok(today) ==> (r is Ok == json_ok(history@)),
        r matches Ok(b) ==> b == (json_str_at(history@, CHECK_IN_DATE_POINTER@) == Some(
            stamp(today),
        )),
        date_ok(today) && r is Err ==> (r matches Err(e) && e.kind == ErrorType::ParseError),
{
    if !(0 <= today.year && today.year <= 9999 && 1 <= today.month && today.month <= 12 && 1
        <= today.day && today.day <= 31) {
        return Err(
            SDKError::with_type(ErrorType::OtherError, String::from_str("date out of range")),
        );
    }
    match json_str_at_pointer(history, CHECK_IN_DATE_POINTER) {
        Ok(recorded) => Ok(checked_in(&recorded, today)),
        Err(e) => Err(
            SDKError::with_cause(
                ErrorType::ParseError,
                String::from_str("serde_json reported an error"),
                json_error_text(&e),
            ),
        ),
    }
}

/// Whether the health-check record `history` shows a check-in today, by the
/// machine's local date. A clock that gives no date is an error.
pub fn has_tick(history: &str) -> (r: Result<bool, SDKError>)
    ensures
        r matches Ok(b) ==> json_ok(history@) && exists|d: Date|
            date_ok(d) && b == (json_str_at(history@, CHECK_IN_DATE_POINTER@) == Some(
                #[trigger] stamp(d),
            )),
        r matches Err(e) ==> (e.kind == ErrorType::ParseError && !json_ok(history@)) || e.kind
            == ErrorType::OtherError,
{
    let (year, month, day) = match local_today() {
        Some(t) => t,
        None => {
            return Err(
                SDKError::with_type(ErrorType::OtherError, String::from_str("clock gives no date")),
            );
        },
    };
    let today = Date { year, month, day };
    let r = has_tick_on(history, today);
    proof {
        if r is Ok {
            let _ = stamp(today);
        }
    }
    r
}

} // verus!
