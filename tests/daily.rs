use fdu_sdk::daily::{has_tick, has_tick_on, Date};
use fdu_sdk::error::ErrorType;

const TODAY: Date = Date { year: 2026, month: 10, day: 19 };

#[test]
fn date_stamp() {
    assert_eq!(TODAY.stamp(), "20261019");
    assert_eq!(Date { year: 987, month: 1, day: 5 }.stamp(), "09870105");
}

#[test]
fn checked_in_today() {
    let json = r#"{"e":0,"d":{"info":{"date":"20261019","area":"x"}}}"#;
    assert_eq!(has_tick_on(json, TODAY).unwrap(), true);
}

#[test]
fn checked_in_another_day() {
    let json = r#"{"d":{"info":{"date":"20261018"}}}"#;
    assert_eq!(has_tick_on(json, TODAY).unwrap(), false);
}

#[test]
fn missing_path_is_not_checked_in() {
    assert_eq!(has_tick_on(r#"{"d":{"oldInfo":{}}}"#, TODAY).unwrap(), false);
    assert_eq!(has_tick_on(r#"{"d":[]}"#, TODAY).unwrap(), false);
    assert_eq!(has_tick_on(r#"{"d":{"info":{"date":20261019}}}"#, TODAY).unwrap(), false);
    assert_eq!(has_tick_on("[]", TODAY).unwrap(), false);
}

#[test]
fn date_without_stamp_is_refused() {
    let json = r#"{"d":{"info":{"date":"20261019"}}}"#;
    let e = has_tick_on(json, Date { year: 10000, month: 1, day: 1 }).unwrap_err();
    assert_eq!(e.kind, ErrorType::OtherError);
    assert!(has_tick_on(json, Date { year: 2026, month: 13, day: 1 }).is_err());
}

#[test]
fn text_that_is_no_json_is_parse_error() {
    let e = has_tick_on("<html>login</html>", TODAY).unwrap_err();
    assert_eq!(e.kind, ErrorType::ParseError);
}

#[test]
fn has_tick_uses_local_date() {
    let today = chrono::Local::now().format("%Y%m%d").to_string();
    let json = format!("{{\"d\":{{\"info\":{{\"date\":\"{}\"}}}}}}", today);
    assert_eq!(has_tick(&json).unwrap(), true);
    assert_eq!(has_tick(r#"{"d":{"info":{"date":"19700101"}}}"#).unwrap(), false);
}
