use fdu_sdk::ecard::qr_code_of;
use fdu_sdk::error::ErrorType;
use fdu_sdk::jwfw::{course_table_form, jump_links, parse_ids};

#[test]
fn ids_from_course_table_page() {
    let page = "<script>bg.form.addInput(form,\"ids\",\"123456\");</script>";
    assert_eq!(parse_ids(page).unwrap(), "123456");
    assert_eq!(parse_ids("<script></script>").unwrap_err().kind, ErrorType::ParseError);
}

#[test]
fn course_table_form_fields() {
    let f = course_table_form("123456");
    assert_eq!(f.len(), 6);
    assert_eq!(f[4], ("semester.id".to_string(), "385".to_string()));
    assert_eq!(f[5], ("ids".to_string(), "123456".to_string()));
}

#[test]
fn jump_links_follow_the_marked_anchor() {
    let page = "<html><body><a href=\"https://a/\">other</a><a href=\"https://jwfw/next\">点击此处</a></body></html>";
    assert_eq!(jump_links(page), vec!["https://jwfw/next".to_string()]);
    assert!(jump_links("<html><body><p>home</p></body></html>").is_empty());
}

#[test]
fn qr_code_from_page() {
    let page = r#"<html><body><input id="myText" value="2829164051962"></body></html>"#;
    assert_eq!(qr_code_of(page).unwrap(), "2829164051962");
    assert_eq!(qr_code_of("<p>no code</p>").unwrap_err().kind, ErrorType::ParseError);
}
