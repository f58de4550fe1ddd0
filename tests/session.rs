use fdu_sdk::error::ErrorType;
use fdu_sdk::session::{harvest_tokens, login_form, Session, SessionState, LOGIN_SUCCESS_URL};

const LOGIN_PAGE: &str = r#"<html><body>
<form id="casLoginForm" method="post">
<input type="text" name="username" value="">
<input type="password" name="password" value="">
<input type="hidden" name="lt" value="LT-1234-abc">
<input type="hidden" name="dllt" value="userNamePasswordLogin">
<input type="hidden" name="execution" value="e1s1">
<input type="hidden" name="_eventId" value="submit">
<input type="hidden" name="rmShown">
<input type="hidden" value="no-name">
<input type="submit" name="go" value="Login">
</form></body></html>"#;

fn field<'a>(form: &'a [(String, String)], key: &str) -> Option<&'a str> {
    form.iter().find(|(k, _)| k == key).map(|(_, v)| v.as_str())
}

#[test]
fn harvester_returns_exactly_the_hidden_fields() {
    let fields = harvest_tokens(LOGIN_PAGE);
    let expected: Vec<(String, String)> = vec![
        ("lt".to_string(), "LT-1234-abc".to_string()),
        ("dllt".to_string(), "userNamePasswordLogin".to_string()),
        ("execution".to_string(), "e1s1".to_string()),
        ("_eventId".to_string(), "submit".to_string()),
        ("rmShown".to_string(), "".to_string()),
    ];
    assert_eq!(fields, expected);
}

#[test]
fn harvester_on_page_without_hidden_fields_is_empty() {
    assert!(harvest_tokens("<html><body><p>hello</p></body></html>").is_empty());
}

#[test]
fn login_form_holds_credentials_and_tokens() {
    let fields = harvest_tokens(LOGIN_PAGE);
    let form = login_form("20300000", "secret", &fields);
    assert_eq!(form.len(), 7);
    assert_eq!(field(&form, "username"), Some("20300000"));
    assert_eq!(field(&form, "password"), Some("secret"));
    assert_eq!(field(&form, "lt"), Some("LT-1234-abc"));
    assert_eq!(field(&form, "rmShown"), Some(""));
}

#[test]
fn hidden_field_replaces_a_credential_of_the_same_name() {
    let hidden = vec![("username".to_string(), "other".to_string())];
    let form = login_form("me", "pw", &hidden);
    assert_eq!(form.len(), 2);
    assert_eq!(field(&form, "username"), Some("other"));
}

#[test]
fn login_on_success_url_authenticates() {
    let mut s = Session::new();
    assert_eq!(s.state(), SessionState::Anonymous);
    s.begin_login("20300000", "secret");
    assert_eq!(s.state(), SessionState::Authenticating);
    assert!(s.finish_login(LOGIN_SUCCESS_URL).is_ok());
    assert_eq!(s.state(), SessionState::Authenticated);
}

#[test]
fn test_wrong_login() {
    let mut s = Session::new();
    s.begin_login("123", "123");
    let e = s.finish_login("https://uis.fudan.edu.cn/authserver/login?error=1").unwrap_err();
    assert_eq!(e.kind, ErrorType::LoginError);
    assert_eq!(s.state(), SessionState::Failed);
    assert_eq!(s.uid(), Some("123"));
    assert_eq!(s.pwd(), Some("123"));
}

#[test]
fn failed_session_needs_new_login() {
    let mut s = Session::new();
    s.begin_login("u", "p");
    assert!(s.finish_login("https://elsewhere/").is_err());
    assert!(s.finish_login(LOGIN_SUCCESS_URL).is_err());
    assert_eq!(s.state(), SessionState::Failed);
    s.begin_login("u", "p");
    assert!(s.finish_login(LOGIN_SUCCESS_URL).is_ok());
    assert_eq!(s.state(), SessionState::Authenticated);
}

#[test]
fn logout_with_expected_status_ends_session() {
    let mut s = Session::new();
    s.begin_login("u", "p");
    s.finish_login(LOGIN_SUCCESS_URL).unwrap();
    assert!(s.finish_logout(200).is_ok());
    assert_eq!(s.state(), SessionState::Anonymous);
}

#[test]
fn logout_with_other_status_keeps_session() {
    let mut s = Session::new();
    s.begin_login("u", "p");
    s.finish_login(LOGIN_SUCCESS_URL).unwrap();
    let e = s.finish_logout(500).unwrap_err();
    assert_eq!(e.kind, ErrorType::LogoutError);
    assert_eq!(s.state(), SessionState::Authenticated);
}
