use fdu_sdk::dispatch::{classify, DispatchAction, Dispatcher, RequestDescriptor, Signature};

fn request() -> RequestDescriptor {
    RequestDescriptor {
        method: "POST".to_string(),
        url: "https://xk.fudan.edu.cn/xk/stdElectCourse!queryLesson.action".to_string(),
        query: vec![("profileId".to_string(), "1500".to_string())],
        form: vec![("courseName".to_string(), "x".to_string())],
    }
}

const DUPLICATE: &str = r#"<html><body><p>当前用户存在重复登录的情况</p><a name="top">top</a><a href="https://example/x">continue</a></body></html>"#;

#[test]
fn classifies_bodies() {
    assert_eq!(classify(DUPLICATE), Signature::DuplicateSession);
    assert_eq!(classify("<p>请不要过快点击</p>"), Signature::RateLimited);
    assert_eq!(classify("<p>ok</p>"), Signature::Normal);
}

#[test]
fn duplicate_session_resends_to_anchor_target() {
    let mut d = Dispatcher::new(request());
    match d.on_response(DUPLICATE) {
        DispatchAction::Resend(r) => {
            assert_eq!(r.url, "https://example/x");
            assert_eq!(r.method, "POST");
            assert_eq!(r.query, request().query);
            assert_eq!(r.form, request().form);
        }
        DispatchAction::Deliver => panic!("expected a resend"),
    }
}

#[test]
fn duplicate_session_without_anchor_delivers() {
    let mut d = Dispatcher::new(request());
    let r = d.on_response("<p>当前用户存在重复登录的情况</p><a>no target</a>");
    assert!(matches!(r, DispatchAction::Deliver));
}

#[test]
fn relative_anchor_target_delivers_primary_response() {
    let mut d = Dispatcher::new(request());
    let body = r#"<p>当前用户存在重复登录的情况</p><a href="/authserver/reauth">continue</a>"#;
    assert!(matches!(d.on_response(body), DispatchAction::Deliver));
}

#[test]
fn http_anchor_target_is_followed() {
    let mut d = Dispatcher::new(request());
    let body = r#"<p>当前用户存在重复登录的情况</p><a href="http://example/y">continue</a>"#;
    match d.on_response(body) {
        DispatchAction::Resend(r) => assert_eq!(r.url, "http://example/y"),
        DispatchAction::Deliver => panic!("expected a resend"),
    }
}

#[test]
fn at_most_one_retry() {
    let mut d = Dispatcher::new(request());
    assert!(matches!(d.on_response(DUPLICATE), DispatchAction::Resend(_)));
    assert!(matches!(d.on_response(DUPLICATE), DispatchAction::Deliver));
    assert!(matches!(d.on_response(DUPLICATE), DispatchAction::Deliver));
    assert!(matches!(d.on_response("请不要过快点击"), DispatchAction::Deliver));
}

#[test]
fn rate_limited_resends_unchanged() {
    let mut d = Dispatcher::new(request());
    match d.on_response("<p>请不要过快点击</p>") {
        DispatchAction::Resend(r) => {
            assert_eq!(r.url, request().url);
            assert_eq!(r.method, "POST");
        }
        DispatchAction::Deliver => panic!("expected a resend"),
    }
    assert!(matches!(d.on_response("<p>请不要过快点击</p>"), DispatchAction::Deliver));
}

#[test]
fn normal_body_delivers() {
    let mut d = Dispatcher::new(request());
    assert!(matches!(d.on_response("<p>fine</p>"), DispatchAction::Deliver));
}
