use mitm_core::headers::Headers;
use mitm_core::session::{
    create_response_from_session, plan_request, RequestPlan, SessionData, SessionHeader,
    SessionResponse, SessionRule, SessionStore,
};

fn hello_rule() -> SessionRule {
    SessionRule {
        method: Some(b"GET".to_vec()),
        url: Some(b"/hello".to_vec()),
        response: SessionResponse {
            status: Some(201),
            headers: Vec::new(),
            data: SessionData::Json(br#"{"greet":"hi"}"#.to_vec()),
        },
    }
}

fn value<'a>(h: &'a Headers, name: &str) -> Option<&'a Vec<u8>> {
    h.get(name.as_bytes())
}

#[test]
fn session_override_answers_without_upstream() {
    let mut store = SessionStore::new();
    store.update_sessions(vec![hello_rule()]);
    match plan_request(&store, b"get", b"http://any.test/hello") {
        RequestPlan::Respond(res) => {
            assert_eq!(res.status, 201);
            assert_eq!(res.body, br#"{"greet":"hi"}"#.to_vec());
            assert_eq!(value(&res.headers, "x-cheolsu-proxy-session"), Some(&b"true".to_vec()));
            assert_eq!(value(&res.headers, "content-type"), Some(&b"application/json".to_vec()));
        }
        RequestPlan::Forward => panic!("expected a session response"),
    }
    assert!(matches!(plan_request(&store, b"POST", b"http://any.test/hello"), RequestPlan::Forward));
    assert!(matches!(plan_request(&store, b"GET", b"http://any.test/bye"), RequestPlan::Forward));
}

#[test]
fn url_matching_is_symmetric() {
    let mut store = SessionStore::new();
    store.update_sessions(vec![SessionRule {
        method: Some(b"GET".to_vec()),
        url: Some(b"http://any.test/hello/world".to_vec()),
        response: SessionResponse { status: None, headers: Vec::new(), data: SessionData::Missing },
    }]);
    assert_eq!(store.find_matching_session(b"/hello", b"GET"), Some(0));
    assert_eq!(store.find_matching_session(b"/other", b"GET"), None);
    assert_eq!(SessionStore::new().find_matching_session(b"/hello", b"GET"), None);
}

#[test]
fn first_matching_rule_wins() {
    let mut second = hello_rule();
    second.response.status = Some(202);
    let mut store = SessionStore::new();
    store.update_sessions(vec![hello_rule(), second]);
    assert_eq!(store.find_matching_session(b"/hello", b"GET"), Some(0));
}

#[test]
fn synthesised_headers_and_status() {
    let resp = SessionResponse {
        status: Some(1000),
        headers: vec![
            SessionHeader { name: b"Content-Length".to_vec(), value: Some(b"99".to_vec()) },
            SessionHeader { name: b"Content-Type".to_vec(), value: Some(b"text/plain".to_vec()) },
            SessionHeader { name: b"x-num".to_vec(), value: None },
            SessionHeader { name: b"bad name".to_vec(), value: Some(b"v".to_vec()) },
        ],
        data: SessionData::Text(b"plain".to_vec()),
    };
    let res = create_response_from_session(&resp);
    assert_eq!(res.status, 200);
    assert_eq!(res.body, b"plain".to_vec());
    assert!(value(&res.headers, "content-length").is_none());
    assert!(value(&res.headers, "x-num").is_none());
    assert_eq!(value(&res.headers, "content-type"), Some(&b"text/plain".to_vec()));
    assert_eq!(res.headers.fields[0].name, b"content-type".to_vec());
    assert_eq!(value(&res.headers, "x-cheolsu-proxy-version"), Some(&b"v2".to_vec()));
    let empty = create_response_from_session(&SessionResponse {
        status: None,
        headers: Vec::new(),
        data: SessionData::Missing,
    });
    assert_eq!(empty.status, 200);
    assert!(empty.body.is_empty());
}

#[test]
fn malformed_rules_never_match() {
    let mut no_url = hello_rule();
    no_url.url = None;
    let mut no_method = hello_rule();
    no_method.method = None;
    let mut store = SessionStore::new();
    store.update_sessions(vec![no_url, no_method]);
    assert_eq!(store.find_matching_session(b"http://any.test/hello", b"GET"), None);
    assert!(matches!(plan_request(&store, b"GET", b"/anything"), RequestPlan::Forward));
}

#[test]
fn out_of_range_status_gives_200() {
    for status in [65737u64, 99, 1000, 70000] {
        let res = create_response_from_session(&SessionResponse {
            status: Some(status),
            headers: Vec::new(),
            data: SessionData::Missing,
        });
        assert_eq!(res.status, 200);
    }
    let ok = create_response_from_session(&SessionResponse {
        status: Some(999),
        headers: Vec::new(),
        data: SessionData::Missing,
    });
    assert_eq!(ok.status, 999);
}
