use stark_backend::credits::{
    PaymentMode, PostEvent, PostFlow, PostStage, PostStep, SessionEvent, SessionFlow, SessionStep,
};
use stark_backend::url_parts::{
    credits_header_announces, erc8128_target, extract_host, is_x402_endpoint, parse_url_parts, CreditsHosts,
};

#[test]
fn host_is_taken_after_the_scheme() {
    assert_eq!(extract_host("https://api.example.com:8080/path"), "api.example.com:8080");
    assert_eq!(extract_host("http://localhost/x/y"), "localhost");
    assert_eq!(extract_host("example.org"), "example.org");
}

#[test]
fn url_parts_split_path_and_query() {
    assert_eq!(
        parse_url_parts("https://inference.defirelay.com/v1/chat?model=a&x=1"),
        ("inference.defirelay.com".to_string(), "/v1/chat".to_string(), Some("model=a&x=1".to_string()))
    );
    assert_eq!(parse_url_parts("https://host"), ("host".to_string(), "/".to_string(), None));
    assert_eq!(parse_url_parts("http://h/p?"), ("h".to_string(), "/p".to_string(), Some(String::new())));
}

#[test]
fn signed_path_always_starts_with_slash() {
    for u in ["https://a.b", "x", "http://h/q?z", "https://h?x=1", ""] {
        let (_, path, _) = parse_url_parts(u);
        assert!(path.starts_with('/'), "{}", u);
    }
}

#[test]
fn signing_target_uses_the_url_crate() {
    assert_eq!(
        erc8128_target("https://x402book.com:8443/api/post?a=1"),
        Ok(("x402book.com:8443".to_string(), "/api/post".to_string(), Some("a=1".to_string())))
    );
    assert_eq!(
        erc8128_target("https://x402book.com/api"),
        Ok(("x402book.com".to_string(), "/api".to_string(), None))
    );
    assert_eq!(erc8128_target("not a url"), Err("Invalid URL: relative URL without a base".to_string()));
}

#[test]
fn defirelay_urls_are_x402_endpoints() {
    assert!(is_x402_endpoint("https://inference.defirelay.com/v1"));
    assert!(is_x402_endpoint("https://x.defirelay.io"));
    assert!(!is_x402_endpoint("https://example.com"));
}

#[test]
fn credits_header_must_read_true() {
    assert!(credits_header_announces(Some("true")));
    assert!(!credits_header_announces(Some("True")));
    assert!(!credits_header_announces(None));
}

#[test]
fn credits_hosts_are_remembered_by_host() {
    let mut hosts = CreditsHosts::new();
    assert!(!hosts.is_credits_host("https://api.example.com/a"));
    hosts.mark_credits_host("https://api.example.com/a");
    assert!(hosts.is_credits_host("https://api.example.com/other?q"));
    assert!(!hosts.is_credits_host("https://other.example.com/a"));
    hosts.mark_credits_host("https://api.example.com/b");
    assert!(hosts.is_credits_host("http://api.example.com"));
}

#[test]
fn custom_endpoint_posts_plainly() {
    let mut f = PostFlow::new(PaymentMode::CustomEndpoint, true, true);
    assert!(matches!(f.next(PostEvent::Begin { body_error: None }), PostStep::SendPlain));
    assert!(matches!(f.next(PostEvent::Response { status: 402, credits_header: true }), PostStep::ReturnResponse));
    assert!(f.stage == PostStage::Finished);
}

#[test]
fn body_serialization_failure_fails_the_post() {
    let mut f = PostFlow::new(PaymentMode::Credits, false, false);
    match f.next(PostEvent::Begin { body_error: Some("boom".to_string()) }) {
        PostStep::Fail(m) => assert_eq!(m, "Failed to serialize request body: boom"),
        _ => panic!("expected failure"),
    }
}

#[test]
fn discovered_credits_host_is_marked_and_signed() {
    let mut f = PostFlow::new(PaymentMode::Credits, false, false);
    assert!(matches!(f.next(PostEvent::Begin { body_error: None }), PostStep::SendUnsigned));
    assert!(matches!(
        f.next(PostEvent::Response { status: 402, credits_header: true }),
        PostStep::MarkHostAndSendSigned
    ));
    match f.next(PostEvent::Response { status: 402, credits_header: false }) {
        PostStep::Fail(m) => assert_eq!(
            m,
            "Insufficient credits (ERC-8128 discovered but got 402). Top up your credits balance."
        ),
        _ => panic!("expected failure"),
    }
}

#[test]
fn a_402_without_credits_support_is_refused() {
    let mut f = PostFlow::new(PaymentMode::Credits, false, false);
    f.next(PostEvent::Begin { body_error: None });
    match f.next(PostEvent::Response { status: 402, credits_header: false }) {
        PostStep::Fail(m) => assert!(m.starts_with("Endpoint returned 402 but does not support credits")),
        _ => panic!("expected failure"),
    }
}

#[test]
fn known_host_signs_proactively_and_falls_back() {
    let mut f = PostFlow::new(PaymentMode::Credits, false, true);
    assert!(matches!(f.next(PostEvent::Begin { body_error: None }), PostStep::SendSigned));
    assert!(matches!(f.next(PostEvent::SignError("no key".to_string())), PostStep::SendUnsigned));
    assert!(matches!(f.next(PostEvent::Response { status: 200, credits_header: false }), PostStep::ReturnResponse));
}

#[test]
fn session_path_retries_once_with_a_fresh_token() {
    let mut s = SessionFlow::new();
    assert!(matches!(s.next(SessionEvent::Begin), SessionStep::FetchToken));
    match s.next(SessionEvent::Token(Ok("abc".to_string()))) {
        SessionStep::SendWithAuthorization(h) => assert_eq!(h, "Bearer abc"),
        _ => panic!("expected a send"),
    }
    assert!(matches!(s.next(SessionEvent::Response(401)), SessionStep::InvalidateAndFetchToken));
    match s.next(SessionEvent::Token(Ok("def".to_string()))) {
        SessionStep::SendWithAuthorization(h) => assert_eq!(h, "Bearer def"),
        _ => panic!("expected a send"),
    }
    assert!(matches!(s.next(SessionEvent::Response(200)), SessionStep::Accept));
}
