use clawdmeter::usage::{
    classify_status, rate_limit_fields, request_headers, RateLimitFields,
    StatusKind, request_body,
};

#[test]
fn request_headers_carry_the_token() {
    let body = request_body("some-model");
    assert_eq!(
        body,
        r#"{"model":"some-model","max_tokens":1,"messages":[{"role":"user","content":"hi"}]}"#
    );
    let h = request_headers("tok-123", &body);
    assert_eq!(h.len(), 4);
    assert_eq!((h[0].name, h[0].value.as_str()), ("content-type", "application/json"));
    assert_eq!(h[1].name, "content-length");
    assert_eq!(h[1].value, body.len().to_string());
    assert_eq!(h[1].value, "81");
    assert_eq!((h[2].name, h[2].value.as_str()), ("Authorization", "Bearer tok-123"));
    assert_eq!((h[3].name, h[3].value.as_str()), ("anthropic-version", "2023-06-01"));
}

#[test]
fn statuses() {
    assert_eq!(classify_status(401), StatusKind::TokenRejected);
    assert_eq!(classify_status(403), StatusKind::TokenRejected);
    assert_eq!(classify_status(200), StatusKind::Success);
    assert_eq!(classify_status(429), StatusKind::Unexpected);
    assert_eq!(classify_status(500), StatusKind::Unexpected);
}

#[test]
fn fields_from_headers() {
    let f = rate_limit_fields(Some("1778880000"), Some("allowed"), Some("Thu, 15 May 2026 17:18:08 GMT"));
    assert_eq!(f, RateLimitFields { reset_5h: 1_778_880_000, now_ts: 1_778_865_488, allowed: true });
    let f = rate_limit_fields(Some("soon"), Some("rejected"), None);
    assert_eq!(f, RateLimitFields { reset_5h: 0, now_ts: 0, allowed: false });
    let f = rate_limit_fields(None, None, Some("nonsense"));
    assert_eq!(f, RateLimitFields { reset_5h: 0, now_ts: 0, allowed: true });
    // Any status other than "rejected" allows requests.
    let f = rate_limit_fields(None, Some("allowed_warning"), None);
    assert!(f.allowed);
}

#[test]
fn oversized_date_header_reads_as_zero() {
    let f = rate_limit_fields(None, None, Some("1 2 3 4 5 6 7 8 9"));
    assert_eq!(f.now_ts, 0);
}
