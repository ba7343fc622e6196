//! The request that asks the API for its rate-limit headers, and what the
//! meter reads from the answer.
use vstd::prelude::*;

use crate::http_date::{http_date_value, parse_http_date};
use crate::text::{
    decimal, is_digit, lemma_decimal_value, parse_u32, push_decimal, str_equal, u32_or_zero,
};

verus! {

/// The endpoint that is polled.
pub const API_URL: &'static str = "https://api.anthropic.com/v1/messages";

/// The JSON that comes before the model name in the request body.
pub const BODY_HEAD: &'static str = r#"{"model":""#;

/// The JSON that follows the model name: one output token for one short
/// user message, the smallest request the API answers with its rate-limit
/// headers.
pub const BODY_TAIL: &'static str = r#"","max_tokens":1,"messages":[{"role":"user","content":"hi"}]}"#;

/// The request body for the given model.
pub fn request_body(model: &str) -> (b: String)
    ensures
        b@ == BODY_HEAD@ + model@ + BODY_TAIL@,
{
    String::from_str(BODY_HEAD).concat(model).concat(BODY_TAIL)
}

/// The API version that is asked for.
pub const API_VERSION: &'static str = "2023-06-01";

pub const UTIL_5H_HEADER: &'static str = "anthropic-ratelimit-unified-5h-utilization";
pub const UTIL_7D_HEADER: &'static str = "anthropic-ratelimit-unified-7d-utilization";
pub const RESET_5H_HEADER: &'static str = "anthropic-ratelimit-unified-5h-reset";
pub const STATUS_HEADER: &'static str = "anthropic-ratelimit-unified-status";
pub const DATE_HEADER: &'static str = "date";

/// The message of the error for a refused token.
pub const INVALID_TOKEN_MESSAGE: &'static str = "invalid_token";

/// One request header.
pub struct Header {
    pub name: &'static str,
    pub value: String,
}

/// The headers of the polling request, in order: content type, content
/// length of `body`, bearer authorization with the token, API version.
pub fn request_headers(token: &str, body: &str) -> (h: Vec<Header>)
    ensures
        h@.len() == 4,
        h@[0].name@ == "content-type"@,
        h@[0].value@ == "application/json"@,
        h@[1].name@ == "content-length"@,
        h@[1].value@ == decimal(body.len() as nat),
        h@[2].name@ == "Authorization"@,
        h@[2].value@ == "Bearer "@ + token@,
        h@[3].name@ == "anthropic-version"@,
        h@[3].value@ == API_VERSION@,
{
    let mut length = String::new();
    push_decimal(&mut length, body.len() as u64);
    let bearer = String::from_str("Bearer ").concat(token);
    let mut h: Vec<Header> = Vec::new();
    h.push(Header { name: "content-type", value: String::from_str("application/json") });
    h.push(Header { name: "content-length", value: length });
    h.push(Header { name: "Authorization", value: bearer });
    h.push(Header { name: "anthropic-version", value: String::from_str(API_VERSION) });
    h
}

/// How an HTTP status is handled.
#[derive(PartialEq, Eq, Structural, Clone, Copy, Debug)]
pub enum StatusKind {
    /// 401 or 403: the token was refused; nothing is read.
    TokenRejected,
    /// 200.
    Success,
    /// Any other status: a warning, and the headers are read all the same.
    Unexpected,
}

pub open spec fn status_kind(status: u16) -> StatusKind {
    if status == 401 || status == 403 {
        StatusKind::TokenRejected
    } else if status == 200 {
        StatusKind::Success
    } else {
        StatusKind::Unexpected
    }
}

pub fn classify_status(status: u16) -> (k: StatusKind)
    ensures
        k == status_kind(status),
{
    if status == 401 || status == 403 {
        StatusKind::TokenRejected
    } else if status == 200 {
        StatusKind::Success
    } else {
        StatusKind::Unexpected
    }
}

/// The token is refused exactly on 401 and 403; 200 is success; every other
/// status, whatever its class, is unexpected and still has its headers read.
pub proof fn lemma_status_classes(status: u16)
    ensures
        status_kind(status) == StatusKind::TokenRejected <==> (status == 401 || status == 403),
        status_kind(status) == StatusKind::Success <==> status == 200,
        status != 200 && status != 401 && status != 403 ==> status_kind(status)
            == StatusKind::Unexpected,
{
}

/// The whole-number part of the answer: when the five-hour window resets,
/// the server's time, and whether requests are allowed.
#[derive(PartialEq, Eq, Structural, Clone, Copy, Debug)]
pub struct RateLimitFields {
    /// Unix time of the reset of the five-hour window, 0 when unknown.
    pub reset_5h: u32,
    /// Unix time of the answer, from its `Date` header, 0 when unknown.
    pub now_ts: u32,
    /// false only when the status header says `rejected`.
    pub allowed: bool,
}

pub open spec fn header_u32(v: Option<&str>) -> u32 {
    match v {
        Some(s) => u32_or_zero(s@),
        None => 0,
    }
}

pub open spec fn header_allows(v: Option<&str>) -> bool {
    match v {
        Some(s) => s@ != "rejected"@,
        None => true,
    }
}

pub open spec fn header_date(v: Option<&str>) -> u32 {
    match v {
        Some(s) => http_date_value(s@),
        None => 0,
    }
}

/// Reading the answer's headers: a reset header that is the decimal numeral
/// of a time gives that time, and a missing one gives 0; requests count as
/// refused only when the status header is there and reads `rejected`, and a
/// missing date gives 0.
pub proof fn lemma_header_readings(reset: &str, n: u32, status: Option<&str>)
    requires
        reset@ == decimal(n as nat),
    ensures
        header_u32(Some(reset)) == n,
        header_u32(None) == 0,
        !header_allows(status) <==> (status matches Some(v) && v@ == "rejected"@),
        header_date(None) == 0,
{
    lemma_decimal_value(n as nat);
    assert(is_digit(reset@[0]));
}

/// Reads the reset time, the status and the date from the headers of the
/// answer (each may be missing).
pub fn rate_limit_fields(reset: Option<&str>, status: Option<&str>, date: Option<&str>) -> (f:
    RateLimitFields)
    ensures
        f.reset_5h == header_u32(reset),
        f.allowed == header_allows(status),
        f.now_ts == header_date(date),
{
    let reset_5h = match reset {
        Some(v) => match parse_u32(v) {
            Some(n) => n,
            None => 0,
        },
        None => 0,
    };
    let allowed = match status {
        Some(v) => !str_equal(v, "rejected"),
        None => true,
    };
    let now_ts = match date {
        Some(v) => parse_http_date(v),
        None => 0,
    };
    RateLimitFields { reset_5h, now_ts, allowed }
}

} // verus!
