use clawdmeter::poll::{after_poll, AfterPoll, CONNECTING_MESSAGE, FETCHING_MESSAGE, POLL_MS};

#[test]
fn polls_every_minute() {
    assert_eq!(POLL_MS, 60_000);
    let (next, wait) = after_poll::<u32, &str>(Ok(5));
    assert!(matches!(next, AfterPoll::Usage(5)));
    assert_eq!(wait, 60_000);
    let (next, wait) = after_poll::<u32, &str>(Err("invalid_token"));
    assert!(matches!(next, AfterPoll::Error("invalid_token")));
    assert_eq!(wait, 60_000);
}

#[test]
fn status_lines() {
    assert_eq!(CONNECTING_MESSAGE, "Connecting WiFi...");
    assert_eq!(FETCHING_MESSAGE, "Fetching...");
}
