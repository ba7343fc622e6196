use clawdmeter::geometry::{Color565, Rect};
use clawdmeter::screen::{
    bar, error_screen, error_snippet, reset_label, snippet_fits, splash, status, usage_screen,
    Align, BarReading, DrawItem, Font, UsageView,
};
use clawdmeter::usage::RateLimitFields;

fn text(item: &DrawItem) -> Option<(String, i32, i32, Font, Align)> {
    match item {
        DrawItem::Text(t) => Some((t.text.clone(), t.x, t.y, t.font, t.align)),
        _ => None,
    }
}

fn fields(reset_5h: u32, now_ts: u32, allowed: bool) -> RateLimitFields {
    RateLimitFields { reset_5h, now_ts, allowed }
}

#[test]
fn countdown_label() {
    let label = reset_label(fields(1_000_000 + 2 * 3600 + 5 * 60 + 59, 1_000_000, true));
    assert_eq!(label.as_deref(), Some("resets in 2h 05m"));
    let label = reset_label(fields(1_000_000 + 27 * 3600, 1_000_000, true));
    assert_eq!(label.as_deref(), Some("resets in 27h 00m"));
    let label = reset_label(fields(101, 100, true));
    assert_eq!(label.as_deref(), Some("resets in 0h 00m"));
}

#[test]
fn no_countdown_without_both_times_or_when_past() {
    assert_eq!(reset_label(fields(0, 100, true)), None);
    assert_eq!(reset_label(fields(100, 0, true)), None);
    assert_eq!(reset_label(fields(100, 100, true)), None);
    assert_eq!(reset_label(fields(99, 100, true)), None);
}

#[test]
fn error_message_is_cut_at_forty_bytes() {
    let long = "x".repeat(50);
    assert!(snippet_fits(&long));
    assert_eq!(error_snippet(&long), "x".repeat(40));
    assert_eq!(error_snippet("invalid_token"), "invalid_token");
    // A two-byte character across byte 40 cannot be cut.
    let awkward = format!("{}é", "x".repeat(39));
    assert!(!snippet_fits(&awkward));
    let items = error_screen(&long);
    assert_eq!(items.len(), 3);
    assert_eq!(text(&items[1]).unwrap().0, "Error");
    assert_eq!(text(&items[2]).unwrap().0, "x".repeat(40));
}

#[test]
fn splash_and_status() {
    let items = splash();
    assert_eq!(items.len(), 3);
    assert!(matches!(items[0], DrawItem::Clear(c) if c == Color565::new(3, 6, 8)));
    assert_eq!(text(&items[1]).unwrap(), ("Clawdmeter".to_string(), 120, 110, Font::Large, Align::Center));
    assert_eq!(text(&items[2]).unwrap().0, "by esp32-rs");

    let items = status("Fetching...");
    assert!(matches!(items[0], DrawItem::Fill(r, _) if r == Rect::new(0, 224, 240, 16)));
    assert_eq!(text(&items[1]).unwrap(), ("Fetching...".to_string(), 120, 235, Font::Small, Align::Center));
}

#[test]
fn bars_are_clamped() {
    let green = Color565::new(0, 40, 0);
    let items = bar(56, 500, green);
    assert_eq!(items.len(), 2);
    assert!(matches!(items[0], DrawItem::Fill(r, c) if r == Rect::new(10, 56, 220, 8) && c == Color565::new(10, 20, 10)));
    assert!(matches!(items[1], DrawItem::Fill(r, c) if r == Rect::new(10, 56, 220, 8) && c == green));
    assert_eq!(bar(56, 0, green).len(), 1);
    assert_eq!(bar(56, -3, green).len(), 1);
    let items = bar(88, 99, green);
    assert!(matches!(items[1], DrawItem::Fill(r, _) if r == Rect::new(10, 88, 99, 8)));
}

#[test]
fn usage_screen_layout() {
    let view = UsageView {
        title: "Usage".to_string(),
        label_5h: "5h:  45.0%".to_string(),
        label_7d: "7d:  12.5%".to_string(),
        big_label: "45%".to_string(),
        bar_5h: BarReading { raw_fill: 99, color: Color565::new(0, 40, 0) },
        bar_7d: BarReading { raw_fill: 27, color: Color565::new(0, 40, 0) },
        fields: fields(7_200, 3_600, false),
    };
    let items = usage_screen(view);
    assert_eq!(items.len(), 13);
    assert_eq!(text(&items[2]).unwrap().0, "Usage");
    assert_eq!(text(&items[3]).unwrap(), ("5h:  45.0%".to_string(), 10, 50, Font::Small, Align::Left));
    assert_eq!(text(&items[6]).unwrap().0, "7d:  12.5%");
    assert_eq!(text(&items[9]).unwrap(), ("RATE LIMITED".to_string(), 120, 125, Font::Bold, Align::Center));
    assert_eq!(text(&items[10]).unwrap().0, "45%");
    assert_eq!(text(&items[11]).unwrap().0, "5h utilization");
    assert_eq!(text(&items[12]).unwrap(), ("resets in 1h 00m".to_string(), 120, 215, Font::Small, Align::Center));
}

#[test]
fn allowed_verdict_and_no_countdown() {
    let view = UsageView {
        title: "Usage".to_string(),
        label_5h: String::new(),
        label_7d: String::new(),
        big_label: String::new(),
        bar_5h: BarReading { raw_fill: 0, color: Color565::new(0, 40, 0) },
        bar_7d: BarReading { raw_fill: 0, color: Color565::new(0, 40, 0) },
        fields: fields(0, 0, true),
    };
    let items = usage_screen(view);
    assert_eq!(items.len(), 10);
    assert!(matches!(&items[7], DrawItem::Text(t) if t.text == "ALLOWED" && t.color == Color565::new(0, 40, 0)));
}
