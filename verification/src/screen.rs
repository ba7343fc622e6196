//! What each screen of the meter shows: a list of fills and texts, laid out
//! on the 240×240 panel, that the renderer draws in order.
use vstd::prelude::*;
use vstd::string::StringSliceAdditionalSpecFns;

use crate::geometry::{Color565, Rect};
use crate::text::{decimal, push_decimal, push_two_digits, two_digits};
use crate::usage::RateLimitFields;

verus! {

pub const SCREEN_W: i32 = 240;
pub const SCREEN_H: i32 = 240;

/// Left margin of left-aligned text and of the bars.
pub const MARGIN: i32 = 10;
/// Width of a usage bar: the screen less both margins.
pub const BAR_W: i32 = 220;
/// Height of a usage bar.
pub const BAR_H: i32 = 8;
/// Most bytes of an error message that are shown.
pub const ERROR_SNIPPET_BYTES: usize = 40;

// ───────────────────────────────── colours ─────────────────────────────────

pub open spec fn rgb(r: u8, g: u8, b: u8) -> Color565 {
    Color565 { r, g, b }
}

pub fn black() -> (c: Color565)
    ensures
        c == rgb(0, 0, 0),
{
    Color565 { r: 0, g: 0, b: 0 }
}

pub fn white() -> (c: Color565)
    ensures
        c == rgb(31, 63, 31),
{
    Color565 { r: 31, g: 63, b: 31 }
}

pub fn claude_orange() -> (c: Color565)
    ensures
        c == rgb(31, 20, 4),
{
    Color565 { r: 31, g: 20, b: 4 }
}

pub fn claude_dark() -> (c: Color565)
    ensures
        c == rgb(3, 6, 8),
{
    Color565 { r: 3, g: 6, b: 8 }
}

pub fn green() -> (c: Color565)
    ensures
        c == rgb(0, 40, 0),
{
    Color565 { r: 0, g: 40, b: 0 }
}

pub fn yellow() -> (c: Color565)
    ensures
        c == rgb(31, 50, 0),
{
    Color565 { r: 31, g: 50, b: 0 }
}

pub fn red() -> (c: Color565)
    ensures
        c == rgb(31, 10, 2),
{
    Color565 { r: 31, g: 10, b: 2 }
}

/// The colour of the empty part of a bar.
pub fn bar_track() -> (c: Color565)
    ensures
        c == rgb(10, 20, 10),
{
    Color565 { r: 10, g: 20, b: 10 }
}

// ───────────────────────────────── items ─────────────────────────────────

/// The three monospaced fonts in use: 6×10, bold 9×18 and 10×20 pixels.
#[derive(PartialEq, Eq, Structural, Clone, Copy, Debug)]
pub enum Font {
    Small,
    Bold,
    Large,
}

/// Where the anchor point sits on the text's baseline.
#[derive(PartialEq, Eq, Structural, Clone, Copy, Debug)]
pub enum Align {
    Left,
    Center,
}

#[derive(Debug)]
pub struct TextItem {
    pub text: String,
    pub x: i32,
    pub y: i32,
    pub color: Color565,
    pub font: Font,
    pub align: Align,
}

/// One drawing step.
#[derive(Debug)]
pub enum DrawItem {
    /// Fill the whole screen.
    Clear(Color565),
    /// Fill a rectangle.
    Fill(Rect, Color565),
    Text(TextItem),
}

/// A drawing step as a value.
pub enum Draw {
    Clear(Color565),
    Fill(Rect, Color565),
    Text(Seq<char>, i32, i32, Color565, Font, Align),
}

impl View for DrawItem {
    type V = Draw;

    open spec fn view(&self) -> Draw {
        match self {
            DrawItem::Clear(c) => Draw::Clear(*c),
            DrawItem::Fill(r, c) => Draw::Fill(*r, *c),
            DrawItem::Text(t) => Draw::Text(t.text@, t.x, t.y, t.color, t.font, t.align),
        }
    }
}

pub open spec fn items_view(v: Seq<DrawItem>) -> Seq<Draw> {
    v.map_values(|d: DrawItem| d@)
}

/// Text centred on the screen's middle column, on baseline `y`.
pub open spec fn centered(s: Seq<char>, y: i32, color: Color565, font: Font) -> Draw {
    Draw::Text(s, 120, y, color, font, Align::Center)
}

/// Text starting at the left margin, on baseline `y`.
pub open spec fn left(s: Seq<char>, y: i32, color: Color565, font: Font) -> Draw {
    Draw::Text(s, 10, y, color, font, Align::Left)
}

fn text_center(s: String, y: i32, color: Color565, font: Font) -> (d: DrawItem)
    ensures
        d@ == centered(s@, y, color, font),
{
    DrawItem::Text(TextItem { text: s, x: SCREEN_W / 2, y, color, font, align: Align::Center })
}

fn text_left(s: String, y: i32, color: Color565, font: Font) -> (d: DrawItem)
    ensures
        d@ == left(s@, y, color, font),
{
    DrawItem::Text(TextItem { text: s, x: MARGIN, y, color, font, align: Align::Left })
}

// ───────────────────────────────── screens ─────────────────────────────────

pub open spec fn splash_spec() -> Seq<Draw> {
    seq![
        Draw::Clear(rgb(3, 6, 8)),
        centered("Clawdmeter"@, 110, rgb(31, 20, 4), Font::Large),
        centered("by esp32-rs"@, 135, rgb(31, 63, 31), Font::Small),
    ]
}

/// The start-up screen: the name and the maker.
pub fn splash() -> (v: Vec<DrawItem>)
    ensures
        items_view(v@) == splash_spec(),
{
    let mut v: Vec<DrawItem> = Vec::new();
    v.push(DrawItem::Clear(claude_dark()));
    v.push(text_center(String::from_str("Clawdmeter"), SCREEN_H / 2 - 10, claude_orange(), Font::Large));
    v.push(text_center(String::from_str("by esp32-rs"), SCREEN_H / 2 + 15, white(), Font::Small));
    assert(items_view(v@) =~= splash_spec());
    v
}

pub open spec fn status_spec(msg: Seq<char>) -> Seq<Draw> {
    seq![
        Draw::Fill(Rect { x: 0, y: 224, width: 240, height: 16 }, rgb(3, 6, 8)),
        centered(msg, 235, rgb(31, 63, 31), Font::Small),
    ]
}

/// A status line in a strip along the bottom edge; the rest of the screen
/// is left as it is.
pub fn status(msg: &str) -> (v: Vec<DrawItem>)
    ensures
        items_view(v@) == status_spec(msg@),
{
    let mut v: Vec<DrawItem> = Vec::new();
    v.push(DrawItem::Fill(Rect::new(0, SCREEN_H - 16, SCREEN_W as u32, 16), claude_dark()));
    v.push(text_center(String::from_str(msg), SCREEN_H - 5, white(), Font::Small));
    assert(items_view(v@) =~= status_spec(msg@));
    v
}

/// The status line keeps to the bottom strip: its one fill covers rows 224
/// to 239 across the screen in the dark background, and its text is the
/// message itself, white, centred, set in the small font on the baseline of
/// row 235, inside the strip. (Where the glyphs fall around that baseline is
/// the font renderer's matter.)
pub proof fn lemma_status_within_strip(msg: Seq<char>)
    ensures
        status_spec(msg).len() == 2,
        status_spec(msg)[0] matches Draw::Fill(r, _) && r.x == 0 && r.y == 224 && r.width == 240
            && r.height == 16,
        status_spec(msg)[1] matches Draw::Text(_, _, y, _, font, _) && 224 <= y < 240 && font
            == Font::Small,
        status_spec(msg)[0] matches Draw::Fill(_, c) && c == rgb(3, 6, 8),
        status_spec(msg)[1] == Draw::Text(msg, 120, 235, rgb(31, 63, 31), Font::Small, Align::Center),
{
}

/// Bytes of an error message that are shown: at most forty.
pub open spec fn snippet_len(msg: &str) -> int {
    if msg.len() < ERROR_SNIPPET_BYTES {
        msg.len() as int
    } else {
        ERROR_SNIPPET_BYTES as int
    }
}

/// An error message is shown whole when it has at most forty bytes, and
/// otherwise by its first forty bytes.
pub proof fn lemma_snippet_length(msg: &str)
    ensures
        msg.len() <= 40 ==> snippet_len(msg) == msg.len(),
        msg.len() >= 40 ==> snippet_len(msg) == 40,
{
}

/// The cut after the shown bytes falls between two characters.
pub open spec fn snippet_cuttable(msg: &str) -> bool {
    vstd::utf8::is_char_boundary(msg.spec_bytes(), snippet_len(msg))
}

/// The characters of the shown bytes.
pub open spec fn snippet_chars(msg: &str) -> Seq<char> {
    vstd::utf8::decode_utf8(msg.spec_bytes().subrange(0, snippet_len(msg)))
}

/// Whether `error_screen` may be given `msg`.
pub fn snippet_fits(msg: &str) -> (r: bool)
    ensures
        r == snippet_cuttable(msg),
{
    let n = if msg.len() < ERROR_SNIPPET_BYTES { msg.len() } else { ERROR_SNIPPET_BYTES };
    msg.is_char_boundary(n)
}

/// The first (at most) forty bytes of an error message.
pub fn error_snippet(msg: &str) -> (r: &str)
    requires
        snippet_cuttable(msg),
    ensures
        r.spec_bytes() == msg.spec_bytes().subrange(0, snippet_len(msg)),
        r@ == snippet_chars(msg),
{
    let n = if msg.len() < ERROR_SNIPPET_BYTES { msg.len() } else { ERROR_SNIPPET_BYTES };
    let (head, _) = msg.split_at(n);
    proof {
        vstd::utf8::encode_utf8_decode_utf8(head@);
    }
    head
}

pub open spec fn error_spec(msg: &str) -> Seq<Draw> {
    seq![
        Draw::Clear(rgb(3, 6, 8)),
        centered("Error"@, 90, rgb(31, 10, 2), Font::Bold),
        centered(snippet_chars(msg), 130, rgb(31, 63, 31), Font::Small),
    ]
}

/// The error screen: a heading and the start of the message.
pub fn error_screen(msg: &str) -> (v: Vec<DrawItem>)
    requires
        snippet_cuttable(msg),
    ensures
        items_view(v@) == error_spec(msg),
{
    let mut v: Vec<DrawItem> = Vec::new();
    v.push(DrawItem::Clear(claude_dark()));
    v.push(text_center(String::from_str("Error"), 90, red(), Font::Bold));
    v.push(text_center(String::from_str(error_snippet(msg)), 130, white(), Font::Small));
    assert(items_view(v@) =~= error_spec(msg));
    v
}

// ─────────────────────────────── usage screen ───────────────────────────────

/// The filled width of a bar: the width the utilization gives, held to the
/// bar.
pub open spec fn clamp_fill(raw: i32) -> i32 {
    if raw < 0 {
        0
    } else if raw > BAR_W {
        BAR_W
    } else {
        raw
    }
}

/// The filled part of a bar lies within its track.
pub proof fn lemma_fill_within_track(raw: i32)
    ensures
        0 <= clamp_fill(raw) <= BAR_W,
        raw >= 0 && raw <= BAR_W ==> clamp_fill(raw) == raw,
        raw < 0 ==> clamp_fill(raw) == 0,
        raw > BAR_W ==> clamp_fill(raw) == BAR_W,
{
}

pub open spec fn bar_spec(y: i32, raw: i32, color: Color565) -> Seq<Draw> {
    let track = seq![
        Draw::Fill(Rect { x: 10, y, width: 220, height: 8 }, rgb(10, 20, 10)),
    ];
    if clamp_fill(raw) > 0 {
        track.push(
            Draw::Fill(Rect { x: 10, y, width: clamp_fill(raw) as u32, height: 8 }, color),
        )
    } else {
        track
    }
}

/// A usage bar: the track, then the filled part from the left, if any.
/// `raw` is the filled width that the utilization gives before clamping.
pub fn bar(y: i32, raw: i32, color: Color565) -> (v: Vec<DrawItem>)
    ensures
        items_view(v@) == bar_spec(y, raw, color),
{
    let mut v: Vec<DrawItem> = Vec::new();
    v.push(DrawItem::Fill(Rect::new(MARGIN, y, BAR_W as u32, BAR_H as u32), bar_track()));
    let fill_w = if raw < 0 {
        0
    } else if raw > BAR_W {
        BAR_W
    } else {
        raw
    };
    if fill_w > 0 {
        v.push(DrawItem::Fill(Rect::new(MARGIN, y, fill_w as u32, BAR_H as u32), color));
    }
    assert(items_view(v@) =~= bar_spec(y, raw, color));
    v
}

/// Seconds until the five-hour window resets, when both times are known
/// and the reset lies ahead.
pub open spec fn seconds_to_reset(f: RateLimitFields) -> Option<u32> {
    if f.reset_5h > 0 && f.now_ts > 0 && f.reset_5h > f.now_ts {
        Some((f.reset_5h - f.now_ts) as u32)
    } else {
        None
    }
}

/// "resets in {hours}h {minutes, two digits}m".
pub open spec fn reset_text(secs: u32) -> Seq<char> {
    "resets in "@ + decimal((secs / 3600) as nat) + "h "@ + two_digits(((secs % 3600) / 60) as nat) + "m"@
}

/// There is a countdown exactly when the server's time is known and the
/// reset lies after it; it then counts the seconds from the one to the other.
pub proof fn lemma_seconds_to_reset(f: RateLimitFields)
    ensures
        seconds_to_reset(f) is Some <==> 0 < f.now_ts && f.now_ts < f.reset_5h,
        seconds_to_reset(f) matches Some(secs) ==> f.now_ts + secs == f.reset_5h,
{
}

/// The countdown line names whole hours `h` and minutes `m` below sixty that
/// account for the remaining seconds to within the minute that has begun:
/// `h` is the number of whole hours left, `m` that of whole minutes past it.
pub proof fn lemma_reset_text_reads_back(secs: u32)
    ensures
        exists|h: nat, m: nat|
            #![trigger decimal(h), two_digits(m)]
            reset_text(secs) == "resets in "@ + decimal(h) + "h "@ + two_digits(m) + "m"@ && m
                < 60 && h * 3600 + m * 60 <= secs && secs < h * 3600 + m * 60 + 60,
{
    let h = (secs / 3600) as nat;
    let m = ((secs % 3600) / 60) as nat;
    assert(m < 60 && h * 3600 + m * 60 <= secs && secs < h * 3600 + m * 60 + 60);
    assert(reset_text(secs) == "resets in "@ + decimal(h) + "h "@ + two_digits(m) + "m"@);
}

/// The countdown line, when there is one.
pub fn reset_label(f: RateLimitFields) -> (r: Option<String>)
    ensures
        r is Some <==> seconds_to_reset(f) is Some,
        r matches Some(s) ==> s@ == reset_text(seconds_to_reset(f)->0),
        r is Some <==> 0 < f.now_ts && f.now_ts < f.reset_5h,
        r matches Some(s) ==> exists|h: nat, m: nat|
            #![trigger decimal(h), two_digits(m)]
            s@ == "resets in "@ + decimal(h) + "h "@ + two_digits(m) + "m"@ && m < 60 && f.now_ts
                + h * 3600 + m * 60 <= f.reset_5h && f.reset_5h < f.now_ts + h * 3600 + m * 60
                + 60,
{
    proof {
        lemma_seconds_to_reset(f);
        if let Some(secs) = seconds_to_reset(f) {
            lemma_reset_text_reads_back(secs);
        }
    }
    if f.reset_5h > 0 && f.now_ts > 0 && f.reset_5h > f.now_ts {
        let secs = f.reset_5h - f.now_ts;
        let mut s = String::from_str("resets in ");
        push_decimal(&mut s, (secs / 3600) as u64);
        s.append("h ");
        push_two_digits(&mut s, (secs % 3600) / 60);
        s.append("m");
        Some(s)
    } else {
        None
    }
}

/// The whole minutes and hours of the countdown are those of the remaining
/// seconds: `h` hours and `m < 60` minutes cover the seconds to within the
/// minute that has begun.
pub proof fn lemma_countdown_covers(secs: u32)
    ensures
        (secs / 3600) * 3600 + ((secs % 3600) / 60) * 60 <= secs,
        secs < (secs / 3600) * 3600 + ((secs % 3600) / 60) * 60 + 60,
        (secs % 3600) / 60 < 60,
{
}

/// What a bar shows, as worked out from the utilization: the filled width
/// before clamping and the colour of the fill.
#[derive(PartialEq, Eq, Structural, Clone, Copy, Debug)]
pub struct BarReading {
    pub raw_fill: i32,
    pub color: Color565,
}

/// Everything the usage screen shows.
pub struct UsageView {
    /// The heading in the title bar.
    pub title: String,
    /// "5h:  {percent, one decimal}%".
    pub label_5h: String,
    /// "7d:  {percent, one decimal}%".
    pub label_7d: String,
    /// "{percent of the five-hour window, no decimals}%".
    pub big_label: String,
    pub bar_5h: BarReading,
    pub bar_7d: BarReading,
    pub fields: RateLimitFields,
}

/// The verdict line: its text and colour.
pub open spec fn verdict(allowed: bool) -> (Seq<char>, Color565) {
    if allowed {
        ("ALLOWED"@, rgb(0, 40, 0))
    } else {
        ("RATE LIMITED"@, rgb(31, 10, 2))
    }
}

pub open spec fn usage_spec(u: UsageView) -> Seq<Draw> {
    let all = usage_body(u);
    match seconds_to_reset(u.fields) {
        Some(secs) => all.push(centered(reset_text(secs), 215, rgb(31, 63, 31), Font::Small)),
        None => all,
    }
}

/// The usage screen without the countdown line.
pub open spec fn usage_body(u: UsageView) -> Seq<Draw> {
    let head = seq![
        Draw::Clear(rgb(3, 6, 8)),
        Draw::Fill(Rect { x: 0, y: 0, width: 240, height: 28 }, rgb(31, 20, 4)),
        centered(u.title@, 18, rgb(0, 0, 0), Font::Bold),
        left(u.label_5h@, 50, rgb(31, 63, 31), Font::Small),
    ];
    let mid = seq![left(u.label_7d@, 82, rgb(31, 63, 31), Font::Small)];
    let tail = seq![
        centered(verdict(u.fields.allowed).0, 125, verdict(u.fields.allowed).1, Font::Bold),
        centered(u.big_label@, 170, rgb(31, 20, 4), Font::Large),
        centered("5h utilization"@, 188, rgb(31, 63, 31), Font::Small),
    ];
    head + bar_spec(56, u.bar_5h.raw_fill, u.bar_5h.color) + mid + bar_spec(
        88,
        u.bar_7d.raw_fill,
        u.bar_7d.color,
    ) + tail
}

fn append_items(v: &mut Vec<DrawItem>, mut more: Vec<DrawItem>)
    ensures
        items_view(final(v)@) == items_view(old(v)@) + items_view(more@),
{
    let ghost a = v@;
    let ghost b = more@;
    v.append(&mut more);
    assert(items_view(v@) =~= items_view(a) + items_view(b));
}

/// The usage screen: title bar, both windows with their bars, the verdict,
/// the five-hour figure and, when known, the time to its reset.
pub fn usage_screen(u: UsageView) -> (v: Vec<DrawItem>)
    ensures
        items_view(v@) == usage_spec(u),
{
    let ghost g = u;
    let UsageView { title, label_5h, label_7d, big_label, bar_5h, bar_7d, fields } = u;
    let mut v: Vec<DrawItem> = Vec::new();
    v.push(DrawItem::Clear(claude_dark()));
    v.push(DrawItem::Fill(Rect::new(0, 0, SCREEN_W as u32, 28), claude_orange()));
    v.push(text_center(title, 18, black(), Font::Bold));
    v.push(text_left(label_5h, 50, white(), Font::Small));
    append_items(&mut v, bar(56, bar_5h.raw_fill, bar_5h.color));
    let mut mid: Vec<DrawItem> = Vec::new();
    mid.push(text_left(label_7d, 82, white(), Font::Small));
    append_items(&mut v, mid);
    append_items(&mut v, bar(88, bar_7d.raw_fill, bar_7d.color));
    let (word, color) = if fields.allowed {
        (String::from_str("ALLOWED"), green())
    } else {
        (String::from_str("RATE LIMITED"), red())
    };
    let mut tail: Vec<DrawItem> = Vec::new();
    tail.push(text_center(word, 125, color, Font::Bold));
    tail.push(text_center(big_label, 170, claude_orange(), Font::Large));
    tail.push(text_center(String::from_str("5h utilization"), 188, white(), Font::Small));
    append_items(&mut v, tail);
    assert(items_view(v@) =~= usage_body(g));
    match reset_label(fields) {
        Some(s) => {
            v.push(text_center(s, 215, white(), Font::Small));
        },
        None => {},
    }
    v
}

// ─────────────────────────────── layout laws ───────────────────────────────

/// The splash screen starts by clearing the whole screen to the dark
/// background, then sets the name in large orange letters and the maker in
/// small white ones, both centred.
pub proof fn lemma_splash_layout()
    ensures
        splash_spec().len() == 3,
        splash_spec()[0] == Draw::Clear(rgb(3, 6, 8)),
        splash_spec()[1] == Draw::Text(
            "Clawdmeter"@,
            120,
            110,
            rgb(31, 20, 4),
            Font::Large,
            Align::Center,
        ),
        splash_spec()[2] == Draw::Text(
            "by esp32-rs"@,
            120,
            135,
            rgb(31, 63, 31),
            Font::Small,
            Align::Center,
        ),
{
}

/// The error screen starts by clearing the whole screen to the dark
/// background, so nothing of an earlier screen stays; then the heading
/// "Error" in bold red and the start of the message in small white letters,
/// both centred. Nothing else is drawn.
pub proof fn lemma_error_layout(msg: &str)
    ensures
        error_spec(msg).len() == 3,
        error_spec(msg)[0] == Draw::Clear(rgb(3, 6, 8)),
        error_spec(msg)[1] == Draw::Text(
            "Error"@,
            120,
            90,
            rgb(31, 10, 2),
            Font::Bold,
            Align::Center,
        ),
        error_spec(msg)[2] == Draw::Text(
            snippet_chars(msg),
            120,
            130,
            rgb(31, 63, 31),
            Font::Small,
            Align::Center,
        ),
{
}

/// The usage screen, step by step: it clears the whole screen to the dark
/// background; draws the orange title bar and the heading in it; then the
/// five-hour label, the bar track on row 56 and, where the five-hour reading
/// fills any of it, that fill from the left in the reading's colour; then the
/// seven-day label, the track on row 88 and the fill of the seven-day
/// reading; the verdict, green "ALLOWED" or red "RATE LIMITED"; the big
/// five-hour figure and its caption; and last, when the reset lies ahead,
/// the countdown.
pub proof fn lemma_usage_layout(u: UsageView)
    ensures
        ({
            let s = usage_spec(u);
            let w5 = clamp_fill(u.bar_5h.raw_fill);
            let w7 = clamp_fill(u.bar_7d.raw_fill);
            let k: int = if w5 > 0 { 6 } else { 5 };
            let j: int = if w7 > 0 { k + 3 } else { k + 2 };
            let white = rgb(31, 63, 31);
            &&& s.len() == j + 3 + (if seconds_to_reset(u.fields) is Some { 1int } else { 0 })
            &&& s[0] == Draw::Clear(rgb(3, 6, 8))
            &&& s[1] == Draw::Fill(Rect { x: 0, y: 0, width: 240, height: 28 }, rgb(31, 20, 4))
            &&& s[2] == Draw::Text(u.title@, 120, 18, rgb(0, 0, 0), Font::Bold, Align::Center)
            &&& s[3] == Draw::Text(u.label_5h@, 10, 50, white, Font::Small, Align::Left)
            &&& s[4] == Draw::Fill(Rect { x: 10, y: 56, width: 220, height: 8 }, rgb(10, 20, 10))
            &&& w5 > 0 ==> s[5] == Draw::Fill(
                Rect { x: 10, y: 56, width: w5 as u32, height: 8 },
                u.bar_5h.color,
            )
            &&& s[k] == Draw::Text(u.label_7d@, 10, 82, white, Font::Small, Align::Left)
            &&& s[k + 1] == Draw::Fill(
                Rect { x: 10, y: 88, width: 220, height: 8 },
                rgb(10, 20, 10),
            )
            &&& w7 > 0 ==> s[k + 2] == Draw::Fill(
                Rect { x: 10, y: 88, width: w7 as u32, height: 8 },
                u.bar_7d.color,
            )
            &&& s[j] == Draw::Text(
                if u.fields.allowed { "ALLOWED"@ } else { "RATE LIMITED"@ },
                120,
                125,
                if u.fields.allowed { rgb(0, 40, 0) } else { rgb(31, 10, 2) },
                Font::Bold,
                Align::Center,
            )
            &&& s[j + 1] == Draw::Text(u.big_label@, 120, 170, rgb(31, 20, 4), Font::Large, Align::Center)
            &&& s[j + 2] == Draw::Text("5h utilization"@, 120, 188, white, Font::Small, Align::Center)
            &&& seconds_to_reset(u.fields) matches Some(secs) ==> s[j + 3] == Draw::Text(
                reset_text(secs),
                120,
                215,
                white,
                Font::Small,
                Align::Center,
            )
        }),
{
    let s = usage_spec(u);
    let b = usage_body(u);
    let b5 = bar_spec(56, u.bar_5h.raw_fill, u.bar_5h.color);
    let b7 = bar_spec(88, u.bar_7d.raw_fill, u.bar_7d.color);
    assert(forall|i: int| 0 <= i < b.len() ==> s[i] == b[i]);
    let head = seq![
        Draw::Clear(rgb(3, 6, 8)),
        Draw::Fill(Rect { x: 0, y: 0, width: 240, height: 28 }, rgb(31, 20, 4)),
        centered(u.title@, 18, rgb(0, 0, 0), Font::Bold),
        left(u.label_5h@, 50, rgb(31, 63, 31), Font::Small),
    ];
    let mid = seq![left(u.label_7d@, 82, rgb(31, 63, 31), Font::Small)];
    let tail = seq![
        centered(verdict(u.fields.allowed).0, 125, verdict(u.fields.allowed).1, Font::Bold),
        centered(u.big_label@, 170, rgb(31, 20, 4), Font::Large),
        centered("5h utilization"@, 188, rgb(31, 63, 31), Font::Small),
    ];
    let p1 = head + b5;
    let p2 = p1 + mid;
    let p3 = p2 + b7;
    assert(b == p3 + tail);
    let k: int = if clamp_fill(u.bar_5h.raw_fill) > 0 { 6 } else { 5 };
    let j: int = if clamp_fill(u.bar_7d.raw_fill) > 0 { k + 3 } else { k + 2 };
    assert(p1.len() == k && p2.len() == k + 1 && p3.len() == j);
}

} // verus!
