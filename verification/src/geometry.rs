//! Rectangles on the pixel grid, their intersection, and RGB565 colours.
use embedded_graphics::geometry::{Point, Size};
use embedded_graphics::pixelcolor::Rgb565;
use embedded_graphics::prelude::IntoStorage;
use embedded_graphics::primitives::Rectangle;
use vstd::prelude::*;

verus! {

/// An axis-aligned rectangle: top-left corner and size in pixels.
#[derive(PartialEq, Eq, Structural, Clone, Copy, Debug)]
pub struct Rect {
    pub x: i32,
    pub y: i32,
    pub width: u32,
    pub height: u32,
}

impl Rect {
    /// No pixel lies in it.
    pub open spec fn is_empty(self) -> bool {
        self.width == 0 || self.height == 0
    }

    /// Its far edges are representable, so that its corners can be computed
    /// without overflow.
    pub open spec fn fits_i32(self) -> bool {
        &&& self.width <= i32::MAX
        &&& self.height <= i32::MAX
        &&& self.x + self.width <= i32::MAX
        &&& self.y + self.height <= i32::MAX
    }

    /// The pixel `(px, py)` lies in it.
    pub open spec fn contains(self, px: int, py: int) -> bool {
        self.x <= px < self.x + self.width && self.y <= py < self.y + self.height
    }

    pub fn new(x: i32, y: i32, width: u32, height: u32) -> (r: Rect)
        ensures
            r == (Rect { x, y, width, height }),
    {
        Rect { x, y, width, height }
    }

    /// Whether the far edges are representable (see `fits_i32`).
    pub fn edges_fit(&self) -> (r: bool)
        ensures
            r == self.fits_i32(),
    {
        self.width <= i32::MAX as u32 && self.height <= i32::MAX as u32
            && self.x as i64 + self.width as i64 <= i32::MAX as i64
            && self.y as i64 + self.height as i64 <= i32::MAX as i64
    }

    pub fn is_zero_sized(&self) -> (r: bool)
        ensures
            r == self.is_empty(),
    {
        self.width == 0 || self.height == 0
    }
}

pub open spec fn max_i(a: int, b: int) -> int {
    if a >= b {
        a
    } else {
        b
    }
}

pub open spec fn min_i(a: int, b: int) -> int {
    if a <= b {
        a
    } else {
        b
    }
}

/// Two non-empty rectangles share at least one pixel.
pub open spec fn overlap(a: Rect, b: Rect) -> bool {
    &&& a.x < b.x + b.width
    &&& b.x < a.x + a.width
    &&& a.y < b.y + b.height
    &&& b.y < a.y + a.height
}

/// The rectangle of the pixels common to two overlapping rectangles.
pub open spec fn common_part(a: Rect, b: Rect) -> Rect {
    let x = max_i(a.x as int, b.x as int);
    let y = max_i(a.y as int, b.y as int);
    Rect {
        x: x as i32,
        y: y as i32,
        width: (min_i(a.x + a.width, b.x + b.width) - x) as u32,
        height: (min_i(a.y + a.height, b.y + b.height) - y) as u32,
    }
}

/// Calls `Rectangle::intersection` of embedded-graphics. As its source
/// shows, two non-empty rectangles that share pixels give the rectangle of
/// the shared pixels; every other case gives a zero-sized rectangle. The
/// corners are computed in `i32`, hence the bound on the far edges.
#[verifier::external_body]
pub(crate) fn intersection(a: Rect, b: Rect) -> (r: Rect)
    requires
        a.fits_i32(),
        b.fits_i32(),
    ensures
        !a.is_empty() && !b.is_empty() && overlap(a, b) ==> r == common_part(a, b),
        !(!a.is_empty() && !b.is_empty() && overlap(a, b)) ==> r.is_empty(),
{
    let ra = Rectangle::new(Point::new(a.x, a.y), Size::new(a.width, a.height));
    let rb = Rectangle::new(Point::new(b.x, b.y), Size::new(b.width, b.height));
    let r = ra.intersection(&rb);
    Rect { x: r.top_left.x, y: r.top_left.y, width: r.size.width, height: r.size.height }
}

/// A colour given by its 5-bit red, 6-bit green and 5-bit blue channels.
#[derive(PartialEq, Eq, Structural, Clone, Copy, Debug)]
pub struct Color565 {
    pub r: u8,
    pub g: u8,
    pub b: u8,
}

/// The 16-bit RGB565 word of a colour: red in the top five bits, green in
/// the middle six, blue in the low five; channel bits beyond those are
/// dropped.
pub open spec fn rgb565_word(c: Color565) -> u16 {
    ((c.r % 32) as int * 2048 + (c.g % 64) as int * 32 + (c.b % 32) as int) as u16
}

/// The word of a colour whose channels are in range gives each channel back:
/// red from the top five bits, green from the middle six, blue from the low
/// five.
pub proof fn lemma_rgb565_reads_back(c: Color565)
    requires
        c.r < 32,
        c.g < 64,
        c.b < 32,
    ensures
        rgb565_word(c) / 2048 == c.r,
        (rgb565_word(c) / 32) % 64 == c.g,
        rgb565_word(c) % 32 == c.b,
{
}

/// Calls `Rgb565::new` and `IntoStorage::into_storage` of embedded-graphics:
/// by their documentation and source, too large channel values are cut to
/// their low bits and the channels are packed red-green-blue from the most
/// significant bit.
#[verifier::external_body]
fn rgb565_storage(r: u8, g: u8, b: u8) -> (v: u16)
    ensures
        v == (r % 32) as int * 2048 + (g % 64) as int * 32 + (b % 32) as int,
{
    Rgb565::new(r, g, b).into_storage()
}

impl Color565 {
    pub fn new(r: u8, g: u8, b: u8) -> (c: Color565)
        ensures
            c == (Color565 { r, g, b }),
    {
        Color565 { r, g, b }
    }

    /// The RGB565 word sent to the panel for this colour.
    pub fn word(&self) -> (v: u16)
        ensures
            v == rgb565_word(*self),
    {
        rgb565_storage(self.r, self.g, self.b)
    }
}

} // verus!
