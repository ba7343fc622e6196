//! A model of the ST7789's frame memory as the bus operations change it,
//! and the laws that follow: a pixel operation sets its pixel, and filling a
//! rectangle leaves the panel as drawing each of its pixels does.
use vstd::prelude::*;

use crate::geometry::{common_part, overlap, Rect};
use crate::st7789::{
    be16, fill_sequence, pixel_row, pixel_sequence, screen, window_spec, Op, CASET, RAMWR, RASET,
};

verus! {

/// The panel's state: the colour of each pixel, the last command, the
/// address window, the write position and a pending first byte of a pixel.
pub struct Panel {
    pub pixels: spec_fn(int, int) -> u16,
    pub cmd: u8,
    pub xs: int,
    pub xe: int,
    pub ys: int,
    pub ye: int,
    pub x: int,
    pub y: int,
    pub hi: Option<u8>,
}

/// A coordinate sent as two bytes, most significant first.
pub open spec fn coordinate(d: Seq<u8>, i: int) -> int {
    d[i] as int * 256 + d[i + 1] as int
}

/// Writes one pixel at the write position and moves it on: along the row
/// up to the window's right edge, then to the start of the next row (after
/// the last row, back to the first).
pub open spec fn put_pixel(p: Panel, w: u16) -> Panel {
    let f = p.pixels;
    let (px, py) = (p.x, p.y);
    Panel {
        pixels: |a: int, b: int|
            if a == px && b == py {
                w
            } else {
                f(a, b)
            },
        x: if p.x < p.xe {
            p.x + 1
        } else {
            p.xs
        },
        y: if p.x < p.xe {
            p.y
        } else if p.y < p.ye {
            p.y + 1
        } else {
            p.ys
        },
        hi: None,
        ..p
    }
}

/// Memory-write data: bytes pair up, high byte first, into pixels.
pub open spec fn write_bytes(p: Panel, d: Seq<u8>) -> Panel
    decreases d.len(),
{
    if d.len() == 0 {
        p
    } else {
        match p.hi {
            None => write_bytes(Panel { hi: Some(d[0]), ..p }, d.drop_first()),
            Some(h) => write_bytes(put_pixel(p, (h as int * 256 + d[0] as int) as u16), d.drop_first()),
        }
    }
}

/// One bus operation: a command selects what the data that follow mean;
/// column and row address data set the window; memory write starts at the
/// window's top-left corner.
pub open spec fn apply(p: Panel, op: Op) -> Panel {
    match op {
        Op::Command(c) => if c == RAMWR {
            Panel { cmd: c, x: p.xs, y: p.ys, hi: None, ..p }
        } else {
            Panel { cmd: c, hi: None, ..p }
        },
        Op::Data(d) => if p.cmd == CASET && d.len() == 4 {
            Panel { xs: coordinate(d, 0), xe: coordinate(d, 2), ..p }
        } else if p.cmd == RASET && d.len() == 4 {
            Panel { ys: coordinate(d, 0), ye: coordinate(d, 2), ..p }
        } else if p.cmd == RAMWR {
            write_bytes(p, d)
        } else {
            p
        },
        Op::DelayMs(_) => p,
    }
}

/// The panel after a sequence of bus operations.
pub open spec fn run(p: Panel, ops: Seq<Op>) -> Panel
    decreases ops.len(),
{
    if ops.len() == 0 {
        p
    } else {
        run(apply(p, ops[0]), ops.drop_first())
    }
}

/// The panel after the pixel operations of each point, in order, with one
/// colour.
pub open spec fn draw_points(p: Panel, pts: Seq<(int, int)>, word: u16) -> Panel
    decreases pts.len(),
{
    if pts.len() == 0 {
        p
    } else {
        draw_points(run(p, pixel_sequence(pts[0].0, pts[0].1, word)), pts.drop_first(), word)
    }
}

/// The points of the first `k` rows of a rectangle, row by row, each row
/// left to right.
pub open spec fn rows_points(a: Rect, k: int) -> Seq<(int, int)>
    decreases k,
{
    if k <= 0 {
        Seq::empty()
    } else {
        rows_points(a, k - 1) + Seq::new(a.width as nat, |i: int| (a.x + i, a.y + k - 1))
    }
}

/// The points of a rectangle, row by row.
pub open spec fn area_points(a: Rect) -> Seq<(int, int)> {
    rows_points(a, a.height as int)
}

/// The colours with those in a rectangle replaced.
pub open spec fn paint(f: spec_fn(int, int) -> u16, x0: int, x1: int, y0: int, y1: int, w: u16) -> spec_fn(int, int) -> u16 {
    |a: int, b: int|
        if x0 <= a <= x1 && y0 <= b <= y1 {
            w
        } else {
            f(a, b)
        }
}

// ───────────────────────────────── lemmas ─────────────────────────────────

proof fn lemma_run_concat(p: Panel, a: Seq<Op>, b: Seq<Op>)
    ensures
        run(p, a + b) == run(run(p, a), b),
    decreases a.len(),
{
    if a.len() == 0 {
        assert(a + b =~= b);
    } else {
        assert((a + b).drop_first() =~= a.drop_first() + b);
        lemma_run_concat(apply(p, a[0]), a.drop_first(), b);
    }
}

proof fn lemma_be16_coordinate(u: u16, v: u16)
    ensures
        coordinate(be16(u) + be16(v), 0) == u,
        coordinate(be16(u) + be16(v), 2) == v,
        (be16(u) + be16(v)).len() == 4,
{
    let d = be16(u) + be16(v);
    assert(d[0] == (u / 256) as u8 && d[1] == (u % 256) as u8);
    assert(d[2] == (v / 256) as u8 && d[3] == (v % 256) as u8);
}

/// Opening a window leaves the colours alone and starts writing at its
/// top-left corner.
proof fn lemma_window(p: Panel, x0: u16, y0: u16, x1: u16, y1: u16)
    ensures
        ({
            let q = run(p, window_spec(x0, y0, x1, y1));
            &&& q.pixels == p.pixels
            &&& q.cmd == RAMWR
            &&& q.xs == x0 && q.xe == x1 && q.ys == y0 && q.ye == y1
            &&& q.x == x0 && q.y == y0
            &&& q.hi is None
        }),
{
    lemma_be16_coordinate(x0, x1);
    lemma_be16_coordinate(y0, y1);
    reveal_with_fuel(run, 6);
    let w = window_spec(x0, y0, x1, y1);
    assert(w.drop_first()[0] == w[1]);
    assert(w.drop_first().drop_first()[0] == w[2]);
    assert(w.drop_first().drop_first().drop_first()[0] == w[3]);
    assert(w.drop_first().drop_first().drop_first().drop_first()[0] == w[4]);
    assert(w.drop_first().drop_first().drop_first().drop_first().drop_first().len() == 0);
}

/// The pixel operations of an on-screen point set that point's colour and
/// no other; those of an off-screen point change nothing.
pub proof fn lemma_pixel_sets_its_pixel(p: Panel, x: int, y: int, word: u16)
    ensures
        run(p, pixel_sequence(x, y, word)).pixels == (|a: int, b: int|
            if a == x && b == y && screen().contains(x, y) {
                word
            } else {
                (p.pixels)(a, b)
            }),
{
    if screen().contains(x, y) {
        let w = window_spec(x as u16, y as u16, x as u16, y as u16);
        let data = Op::Data(be16(word));
        assert(pixel_sequence(x, y, word) =~= w + seq![data]);
        lemma_run_concat(p, w, seq![data]);
        lemma_window(p, x as u16, y as u16, x as u16, y as u16);
        let q = run(p, w);
        assert(seq![data].drop_first().len() == 0);
        let r = apply(q, data);
        assert(seq![data][0] == data);
        assert(run(r, seq![data].drop_first()) == r);
        assert(run(q, seq![data]) == r);
        let d = be16(word);
        assert(r == write_bytes(q, d));
        let q1 = Panel { hi: Some(d[0]), ..q };
        assert(write_bytes(q, d) == write_bytes(q1, d.drop_first()));
        let v = (d[0] as int * 256 + d[1] as int) as u16;
        assert(v == word);
        assert(d.drop_first()[0] == d[1]);
        assert(write_bytes(q1, d.drop_first()) == write_bytes(put_pixel(q1, v), d.drop_first().drop_first()));
        assert(d.drop_first().drop_first().len() == 0);
        assert(r == put_pixel(q1, v));
        assert(q.x == x && q.y == y);
        assert(r.pixels =~= (|a: int, b: int|
            if a == x && b == y && screen().contains(x, y) {
                word
            } else {
                (p.pixels)(a, b)
            }));
    } else {
        assert(pixel_sequence(x, y, word).len() == 0);
        assert(run(p, pixel_sequence(x, y, word)) == p);
        assert((p.pixels) =~= (|a: int, b: int|
            if a == x && b == y && screen().contains(x, y) {
                word
            } else {
                (p.pixels)(a, b)
            }));
    }
}

/// Writing `k` pixels of one colour from the write position up to the
/// window's right edge paints them and moves to the start of the next row.
proof fn lemma_row_tail(p: Panel, word: u16, k: nat)
    requires
        p.hi is None,
        k >= 1,
        p.x == p.xe - k + 1,
        p.xs <= p.x,
    ensures
        ({
            let r = write_bytes(p, pixel_row(word, k));
            &&& r.pixels == paint(p.pixels, p.x, p.xe, p.y, p.y, word)
            &&& r.x == p.xs
            &&& r.y == (if p.y < p.ye { p.y + 1 } else { p.ys })
            &&& r.hi is None
            &&& r.cmd == p.cmd
            &&& r.xs == p.xs && r.xe == p.xe && r.ys == p.ys && r.ye == p.ye
        }),
    decreases k,
{
    let d = pixel_row(word, k);
    let q1 = Panel { hi: Some(d[0]), ..p };
    assert(write_bytes(p, d) == write_bytes(q1, d.drop_first()));
    assert(d.drop_first()[0] == d[1]);
    assert(((d[0] as int) * 256 + d[1] as int) as u16 == word);
    let q2 = put_pixel(q1, word);
    assert(write_bytes(q1, d.drop_first()) == write_bytes(q2, d.drop_first().drop_first()));
    assert(d.drop_first().drop_first() =~= pixel_row(word, (k - 1) as nat));
    if k == 1 {
        assert(d.drop_first().drop_first().len() == 0);
        assert(q2.pixels =~= paint(p.pixels, p.x, p.xe, p.y, p.y, word));
    } else {
        lemma_row_tail(q2, word, (k - 1) as nat);
        assert(paint(q2.pixels, p.x + 1, p.xe, p.y, p.y, word) =~= paint(p.pixels, p.x, p.xe, p.y, p.y, word));
    }
}

/// The rows of a fill, one after another.
pub open spec fn fill_rows(word: u16, w: nat, k: nat) -> Seq<Op> {
    Seq::new(k, |i: int| Op::Data(pixel_row(word, w)))
}

/// Writing `k` rows of `w` pixels into a window `w` wide, from its top-left
/// corner, paints the first `k` rows of the window.
proof fn lemma_rows(q: Panel, word: u16, w: nat, k: nat)
    requires
        q.cmd == RAMWR,
        q.hi is None,
        w >= 1,
        q.xe == q.xs + w - 1,
        q.x == q.xs,
        q.y == q.ys,
        q.ys + k - 1 <= q.ye,
    ensures
        ({
            let r = run(q, fill_rows(word, w, k));
            &&& r.pixels == paint(q.pixels, q.xs, q.xe, q.ys, q.ys + k - 1, word)
            &&& r.cmd == RAMWR
            &&& r.hi is None
            &&& r.x == q.xs
            &&& r.xs == q.xs && r.xe == q.xe && r.ys == q.ys && r.ye == q.ye
            &&& (q.ys + k <= q.ye ==> r.y == q.ys + k)
        }),
    decreases k,
{
    if k == 0 {
        assert(fill_rows(word, w, k).len() == 0);
        assert(q.pixels =~= paint(q.pixels, q.xs, q.xe, q.ys, q.ys - 1, word));
    } else {
        let before = fill_rows(word, w, (k - 1) as nat);
        let row = Op::Data(pixel_row(word, w));
        assert(fill_rows(word, w, k) =~= before + seq![row]);
        lemma_run_concat(q, before, seq![row]);
        lemma_rows(q, word, w, (k - 1) as nat);
        let r1 = run(q, before);
        assert(seq![row][0] == row);
        assert(run(apply(r1, row), seq![row].drop_first()) == apply(r1, row));
        assert(apply(r1, row) == write_bytes(r1, pixel_row(word, w)));
        lemma_row_tail(r1, word, w);
        assert(paint(paint(q.pixels, q.xs, q.xe, q.ys, q.ys + k - 2, word), q.xs, q.xe, q.ys + k - 1, q.ys + k - 1, word)
            =~= paint(q.pixels, q.xs, q.xe, q.ys, q.ys + k - 1, word));
    }
}

/// The fill sequence of a rectangle on the screen paints exactly that
/// rectangle.
pub proof fn lemma_fill_paints_its_rectangle(p: Panel, c: Rect, word: u16)
    requires
        c.width >= 1,
        c.height >= 1,
        0 <= c.x,
        c.x + c.width <= 240,
        0 <= c.y,
        c.y + c.height <= 240,
    ensures
        run(p, fill_sequence(c, word)).pixels == paint(
            p.pixels,
            c.x as int,
            c.x + c.width - 1,
            c.y as int,
            c.y + c.height - 1,
            word,
        ),
{
    let x1 = (c.x + c.width - 1) as u16;
    let y1 = (c.y + c.height - 1) as u16;
    let win = window_spec(c.x as u16, c.y as u16, x1, y1);
    let rows = fill_rows(word, c.width as nat, c.height as nat);
    assert(fill_sequence(c, word) =~= win + rows);
    lemma_run_concat(p, win, rows);
    lemma_window(p, c.x as u16, c.y as u16, x1, y1);
    lemma_rows(run(p, win), word, c.width as nat, c.height as nat);
}

/// Which points a list of pixel operations sets.
proof fn lemma_draw_points(p: Panel, pts: Seq<(int, int)>, word: u16)
    ensures
        draw_points(p, pts, word).pixels == (|a: int, b: int|
            if pts.contains((a, b)) && screen().contains(a, b) {
                word
            } else {
                (p.pixels)(a, b)
            }),
    decreases pts.len(),
{
    if pts.len() == 0 {
        assert(draw_points(p, pts, word).pixels =~= (|a: int, b: int|
            if pts.contains((a, b)) && screen().contains(a, b) {
                word
            } else {
                (p.pixels)(a, b)
            }));
    } else {
        let first = pts[0];
        let rest = pts.drop_first();
        let p1 = run(p, pixel_sequence(first.0, first.1, word));
        lemma_pixel_sets_its_pixel(p, first.0, first.1, word);
        lemma_draw_points(p1, rest, word);
        assert forall|a: int, b: int| pts.contains((a, b)) <==> ((a, b) == first || rest.contains((a, b))) by {
            if pts.contains((a, b)) && (a, b) != first {
                let i = choose|i: int| 0 <= i < pts.len() && pts[i] == (a, b);
                assert(rest[i - 1] == (a, b));
            }
            if rest.contains((a, b)) {
                let i = choose|i: int| 0 <= i < rest.len() && rest[i] == (a, b);
                assert(pts[i + 1] == (a, b));
            }
            if (a, b) == first {
                assert(pts[0] == (a, b));
            }
        }
        assert(draw_points(p, pts, word).pixels =~= (|a: int, b: int|
            if pts.contains((a, b)) && screen().contains(a, b) {
                word
            } else {
                (p.pixels)(a, b)
            }));
    }
}

/// The points of the first `k` rows of a rectangle are exactly those rows.
proof fn lemma_rows_points(a: Rect, k: int)
    requires
        k >= 0,
    ensures
        forall|u: int, v: int|
            rows_points(a, k).contains((u, v)) <==> (a.x <= u < a.x + a.width && a.y <= v < a.y + k),
    decreases k,
{
    if k > 0 {
        lemma_rows_points(a, k - 1);
        let before = rows_points(a, k - 1);
        let row = Seq::new(a.width as nat, |i: int| (a.x + i, a.y + k - 1));
        assert forall|u: int, v: int|
            rows_points(a, k).contains((u, v)) <==> (a.x <= u < a.x + a.width && a.y <= v < a.y + k) by {
            let all = rows_points(a, k);
            assert(all == before + row);
            if all.contains((u, v)) {
                let i = choose|i: int| 0 <= i < all.len() && all[i] == (u, v);
                if i < before.len() {
                    assert(before[i] == (u, v));
                    assert(before.contains((u, v)));
                } else {
                    assert(row[i - before.len()] == (u, v));
                }
            }
            if a.x <= u < a.x + a.width && a.y <= v < a.y + k {
                if v < a.y + k - 1 {
                    assert(before.contains((u, v)));
                    let i = choose|i: int| 0 <= i < before.len() && before[i] == (u, v);
                    assert(all[i] == (u, v));
                } else {
                    assert(all[before.len() + (u - a.x)] == (u, v));
                }
            }
        }
    }
}

/// Filling a rectangle leaves the panel's pixels as drawing each pixel of
/// the rectangle does: the pixels of the rectangle that are on the screen
/// take the colour, all others keep theirs.
pub proof fn lemma_fill_is_drawing_its_pixels(p: Panel, area: Rect, word: u16)
    requires
        !area.is_empty(),
        overlap(area, screen()),
    ensures
        run(p, fill_sequence(common_part(area, screen()), word)).pixels == draw_points(
            p,
            area_points(area),
            word,
        ).pixels,
{
    let c = common_part(area, screen());
    lemma_fill_paints_its_rectangle(p, c, word);
    lemma_draw_points(p, area_points(area), word);
    lemma_rows_points(area, area.height as int);
    assert(run(p, fill_sequence(c, word)).pixels =~= draw_points(p, area_points(area), word).pixels);
}

/// When no pixel of a rectangle is on the screen, drawing its pixels
/// changes nothing, as the fill sends nothing.
pub proof fn lemma_nothing_to_fill(p: Panel, area: Rect, word: u16)
    requires
        area.is_empty() || !overlap(area, screen()),
    ensures
        draw_points(p, area_points(area), word).pixels == p.pixels,
{
    lemma_draw_points(p, area_points(area), word);
    lemma_rows_points(area, area.height as int);
    assert(draw_points(p, area_points(area), word).pixels =~= p.pixels);
}

} // verus!
