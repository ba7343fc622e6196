//! What the firmware sends to its ST7789 240×240 panel: the power-up and
//! initialisation sequences, address windows, rectangle fills and single
//! pixels, as a list of bus operations that the driver carries out.
use vstd::prelude::*;

use crate::geometry::{common_part, intersection, overlap, Rect};

verus! {

pub const SWRESET: u8 = 0x01;
pub const SLPOUT: u8 = 0x11;
pub const COLMOD: u8 = 0x3A;
pub const MADCTL: u8 = 0x36;
pub const CASET: u8 = 0x2A;
pub const RASET: u8 = 0x2B;
pub const RAMWR: u8 = 0x2C;
pub const INVON: u8 = 0x21;
pub const NORON: u8 = 0x13;
pub const DISPON: u8 = 0x29;

pub const WIDTH: u16 = 240;
pub const HEIGHT: u16 = 240;

/// Bytes of one full row of 16-bit pixels.
pub const ROW_BYTES: usize = 480;

/// SPI clock of the panel, in hertz (SPI mode 3).
pub const SPI_BAUD_HZ: u32 = 20_000_000;

/// One operation on the panel's bus.
#[derive(Debug)]
pub enum DisplayOp {
    /// Data/command line low, then the command byte.
    Command(u8),
    /// Data/command line high, then the bytes.
    Data(Vec<u8>),
    /// Wait this many milliseconds.
    DelayMs(u32),
}

/// A bus operation as a value.
pub enum Op {
    Command(u8),
    Data(Seq<u8>),
    DelayMs(u32),
}

impl View for DisplayOp {
    type V = Op;

    open spec fn view(&self) -> Op {
        match self {
            DisplayOp::Command(c) => Op::Command(*c),
            DisplayOp::Data(d) => Op::Data(d@),
            DisplayOp::DelayMs(ms) => Op::DelayMs(*ms),
        }
    }
}

pub open spec fn ops_view(v: Seq<DisplayOp>) -> Seq<Op> {
    v.map_values(|o: DisplayOp| o@)
}

/// A step of powering the panel up.
#[derive(PartialEq, Eq, Structural, Clone, Copy, Debug)]
pub enum PowerStep {
    BacklightOn,
    ResetHigh,
    ResetLow,
    DelayMs(u32),
}

/// Backlight on, then a hardware reset pulse: reset high for 10 ms, low
/// for 10 ms, high again and 120 ms to settle.
pub open spec fn power_up_spec() -> Seq<PowerStep> {
    seq![
        PowerStep::BacklightOn,
        PowerStep::ResetHigh,
        PowerStep::DelayMs(10),
        PowerStep::ResetLow,
        PowerStep::DelayMs(10),
        PowerStep::ResetHigh,
        PowerStep::DelayMs(120),
    ]
}

pub fn power_up_sequence() -> (v: Vec<PowerStep>)
    ensures
        v@ == power_up_spec(),
{
    let v = vec![
        PowerStep::BacklightOn,
        PowerStep::ResetHigh,
        PowerStep::DelayMs(10),
        PowerStep::ResetLow,
        PowerStep::DelayMs(10),
        PowerStep::ResetHigh,
        PowerStep::DelayMs(120),
    ];
    assert(v@ =~= power_up_spec());
    v
}

/// The reset line as a run of power-up steps drives it: each level it is
/// set to, with the milliseconds waited before it is set again. (Waits
/// before the first level, and the backlight, are not part of it.)
pub open spec fn reset_levels(steps: Seq<PowerStep>) -> Seq<(bool, nat)>
    decreases steps.len(),
{
    if steps.len() == 0 {
        seq![]
    } else {
        let before = reset_levels(steps.drop_last());
        let n = before.len();
        match steps.last() {
            PowerStep::ResetHigh => before.push((true, 0nat)),
            PowerStep::ResetLow => before.push((false, 0nat)),
            PowerStep::DelayMs(ms) => if n == 0 {
                before
            } else {
                before.update(n - 1, (before[n - 1].0, (before[n - 1].1 + ms) as nat))
            },
            PowerStep::BacklightOn => before,
        }
    }
}

proof fn lemma_reset_levels_push(steps: Seq<PowerStep>, p: PowerStep)
    ensures
        reset_levels(steps.push(p)) == ({
            let before = reset_levels(steps);
            let n = before.len();
            match p {
                PowerStep::ResetHigh => before.push((true, 0nat)),
                PowerStep::ResetLow => before.push((false, 0nat)),
                PowerStep::DelayMs(ms) => if n == 0 {
                    before
                } else {
                    before.update(n - 1, (before[n - 1].0, (before[n - 1].1 + ms) as nat))
                },
                PowerStep::BacklightOn => before,
            }
        }),
{
    assert(steps.push(p).drop_last() =~= steps);
}

/// Power-up turns the backlight on first; the reset line is then held high
/// for 10 ms, pulled low for 10 ms and released high again, and the panel is
/// given 120 ms after the pulse before anything is sent to it.
pub proof fn lemma_power_up_pulse()
    ensures
        power_up_spec()[0] == PowerStep::BacklightOn,
        reset_levels(power_up_spec()) == seq![(true, 10nat), (false, 10nat), (true, 120nat)],
{
    let o0: Seq<PowerStep> = seq![];
    assert(reset_levels(o0) =~= seq![]);
    lemma_reset_levels_push(o0, PowerStep::BacklightOn);
    let o1 = o0.push(PowerStep::BacklightOn);
    lemma_reset_levels_push(o1, PowerStep::ResetHigh);
    let o2 = o1.push(PowerStep::ResetHigh);
    lemma_reset_levels_push(o2, PowerStep::DelayMs(10));
    let o3 = o2.push(PowerStep::DelayMs(10));
    lemma_reset_levels_push(o3, PowerStep::ResetLow);
    let o4 = o3.push(PowerStep::ResetLow);
    lemma_reset_levels_push(o4, PowerStep::DelayMs(10));
    let o5 = o4.push(PowerStep::DelayMs(10));
    lemma_reset_levels_push(o5, PowerStep::ResetHigh);
    let o6 = o5.push(PowerStep::ResetHigh);
    lemma_reset_levels_push(o6, PowerStep::DelayMs(120));
    let o7 = o6.push(PowerStep::DelayMs(120));
    assert(o7 =~= power_up_spec());
}

/// Software reset, wake from sleep, 16-bit colour, row/column order,
/// inversion on, normal mode, display on, with the waits the panel needs.
pub open spec fn init_spec() -> Seq<Op> {
    seq![
        Op::Command(SWRESET),
        Op::DelayMs(150),
        Op::Command(SLPOUT),
        Op::DelayMs(10),
        Op::Command(COLMOD),
        Op::Data(seq![0x55u8]),
        Op::Command(MADCTL),
        Op::Data(seq![0x00u8]),
        Op::Command(INVON),
        Op::Command(NORON),
        Op::DelayMs(10),
        Op::Command(DISPON),
        Op::DelayMs(10),
    ]
}

pub fn init_sequence() -> (v: Vec<DisplayOp>)
    ensures
        ops_view(v@) == init_spec(),
{
    let colour_mode = vec![0x55u8];
    let order = vec![0x00u8];
    assert(colour_mode@ =~= seq![0x55u8]);
    assert(order@ =~= seq![0x00u8]);
    let v = vec![
        DisplayOp::Command(SWRESET),
        DisplayOp::DelayMs(150),
        DisplayOp::Command(SLPOUT),
        DisplayOp::DelayMs(10),
        DisplayOp::Command(COLMOD),
        DisplayOp::Data(colour_mode),
        DisplayOp::Command(MADCTL),
        DisplayOp::Data(order),
        DisplayOp::Command(INVON),
        DisplayOp::Command(NORON),
        DisplayOp::DelayMs(10),
        DisplayOp::Command(DISPON),
        DisplayOp::DelayMs(10),
    ];
    assert(ops_view(v@) =~= init_spec());
    v
}

/// The commands read so far, after one more bus operation: a command byte
/// starts a step; parameter bytes and waits go to the step begun last.
pub open spec fn step_after(before: Seq<(u8, Seq<u8>, nat)>, op: Op) -> Seq<(u8, Seq<u8>, nat)> {
    let n = before.len();
    match op {
        Op::Command(c) => before.push((c, seq![], 0nat)),
        Op::Data(d) => if n == 0 {
            before
        } else {
            before.update(n - 1, (before[n - 1].0, before[n - 1].1 + d, before[n - 1].2))
        },
        Op::DelayMs(ms) => if n == 0 {
            before
        } else {
            before.update(n - 1, (before[n - 1].0, before[n - 1].1, (before[n - 1].2 + ms) as nat))
        },
    }
}

/// A run of bus operations read as the panel takes it: each command byte
/// with the parameter bytes sent after it and the milliseconds waited before
/// the next command. (Data or waits before the first command belong to no
/// command and are left out.)
pub open spec fn command_steps(ops: Seq<Op>) -> Seq<(u8, Seq<u8>, nat)>
    decreases ops.len(),
{
    if ops.len() == 0 {
        seq![]
    } else {
        step_after(command_steps(ops.drop_last()), ops.last())
    }
}

proof fn lemma_command_steps_push(ops: Seq<Op>, op: Op)
    ensures
        command_steps(ops.push(op)) == step_after(command_steps(ops), op),
{
    assert(ops.push(op).drop_last() =~= ops);
}

/// The bring-up, command by command: software reset and 150 ms to recover;
/// sleep out and 10 ms; 16-bit colour (0x55); row and column order 0x00;
/// inversion on, which this panel needs and which nothing turns off again;
/// normal mode and 10 ms; display on and 10 ms. No other command is sent.
pub proof fn lemma_init_commands()
    ensures
        command_steps(init_spec()) == seq![
            (SWRESET, seq![], 150nat),
            (SLPOUT, seq![], 10nat),
            (COLMOD, seq![0x55u8], 0nat),
            (MADCTL, seq![0x00u8], 0nat),
            (INVON, seq![], 0nat),
            (NORON, seq![], 10nat),
            (DISPON, seq![], 10nat),
        ],
{
    let o0: Seq<Op> = seq![];
    assert(command_steps(o0) =~= seq![]);
    lemma_command_steps_push(o0, Op::Command(SWRESET));
    let o1 = o0.push(Op::Command(SWRESET));
    lemma_command_steps_push(o1, Op::DelayMs(150));
    let o2 = o1.push(Op::DelayMs(150));
    lemma_command_steps_push(o2, Op::Command(SLPOUT));
    let o3 = o2.push(Op::Command(SLPOUT));
    lemma_command_steps_push(o3, Op::DelayMs(10));
    let o4 = o3.push(Op::DelayMs(10));
    lemma_command_steps_push(o4, Op::Command(COLMOD));
    let o5 = o4.push(Op::Command(COLMOD));
    lemma_command_steps_push(o5, Op::Data(seq![0x55u8]));
    let o6 = o5.push(Op::Data(seq![0x55u8]));
    lemma_command_steps_push(o6, Op::Command(MADCTL));
    let o7 = o6.push(Op::Command(MADCTL));
    lemma_command_steps_push(o7, Op::Data(seq![0x00u8]));
    let o8 = o7.push(Op::Data(seq![0x00u8]));
    lemma_command_steps_push(o8, Op::Command(INVON));
    let o9 = o8.push(Op::Command(INVON));
    lemma_command_steps_push(o9, Op::Command(NORON));
    let o10 = o9.push(Op::Command(NORON));
    lemma_command_steps_push(o10, Op::DelayMs(10));
    let o11 = o10.push(Op::DelayMs(10));
    lemma_command_steps_push(o11, Op::Command(DISPON));
    let o12 = o11.push(Op::Command(DISPON));
    lemma_command_steps_push(o12, Op::DelayMs(10));
    let o13 = o12.push(Op::DelayMs(10));
    assert(o13 =~= init_spec());
}

/// A 16-bit value as two bytes, most significant first.
pub open spec fn be16(v: u16) -> Seq<u8> {
    seq![(v / 256) as u8, (v % 256) as u8]
}

/// The two bytes of a coordinate give the coordinate back.
pub proof fn lemma_be16_reads_back(v: u16)
    ensures
        be16(v).len() == 2,
        be16(v)[0] as int * 256 + be16(v)[1] as int == v,
{
}

/// Column range, row range, then "write memory" for the window from
/// `(x0, y0)` to `(x1, y1)`, both corners included.
pub open spec fn window_spec(x0: u16, y0: u16, x1: u16, y1: u16) -> Seq<Op> {
    seq![
        Op::Command(CASET),
        Op::Data(be16(x0) + be16(x1)),
        Op::Command(RASET),
        Op::Data(be16(y0) + be16(y1)),
        Op::Command(RAMWR),
    ]
}

/// The 16-bit value whose big-endian bytes start at `i`.
pub open spec fn word_at(bytes: Seq<u8>, i: int) -> int {
    bytes[i] as int * 256 + bytes[i + 1] as int
}

/// Opening a window sends the column range, then the row range, then the
/// memory write, with no waits; the two parameters of each range read back
/// as its first and last coordinate.
pub proof fn lemma_window_reads_back(x0: u16, y0: u16, x1: u16, y1: u16)
    ensures
        ({
            let st = command_steps(window_spec(x0, y0, x1, y1));
            &&& st.len() == 3
            &&& st[0].0 == CASET && st[1].0 == RASET && st[2].0 == RAMWR
            &&& st[0].1.len() == 4 && st[1].1.len() == 4 && st[2].1.len() == 0
            &&& word_at(st[0].1, 0) == x0 && word_at(st[0].1, 2) == x1
            &&& word_at(st[1].1, 0) == y0 && word_at(st[1].1, 2) == y1
            &&& st[0].2 == 0 && st[1].2 == 0 && st[2].2 == 0
        }),
{
    let cols = be16(x0) + be16(x1);
    let rows = be16(y0) + be16(y1);
    let o0: Seq<Op> = seq![];
    assert(command_steps(o0) =~= seq![]);
    lemma_command_steps_push(o0, Op::Command(CASET));
    let o1 = o0.push(Op::Command(CASET));
    lemma_command_steps_push(o1, Op::Data(cols));
    let o2 = o1.push(Op::Data(cols));
    lemma_command_steps_push(o2, Op::Command(RASET));
    let o3 = o2.push(Op::Command(RASET));
    lemma_command_steps_push(o3, Op::Data(rows));
    let o4 = o3.push(Op::Data(rows));
    lemma_command_steps_push(o4, Op::Command(RAMWR));
    let o5 = o4.push(Op::Command(RAMWR));
    assert(o5 =~= window_spec(x0, y0, x1, y1));
    let st = command_steps(o5);
    assert(st[0].1 =~= seq![] + cols);
    assert(st[1].1 =~= seq![] + rows);
}

fn high_byte(v: u16) -> (b: u8)
    ensures
        b == v / 256,
{
    assert((v >> 8u16) as u8 == v / 256) by (bit_vector);
    (v >> 8) as u8
}

fn low_byte(v: u16) -> (b: u8)
    ensures
        b == v % 256,
{
    assert(v as u8 == v % 256) by (bit_vector);
    v as u8
}

/// The operations that open the address window from `(x0, y0)` to
/// `(x1, y1)`.
pub fn window_ops(x0: u16, y0: u16, x1: u16, y1: u16) -> (v: Vec<DisplayOp>)
    ensures
        ops_view(v@) == window_spec(x0, y0, x1, y1),
{
    let columns = vec![high_byte(x0), low_byte(x0), high_byte(x1), low_byte(x1)];
    let rows = vec![high_byte(y0), low_byte(y0), high_byte(y1), low_byte(y1)];
    assert(columns@ =~= be16(x0) + be16(x1));
    assert(rows@ =~= be16(y0) + be16(y1));
    let v = vec![
        DisplayOp::Command(CASET),
        DisplayOp::Data(columns),
        DisplayOp::Command(RASET),
        DisplayOp::Data(rows),
        DisplayOp::Command(RAMWR),
    ];
    assert(ops_view(v@) =~= window_spec(x0, y0, x1, y1));
    v
}

/// `w` pixels of one colour: its high byte, then its low byte, `w` times.
pub open spec fn pixel_row(word: u16, w: nat) -> Seq<u8> {
    Seq::new(2 * w, |i: int| if i % 2 == 0 { (word / 256) as u8 } else { (word % 256) as u8 })
}

/// A row of `w` pixels is `2w` bytes, and the two bytes of each pixel read
/// back as the colour word.
pub proof fn lemma_pixel_row_reads_back(word: u16, w: nat)
    ensures
        pixel_row(word, w).len() == 2 * w,
        forall|j: int|
            0 <= j < 2 * w && j % 2 == 0 ==> #[trigger] word_at(pixel_row(word, w), j) == word,
{
    assert forall|j: int| 0 <= j < 2 * w && j % 2 == 0 implies #[trigger] word_at(
        pixel_row(word, w),
        j,
    ) == word by {
        assert((j + 1) % 2 == 1);
    }
}

/// How a rectangle is filled: open the window, then send `row` once for
/// each of the `rows` rows.
pub struct FillPlan {
    pub window: Vec<DisplayOp>,
    pub row: Vec<u8>,
    pub rows: usize,
}

/// `a - b + 1` in 16 bits, wrapping as the firmware's release build does.
pub open spec fn span(a: u16, b: u16) -> int {
    (a as int - b as int + 1 + 0x10000) % 0x10000
}

/// For a window whose far edge is not before its near one, the span is the
/// number of columns (or rows) from the one to the other, both included
/// (short of the full 65536, which wraps to 0 in 16 bits).
pub proof fn lemma_span_counts(a: u16, b: u16)
    ensures
        b <= a && a - b < 0xffff ==> span(a, b) == a - b + 1,
{
}

/// The fill of the window from `(x0, y0)` to `(x1, y1)` with one colour.
/// The row is built in a buffer of one screen row, so the window may be at
/// most one screen wide.
pub fn fill_plan(x0: u16, y0: u16, x1: u16, y1: u16, word: u16) -> (p: FillPlan)
    requires
        span(x1, x0) <= WIDTH,
    ensures
        ops_view(p.window@) == window_spec(x0, y0, x1, y1),
        p.row@ == pixel_row(word, span(x1, x0) as nat),
        p.rows == span(y1, y0),
{
    let hi = high_byte(word);
    let lo = low_byte(word);
    let w = x1.wrapping_sub(x0).wrapping_add(1) as usize;
    let h = y1.wrapping_sub(y0).wrapping_add(1) as usize;
    assert(w == span(x1, x0));
    assert(h == span(y1, y0));
    let window = window_ops(x0, y0, x1, y1);
    let mut row: Vec<u8> = Vec::new();
    let mut i: usize = 0;
    while i < w
        invariant
            i <= w,
            w <= 240,
            row@ == pixel_row(word, i as nat),
            hi == word / 256,
            lo == word % 256,
        decreases w - i,
    {
        row.push(hi);
        row.push(lo);
        i = i + 1;
        assert(row@ =~= pixel_row(word, i as nat));
    }
    FillPlan { window, row, rows: h }
}

/// The screen as a rectangle.
pub open spec fn screen() -> Rect {
    Rect { x: 0, y: 0, width: WIDTH as u32, height: HEIGHT as u32 }
}

/// The bus operations that set the pixel `(x, y)`: window on the pixel, then
/// its colour; none for a pixel off the screen.
pub open spec fn pixel_sequence(x: int, y: int, word: u16) -> Seq<Op> {
    if screen().contains(x, y) {
        window_spec(x as u16, y as u16, x as u16, y as u16).push(Op::Data(be16(word)))
    } else {
        Seq::empty()
    }
}

/// The bus operations that fill the rectangle `c` with one colour: its
/// window, then one row of pixels for each of its rows.
pub open spec fn fill_sequence(c: Rect, word: u16) -> Seq<Op> {
    window_spec(c.x as u16, c.y as u16, (c.x + c.width - 1) as u16, (c.y + c.height - 1) as u16)
        + Seq::new(c.height as nat, |i: int| Op::Data(pixel_row(word, c.width as nat)))
}

/// The bus operations that set the pixel `(x, y)` to the colour `word`;
/// none for a pixel off the screen.
pub fn pixel_ops(x: i32, y: i32, word: u16) -> (v: Vec<DisplayOp>)
    ensures
        !screen().contains(x as int, y as int) ==> v@.len() == 0,
        screen().contains(x as int, y as int) ==> ops_view(v@) == window_spec(
            x as u16,
            y as u16,
            x as u16,
            y as u16,
        ).push(Op::Data(be16(word))),
        ops_view(v@) == pixel_sequence(x as int, y as int, word),
{
    if x < 0 || y < 0 || x >= WIDTH as i32 || y >= HEIGHT as i32 {
        let v: Vec<DisplayOp> = Vec::new();
        assert(ops_view(v@) =~= Seq::<Op>::empty());
        return v;
    }
    let px = x as u16;
    let py = y as u16;
    let mut v = window_ops(px, py, px, py);
    let ghost before = v@;
    let colour = vec![high_byte(word), low_byte(word)];
    assert(colour@ =~= be16(word));
    v.push(DisplayOp::Data(colour));
    assert(ops_view(v@) =~= ops_view(before).push(Op::Data(be16(word))));
    v
}

/// The fill of `area` clipped to the screen; `None` when no pixel of it is
/// on the screen.
pub fn fill_solid_plan(area: Rect, word: u16) -> (p: Option<FillPlan>)
    requires
        area.is_empty() || area.fits_i32(),
    ensures
        p is None <==> (area.is_empty() || !overlap(area, screen())),
        p matches Some(plan) ==> {
            let c = common_part(area, screen());
            &&& ops_view(plan.window@) == window_spec(
                c.x as u16,
                c.y as u16,
                (c.x + c.width - 1) as u16,
                (c.y + c.height - 1) as u16,
            )
            &&& plan.row@ == pixel_row(word, c.width as nat)
            &&& plan.rows == c.height
            &&& 0 <= c.x && c.x + c.width <= WIDTH
            &&& 0 <= c.y && c.y + c.height <= HEIGHT
            &&& ops_view(plan.window@) + Seq::new(plan.rows as nat, |i: int| Op::Data(plan.row@))
                == fill_sequence(c, word)
        },
{
    if area.is_zero_sized() {
        return None;
    }
    let bounds = Rect { x: 0, y: 0, width: WIDTH as u32, height: HEIGHT as u32 };
    let clipped = intersection(area, bounds);
    if clipped.is_zero_sized() {
        return None;
    }
    let x0 = clipped.x as u16;
    let y0 = clipped.y as u16;
    let x1 = x0 + clipped.width as u16 - 1;
    let y1 = y0 + clipped.height as u16 - 1;
    let plan = fill_plan(x0, y0, x1, y1, word);
    assert(ops_view(plan.window@) + Seq::new(plan.rows as nat, |i: int| Op::Data(plan.row@))
        =~= fill_sequence(clipped, word));
    Some(plan)
}

} // verus!
