use clawdmeter::geometry::{Color565, Rect};
use clawdmeter::st7789::{
    fill_plan, fill_solid_plan, init_sequence, pixel_ops, power_up_sequence, window_ops, DisplayOp,
    PowerStep, CASET, RAMWR, RASET,
};

fn command(op: &DisplayOp) -> Option<u8> {
    match op {
        DisplayOp::Command(c) => Some(*c),
        _ => None,
    }
}

fn data(op: &DisplayOp) -> Option<Vec<u8>> {
    match op {
        DisplayOp::Data(d) => Some(d.clone()),
        _ => None,
    }
}

fn delay(op: &DisplayOp) -> Option<u32> {
    match op {
        DisplayOp::DelayMs(ms) => Some(*ms),
        _ => None,
    }
}

#[test]
fn window_is_sent_big_endian() {
    let ops = window_ops(0x0102, 3, 0x00ef, 0x01ff);
    assert_eq!(ops.len(), 5);
    assert_eq!(command(&ops[0]), Some(CASET));
    assert_eq!(data(&ops[1]), Some(vec![0x01, 0x02, 0x00, 0xef]));
    assert_eq!(command(&ops[2]), Some(RASET));
    assert_eq!(data(&ops[3]), Some(vec![0x00, 0x03, 0x01, 0xff]));
    assert_eq!(command(&ops[4]), Some(RAMWR));
}

#[test]
fn init_sequence_matches_the_panel_bring_up() {
    let ops = init_sequence();
    assert_eq!(ops.len(), 13);
    assert_eq!(command(&ops[0]), Some(0x01));
    assert_eq!(delay(&ops[1]), Some(150));
    assert_eq!(command(&ops[2]), Some(0x11));
    assert_eq!(command(&ops[4]), Some(0x3A));
    assert_eq!(data(&ops[5]), Some(vec![0x55]));
    assert_eq!(command(&ops[6]), Some(0x36));
    assert_eq!(data(&ops[7]), Some(vec![0x00]));
    assert_eq!(command(&ops[8]), Some(0x21));
    assert_eq!(command(&ops[9]), Some(0x13));
    assert_eq!(command(&ops[11]), Some(0x29));
    assert_eq!(delay(&ops[12]), Some(10));
}

#[test]
fn power_up_pulses_reset() {
    let steps = power_up_sequence();
    assert_eq!(
        steps,
        vec![
            PowerStep::BacklightOn,
            PowerStep::ResetHigh,
            PowerStep::DelayMs(10),
            PowerStep::ResetLow,
            PowerStep::DelayMs(10),
            PowerStep::ResetHigh,
            PowerStep::DelayMs(120),
        ]
    );
}

#[test]
fn fill_plan_repeats_one_row() {
    let plan = fill_plan(10, 20, 12, 24, 0xABCD);
    assert_eq!(plan.row, vec![0xAB, 0xCD, 0xAB, 0xCD, 0xAB, 0xCD]);
    assert_eq!(plan.rows, 5);
    assert_eq!(data(&plan.window[1]), Some(vec![0, 10, 0, 12]));
    assert_eq!(data(&plan.window[3]), Some(vec![0, 20, 0, 24]));
}

#[test]
fn full_width_fill() {
    let plan = fill_plan(0, 0, 239, 0, 0x0000);
    assert_eq!(plan.row.len(), 480);
    assert_eq!(plan.rows, 1);
}

#[test]
fn pixels_off_screen_are_skipped() {
    assert!(pixel_ops(-1, 0, 0xffff).is_empty());
    assert!(pixel_ops(0, 240, 0xffff).is_empty());
    assert!(pixel_ops(240, 5, 0xffff).is_empty());
    let ops = pixel_ops(239, 7, 0x1234);
    assert_eq!(ops.len(), 6);
    assert_eq!(data(&ops[1]), Some(vec![0, 239, 0, 239]));
    assert_eq!(data(&ops[3]), Some(vec![0, 7, 0, 7]));
    assert_eq!(data(&ops[5]), Some(vec![0x12, 0x34]));
}

#[test]
fn fill_solid_clips_to_the_screen() {
    let plan = fill_solid_plan(Rect::new(-10, -5, 30, 20), 0x00ff).unwrap();
    assert_eq!(data(&plan.window[1]), Some(vec![0, 0, 0, 19]));
    assert_eq!(data(&plan.window[3]), Some(vec![0, 0, 0, 14]));
    assert_eq!(plan.rows, 15);
    assert_eq!(plan.row.len(), 40);

    let plan = fill_solid_plan(Rect::new(230, 230, 100, 100), 0).unwrap();
    assert_eq!(data(&plan.window[1]), Some(vec![0, 230, 0, 239]));
    assert_eq!(plan.rows, 10);
}

#[test]
fn fill_solid_of_nothing_sends_nothing() {
    assert!(fill_solid_plan(Rect::new(10, 10, 0, 5), 0).is_none());
    assert!(fill_solid_plan(Rect::new(0, 0, 0, u32::MAX), 0).is_none());
    assert!(fill_solid_plan(Rect::new(240, 0, 10, 10), 0).is_none());
    assert!(fill_solid_plan(Rect::new(-20, -20, 20, 20), 0).is_none());
}

#[test]
fn fill_solid_of_a_rectangle_inside_the_screen() {
    let plan = fill_solid_plan(Rect::new(5, 6, 10, 10), 0).unwrap();
    assert_eq!(data(&plan.window[1]), Some(vec![0, 5, 0, 14]));
    assert_eq!(data(&plan.window[3]), Some(vec![0, 6, 0, 15]));
    assert_eq!(plan.rows, 10);
    assert_eq!(plan.row.len(), 20);
}

#[test]
fn colour_words() {
    assert_eq!(Color565::new(31, 63, 31).word(), 0xffff);
    assert_eq!(Color565::new(0, 0, 0).word(), 0);
    assert_eq!(Color565::new(31, 10, 2).word(), (31 << 11) | (10 << 5) | 2);
    // Channel bits beyond the channel's width are dropped.
    assert_eq!(Color565::new(0x3f, 0, 0).word(), 31 << 11);
}

/// A small interpreter of the panel's bus operations over its frame memory.
struct TestPanel {
    pixels: Vec<u16>,
    cmd: u8,
    xs: usize,
    xe: usize,
    ys: usize,
    ye: usize,
    x: usize,
    y: usize,
    hi: Option<u8>,
}

impl TestPanel {
    fn new() -> Self {
        TestPanel { pixels: vec![7; 240 * 240], cmd: 0, xs: 0, xe: 0, ys: 0, ye: 0, x: 0, y: 0, hi: None }
    }

    fn apply(&mut self, op: &DisplayOp) {
        match op {
            DisplayOp::Command(c) => {
                self.cmd = *c;
                self.hi = None;
                if *c == RAMWR {
                    self.x = self.xs;
                    self.y = self.ys;
                }
            }
            DisplayOp::Data(d) if self.cmd == CASET => {
                self.xs = d[0] as usize * 256 + d[1] as usize;
                self.xe = d[2] as usize * 256 + d[3] as usize;
            }
            DisplayOp::Data(d) if self.cmd == RASET => {
                self.ys = d[0] as usize * 256 + d[1] as usize;
                self.ye = d[2] as usize * 256 + d[3] as usize;
            }
            DisplayOp::Data(d) if self.cmd == RAMWR => {
                for &b in d {
                    match self.hi.take() {
                        None => self.hi = Some(b),
                        Some(h) => {
                            self.pixels[self.y * 240 + self.x] = (h as u16) << 8 | b as u16;
                            if self.x < self.xe {
                                self.x += 1;
                            } else {
                                self.x = self.xs;
                                self.y = if self.y < self.ye { self.y + 1 } else { self.ys };
                            }
                        }
                    }
                }
            }
            _ => {}
        }
    }
}

#[test]
fn filling_equals_drawing_each_pixel() {
    let area = Rect::new(-3, 235, 8, 9);
    let word = 0xBEEF;
    let mut filled = TestPanel::new();
    if let Some(plan) = fill_solid_plan(area, word) {
        for op in &plan.window {
            filled.apply(op);
        }
        for _ in 0..plan.rows {
            filled.apply(&DisplayOp::Data(plan.row.clone()));
        }
    }
    let mut drawn = TestPanel::new();
    for y in area.y..area.y + area.height as i32 {
        for x in area.x..area.x + area.width as i32 {
            for op in &pixel_ops(x, y, word) {
                drawn.apply(op);
            }
        }
    }
    assert!(filled.pixels == drawn.pixels);
    assert_eq!(filled.pixels.iter().filter(|&&p| p == word).count(), 5 * 5);
}
