//! The screens of the tactile game and the tactile test as lists of pins. Each
//! pin is a column, a row, a strength and whether the hardware blinks it; the
//! host sets them in order on a cleared display. Boxes drawn with the graphics
//! crate (the quiz box's outline) are given by their corner.
use vstd::prelude::*;
use crate::audio_test::tdiv;
use crate::tactile_test::{blink_on, level_blink, panel_shown, TactileTest};

verus! {

/// Side of the quiz box.
pub const QUIZ_SIZE: i16 = 15;
/// Height of the timer bar.
pub const TIMER_BAR_HEIGHT: i16 = 1;
/// Outline of the chosen answer box.
pub const ITEM_BORDER_WIDTH: i16 = 1;
/// Space between answer boxes.
pub const ITEM_SPACING: i16 = 2;
/// Where the answer bar starts, across and up from the bottom.
pub const BAR_START_X: i16 = 1;
pub const BAR_START_Y: i16 = 2;

/// A rule that gives the pin at a column and row of a scanned rectangle, if any.
#[derive(Clone, Copy, Debug, PartialEq, Eq, Structural)]
pub enum Shape {
    /// Every pin on the display (`w` by `h`) at strength `v`.
    Fill { v: u8, blink: bool, w: i16, h: i16 },
    /// Every pin at full strength.
    Solid,
    /// The pins `step` in from the edges of a `w` by `h` display, at strength `v`.
    Frame { step: i16, w: i16, h: i16, v: u8 },
    /// The outline of the answer box at column `tx`, row `sy`, `iw` by `ih`, on
    /// the display.
    SelectBorder { tx: i16, sy: i16, iw: i16, ih: i16, w: i16, h: i16 },
    /// The ring around column `cx` and row `cy`.
    Ring { cx: i16, cy: i16 },
    /// The timer bar from column `sx` to `ex`: full up to `filled` pins, then
    /// off, with faint ends when `edges`.
    TimerBar { sx: i16, ex: i16, filled: i16, edges: bool },
}

pub open spec fn on_display(x: int, y: int, w: int, h: int) -> bool {
    0 <= x < w && 0 <= y < h
}

/// The pin that a shape puts at column `x` and row `y`.
pub open spec fn cell(s: Shape, x: int, y: int) -> Option<(u8, bool)> {
    match s {
        Shape::Fill { v, blink, w, h } => if on_display(x, y, w as int, h as int) { Some((v, blink)) } else { None },
        Shape::Solid => Some((255u8, false)),
        Shape::Frame { step, w, h, v } =>
            if x == step || x == w - 1 - step || y == step || y == h - 1 - step { Some((v, false)) } else { None },
        Shape::SelectBorder { tx, sy, iw, ih, w, h } => {
            let ox = x - tx;
            let oy = y - sy;
            if (ox < ITEM_BORDER_WIDTH || ox >= iw - ITEM_BORDER_WIDTH || oy < ITEM_BORDER_WIDTH || oy >= ih - ITEM_BORDER_WIDTH)
                && on_display(x, y, w as int, h as int) {
                Some((255u8, false))
            } else {
                None
            }
        },
        Shape::Ring { cx, cy } => {
            let d = (x - cx) * (x - cx) + (y - cy) * (y - cy);
            if 12 <= d <= 30 { Some((255u8, false)) } else { None }
        },
        Shape::TimerBar { sx, ex, filled, edges } =>
            if x < sx + filled { Some((255u8, false)) }
            else if edges && (x == sx || x == ex) { Some((6u8, false)) }
            else { Some((0u8, false)) },
    }
}

/// The pins of columns `x0 .. x0 + n` of row `y`, left to right.
pub open spec fn scan_row(s: Shape, x0: int, n: int, y: int) -> Seq<(int, int, u8, bool)>
    decreases n,
{
    if n <= 0 {
        Seq::empty()
    } else {
        let prev = scan_row(s, x0, n - 1, y);
        match cell(s, x0 + n - 1, y) {
            Some(p) => prev.push((x0 + n - 1, y, p.0, p.1)),
            None => prev,
        }
    }
}

/// The pins of columns `x0 .. x1` in rows `y0 .. y0 + n`, row by row.
pub open spec fn scan(s: Shape, x0: int, x1: int, y0: int, n: int) -> Seq<(int, int, u8, bool)>
    decreases n,
{
    if n <= 0 {
        Seq::empty()
    } else {
        scan(s, x0, x1, y0, n - 1) + scan_row(s, x0, x1 - x0, y0 + n - 1)
    }
}

/// The pins of rows `y0 .. y1`, columns `x0 .. x1`.
pub open spec fn rect(s: Shape, x0: int, x1: int, y0: int, y1: int) -> Seq<(int, int, u8, bool)> {
    scan(s, x0, x1, y0, y1 - y0)
}

pub open spec fn pins_view(v: Seq<(i16, i16, u8, bool)>) -> Seq<(int, int, u8, bool)> {
    v.map_values(|p: (i16, i16, u8, bool)| (p.0 as int, p.1 as int, p.2, p.3))
}

/// A shape whose numbers stay small enough to compute with.
pub open spec fn shape_ok(s: Shape) -> bool {
    match s {
        Shape::Fill { v, blink, w, h } => true,
        Shape::Solid => true,
        Shape::Frame { step, w, h, v } => -20000 <= step <= 20000 && -20000 <= w <= 20000 && -20000 <= h <= 20000,
        Shape::SelectBorder { tx, sy, iw, ih, w, h } =>
            -20000 <= tx <= 20000 && -20000 <= sy <= 20000 && -20000 <= iw <= 20000 && -20000 <= ih <= 20000,
        Shape::Ring { cx, cy } => -20000 <= cx <= 20000 && -20000 <= cy <= 20000,
        Shape::TimerBar { sx, ex, filled, edges } => -20000 <= sx <= 20000 && -20000 <= filled <= 20000,
    }
}

fn cell_exec(s: Shape, x: i16, y: i16) -> (r: Option<(u8, bool)>)
    requires
        shape_ok(s),
        -20000 <= x <= 20000,
        -20000 <= y <= 20000,
    ensures
        r == cell(s, x as int, y as int),
{
    match s {
        Shape::Fill { v, blink, w, h } => if 0 <= x && x < w && 0 <= y && y < h { Some((v, blink)) } else { None },
        Shape::Solid => Some((255, false)),
        Shape::Frame { step, w, h, v } =>
            if x == step || x as i32 == w as i32 - 1 - step as i32 || y == step || y as i32 == h as i32 - 1 - step as i32 {
                Some((v, false))
            } else {
                None
            },
        Shape::SelectBorder { tx, sy, iw, ih, w, h } => {
            let ox: i32 = x as i32 - tx as i32;
            let oy: i32 = y as i32 - sy as i32;
            let b: i32 = ITEM_BORDER_WIDTH as i32;
            if (ox < b || ox >= iw as i32 - b || oy < b || oy >= ih as i32 - b) && 0 <= x && x < w && 0 <= y && y < h {
                Some((255, false))
            } else {
                None
            }
        },
        Shape::Ring { cx, cy } => {
            let dx: i64 = x as i64 - cx as i64;
            let dy: i64 = y as i64 - cy as i64;
            assert(0 <= dx * dx <= 40000 * 40000) by (nonlinear_arith)
                requires -40000 <= dx <= 40000;
            assert(0 <= dy * dy <= 40000 * 40000) by (nonlinear_arith)
                requires -40000 <= dy <= 40000;
            let d: i64 = dx * dx + dy * dy;
            if 12 <= d && d <= 30 { Some((255, false)) } else { None }
        },
        Shape::TimerBar { sx, ex, filled, edges } =>
            if (x as i32) < sx as i32 + filled as i32 { Some((255, false)) }
            else if edges && (x == sx || x == ex) { Some((6, false)) }
            else { Some((0, false)) },
    }
}

/// Appends the pins of a shape over rows `y0 .. y1` and columns `x0 .. x1`.
pub fn scan_into(out: &mut Vec<(i16, i16, u8, bool)>, s: Shape, x0: i16, x1: i16, y0: i16, y1: i16)
    requires
        shape_ok(s),
        -20000 <= x0 <= 20000,
        -20000 <= x1 <= 20000,
        -20000 <= y0 <= 20000,
        -20000 <= y1 <= 20000,
    ensures
        pins_view(final(out)@) == pins_view(old(out)@) + rect(s, x0 as int, x1 as int, y0 as int, y1 as int),
{
    let ghost base = pins_view(out@);
    if y1 <= y0 {
        assert(pins_view(out@) =~= base + rect(s, x0 as int, x1 as int, y0 as int, y1 as int));
        return;
    }
    let mut y: i16 = y0;
    assert(pins_view(out@) =~= base + scan(s, x0 as int, x1 as int, y0 as int, 0));
    while y < y1
        invariant
            shape_ok(s),
            -20000 <= x0 <= 20000,
            -20000 <= x1 <= 20000,
            -20000 <= y0 <= y <= y1 <= 20000,
            pins_view(out@) == base + scan(s, x0 as int, x1 as int, y0 as int, y - y0),
        decreases y1 - y,
    {
        let ghost row_start = pins_view(out@);
        let mut x: i16 = x0;
        if x1 <= x0 {
            assert(scan_row(s, x0 as int, x1 - x0, y as int) =~= Seq::empty());
        }
        while x < x1
            invariant
                shape_ok(s),
                -20000 <= x0 <= 20000,
                -20000 <= x1 <= 20000,
                -20000 <= y0 <= y < y1 <= 20000,
                x0 <= x <= x1 || (x == x0 && x1 <= x0),
                pins_view(out@) == row_start + scan_row(s, x0 as int, x - x0, y as int),
            decreases x1 - x,
        {
            let ghost before = pins_view(out@);
            match cell_exec(s, x, y) {
                Some(p) => {
                    out.push((x, y, p.0, p.1));
                    assert(pins_view(out@) =~= before.push((x as int, y as int, p.0, p.1)));
                },
                None => {},
            }
            x += 1;
        }
        proof {
            if x1 <= x0 {
                assert(pins_view(out@) == row_start + scan_row(s, x0 as int, x1 - x0, y as int));
            }
        }
        assert(scan(s, x0 as int, x1 as int, y0 as int, y + 1 - y0)
            == scan(s, x0 as int, x1 as int, y0 as int, y - y0) + scan_row(s, x0 as int, x1 - x0, y as int));
        assert(pins_view(out@) =~= base + scan(s, x0 as int, x1 as int, y0 as int, y + 1 - y0));
        y += 1;
    }
}

/// The outline of a box: along columns `xs .. xs + n` the pins of rows `sy` and
/// `by`, column by column, each only where it is on the display.
pub open spec fn outline_h(xs: int, n: int, sy: int, by: int, w: int, h: int) -> Seq<(int, int, u8, bool)>
    decreases n,
{
    if n <= 0 {
        Seq::empty()
    } else {
        let prev = outline_h(xs, n - 1, sy, by, w, h);
        let x = xs + n - 1;
        if 0 <= x < w {
            let a = if 0 <= sy < h { prev.push((x, sy, 255u8, false)) } else { prev };
            if 0 <= by < h { a.push((x, by, 255u8, false)) } else { a }
        } else {
            prev
        }
    }
}

/// Along rows `ys .. ys + n` the pins of columns `xs` and `rx`, row by row, each
/// only where it is on the display.
pub open spec fn outline_v(ys: int, n: int, xs: int, rx: int, w: int, h: int) -> Seq<(int, int, u8, bool)>
    decreases n,
{
    if n <= 0 {
        Seq::empty()
    } else {
        let prev = outline_v(ys, n - 1, xs, rx, w, h);
        let y = ys + n - 1;
        if 0 <= y < h {
            let a = if 0 <= xs < w { prev.push((xs, y, 255u8, false)) } else { prev };
            if 0 <= rx < w { a.push((rx, y, 255u8, false)) } else { a }
        } else {
            prev
        }
    }
}

/// The full-strength outline of the box at column `xs`, `size` wide, from row
/// `sy` to row `by`: its top and bottom edges, then its sides.
pub open spec fn box_outline(xs: int, size: int, sy: int, by: int, w: int, h: int) -> Seq<(int, int, u8, bool)> {
    outline_h(xs, size, sy, by, w, h) + outline_v(sy, by - sy + 1, xs, xs + size - 1, w, h)
}

fn outline_into(out: &mut Vec<(i16, i16, u8, bool)>, xs: i16, size: i16, sy: i16, by: i16, w: i16, h: i16)
    requires
        -10000 <= xs <= 10000,
        0 <= size <= 10000,
        -10000 <= sy <= 10000,
        -10000 <= by <= 10000,
    ensures
        pins_view(final(out)@) == pins_view(old(out)@) + box_outline(xs as int, size as int, sy as int, by as int, w as int, h as int),
{
    let ghost base = pins_view(out@);
    let mut i: i16 = 0;
    while i < size
        invariant
            -10000 <= xs <= 10000,
            0 <= size <= 10000,
            0 <= i <= size,
            pins_view(out@) == base + outline_h(xs as int, i as int, sy as int, by as int, w as int, h as int),
        decreases size - i,
    {
        let x: i16 = xs + i;
        let ghost b0 = pins_view(out@);
        if 0 <= x && x < w {
            if 0 <= sy && sy < h {
                out.push((x, sy, 255, false));
                assert(pins_view(out@) =~= b0.push((x as int, sy as int, 255u8, false)));
            }
            let ghost b1 = pins_view(out@);
            if 0 <= by && by < h {
                out.push((x, by, 255, false));
                assert(pins_view(out@) =~= b1.push((x as int, by as int, 255u8, false)));
            }
        }
        assert(pins_view(out@) =~= base + outline_h(xs as int, i + 1, sy as int, by as int, w as int, h as int));
        i += 1;
    }
    let ghost mid = pins_view(out@);
    let rx: i16 = xs + size - 1;
    let mut y: i16 = sy;
    if by < sy {
        assert(outline_v(sy as int, by - sy + 1, xs as int, rx as int, w as int, h as int) =~= Seq::empty());
    }
    while y <= by
        invariant
            -10000 <= sy <= 10000,
            -10000 <= by <= 10000,
            sy <= y <= by + 1 || (y == sy && by < sy),
            rx == xs + size - 1,
            pins_view(out@) == mid + outline_v(sy as int, y - sy, xs as int, rx as int, w as int, h as int),
        decreases by + 1 - y,
    {
        let ghost b0 = pins_view(out@);
        if 0 <= y && y < h {
            if 0 <= xs && xs < w {
                out.push((xs, y, 255, false));
                assert(pins_view(out@) =~= b0.push((xs as int, y as int, 255u8, false)));
            }
            let ghost b1 = pins_view(out@);
            if 0 <= rx && rx < w {
                out.push((rx, y, 255, false));
                assert(pins_view(out@) =~= b1.push((rx as int, y as int, 255u8, false)));
            }
        }
        assert(pins_view(out@) =~= mid + outline_v(sy as int, y + 1 - sy, xs as int, rx as int, w as int, h as int));
        y += 1;
    }
    assert(pins_view(out@) =~= base + box_outline(xs as int, size as int, sy as int, by as int, w as int, h as int));
}

/// A cross of two diagonals through column `cx` and row `cy`, `k` pins each way:
/// for the first `n` steps across from `-k`, the pin on the falling diagonal,
/// then the one on the rising diagonal, each only where it is on the display.
pub open spec fn cross(cx: int, cy: int, k: int, n: int, w: int, h: int) -> Seq<(int, int, u8, bool)>
    decreases n,
{
    if n <= 0 {
        Seq::empty()
    } else {
        let prev = cross(cx, cy, k, n - 1, w, h);
        let i = -k + n - 1;
        let a = if on_display(cx + i, cy + i, w, h) { prev.push((cx + i, cy + i, 255u8, false)) } else { prev };
        if on_display(cx + i, cy - i, w, h) { a.push((cx + i, cy - i, 255u8, false)) } else { a }
    }
}

fn cross_into(out: &mut Vec<(i16, i16, u8, bool)>, cx: i16, cy: i16, k: i16, w: i16, h: i16)
    requires
        -10000 <= cx <= 10000,
        -10000 <= cy <= 10000,
        0 <= k <= 100,
    ensures
        pins_view(final(out)@) == pins_view(old(out)@) + cross(cx as int, cy as int, k as int, 2 * k + 1, w as int, h as int),
{
    let ghost base = pins_view(out@);
    let mut i: i16 = -k;
    while i <= k
        invariant
            -10000 <= cx <= 10000,
            -10000 <= cy <= 10000,
            0 <= k <= 100,
            -k <= i <= k + 1,
            pins_view(out@) == base + cross(cx as int, cy as int, k as int, i + k, w as int, h as int),
        decreases k + 1 - i,
    {
        let ghost b0 = pins_view(out@);
        let x: i16 = cx + i;
        let y1: i16 = cy + i;
        let y2: i16 = cy - i;
        if x >= 0 && x < w && y1 >= 0 && y1 < h {
            out.push((x, y1, 255, false));
            assert(pins_view(out@) =~= b0.push((x as int, y1 as int, 255u8, false)));
        }
        let ghost b1 = pins_view(out@);
        if x >= 0 && x < w && y2 >= 0 && y2 < h {
            out.push((x, y2, 255, false));
            assert(pins_view(out@) =~= b1.push((x as int, y2 as int, 255u8, false)));
        }
        assert(pins_view(out@) =~= base + cross(cx as int, cy as int, k as int, i + 1 + k, w as int, h as int));
        i += 1;
    }
}

/// The width (and height) of an answer box: a fifth of the display.
pub open spec fn item_size(w: int) -> int {
    w / 5
}

/// The top and bottom rows of the answer boxes, above the timer bar.
pub open spec fn panel_top(w: int, h: int) -> int {
    h - item_size(w) - TIMER_BAR_HEIGHT - BAR_START_Y
}

pub open spec fn panel_bottom(w: int, h: int) -> int {
    panel_top(w, h) + item_size(w) - 1
}

/// The quiz box's top-left corner: centred across, and centred down in the
/// space above the answer panel.
pub open spec fn quiz_origin(w: int, h: int) -> (int, int) {
    (tdiv(w - QUIZ_SIZE, 2), tdiv(h - QUIZ_SIZE - (item_size(w) + ITEM_SPACING + TIMER_BAR_HEIGHT), 2))
}

/// The corner of the quiz box on a `width` by `height` display.
pub fn quiz_box_origin(width: i16, height: i16) -> (r: (i16, i16))
    requires
        0 <= width <= 10000,
        0 <= height <= 10000,
    ensures
        (r.0 as int, r.1 as int) == quiz_origin(width as int, height as int),
{
    let item: i16 = width / 5;
    let a: i16 = width - QUIZ_SIZE;
    let b: i16 = height - QUIZ_SIZE - (item + ITEM_SPACING + TIMER_BAR_HEIGHT);
    (a / 2, b / 2)
}

/// The strength that fills the tactile game's quiz box for an answer level
/// (`0..=15`, seventeen steps of strength per level).
pub fn tg_quiz_fill(answer: u8) -> (r: u8)
    requires
        answer <= 15,
    ensures
        r == answer * 17,
{
    answer * 17
}

/// The timer bar along the bottom row, from column 2 to three columns from the
/// right: full up to `filled` pins, off after, faint at the ends when `edges`.
/// Nothing on a display too small for it.
pub open spec fn timer_pins(w: int, h: int, filled: i16, edges: bool) -> Seq<(int, int, u8, bool)> {
    if h - TIMER_BAR_HEIGHT < 0 || w - 4 <= 0 {
        Seq::empty()
    } else {
        rect(Shape::TimerBar { sx: 2, ex: (w - 3) as i16, filled, edges }, 2, w - 2, h - TIMER_BAR_HEIGHT, h)
    }
}

/// The number of timer bar pins across on a display `width` wide.
pub fn timer_bar_width(width: i16) -> (r: i16)
    requires
        0 <= width <= 10000,
    ensures
        r == width - 4,
{
    width - 4
}

fn timer_into(out: &mut Vec<(i16, i16, u8, bool)>, w: i16, h: i16, filled: i16, edges: bool)
    requires
        0 <= w <= 10000,
        0 <= h <= 10000,
        -20000 <= filled <= 20000,
    ensures
        pins_view(final(out)@) == pins_view(old(out)@) + timer_pins(w as int, h as int, filled, edges),
{
    if h - TIMER_BAR_HEIGHT < 0 || w - 4 <= 0 {
        assert(pins_view(out@) =~= pins_view(old(out)@) + Seq::empty());
        return;
    }
    scan_into(out, Shape::TimerBar { sx: 2, ex: w - 3, filled, edges }, 2, w - 2, h - TIMER_BAR_HEIGHT, h);
}

/// The strength of answer box `idx` in the tactile game: its level's seventeen
/// steps per level, or even steps when no question is set.
pub open spec fn tg_level(levels: Option<Seq<u8>>, idx: int) -> u8 {
    match levels {
        Some(l) => (l[idx] * 17) as u8,
        None => (idx * 51) as u8,
    }
}

/// The fills of the first `k` answer boxes of the tactile game.
pub open spec fn tg_cells(w: int, h: int, levels: Option<Seq<u8>>, k: int) -> Seq<(int, int, u8, bool)>
    decreases k,
{
    if k <= 0 {
        Seq::empty()
    } else {
        let xs = BAR_START_X + (k - 1) * item_size(w);
        tg_cells(w, h, levels, k - 1) + rect(
            Shape::Fill { v: tg_level(levels, k - 1), blink: false, w: w as i16, h: h as i16 },
            xs + 1, xs + item_size(w) - 1, panel_top(w, h) + 1, panel_bottom(w, h))
    }
}

/// The strength that the chosen box flashes with after an answer: blinking every
/// three frames when right, off when wrong.
pub open spec fn feedback_strength(correct: bool, tick: i16) -> u8 {
    if correct && tdiv(tick as int, 3) % 2 == 0 { 255 } else { 0 }
}

/// The answer panel of the tactile game: the five boxes filled with their
/// strengths, the chosen one outlined at full strength, and its inside flashed
/// while an answer is being shown.
pub open spec fn tg_panel(w: int, h: int, levels: Option<Seq<u8>>, sel: int, feedback: Option<bool>, tick: i16) -> Seq<(int, int, u8, bool)> {
    let iw = item_size(w);
    let sy = panel_top(w, h);
    let by = panel_bottom(w, h);
    let tx = BAR_START_X + sel * iw;
    tg_cells(w, h, levels, 5)
        + rect(Shape::SelectBorder { tx: tx as i16, sy: sy as i16, iw: iw as i16, ih: iw as i16, w: w as i16, h: h as i16 }, tx, tx + iw, sy, by + 1)
        + match feedback {
            Some(c) => rect(Shape::Fill { v: feedback_strength(c, tick), blink: false, w: w as i16, h: h as i16 },
                tx + ITEM_BORDER_WIDTH, tx + iw - ITEM_BORDER_WIDTH, sy + ITEM_BORDER_WIDTH, by - ITEM_BORDER_WIDTH + 1),
            None => Seq::empty(),
        }
}

/// The tactile game's play screen: the answer panel (when the answer bar is
/// there, with box `selected` chosen), then the timer bar with `filled` pins.
pub open spec fn tg_play(w: int, h: int, levels: Option<Seq<u8>>, selected: Option<usize>, feedback: Option<bool>, tick: i16, filled: i16) -> Seq<(int, int, u8, bool)> {
    (match selected {
        Some(sel) => tg_panel(w, h, levels, sel as int, feedback, tick),
        None => Seq::empty(),
    }) + timer_pins(w, h, filled, true)
}

/// The pins of the tactile game's play screen (see `tg_play`), drawn after the
/// quiz box.
pub fn tg_play_pins(width: i16, height: i16, levels: Option<&Vec<u8>>, selected: Option<usize>, feedback: Option<bool>, tick: i16, filled: i16) -> (r: Vec<(i16, i16, u8, bool)>)
    requires
        0 <= width <= 10000,
        0 <= height <= 10000,
        -20000 <= filled <= 20000,
        selected matches Some(s) ==> s < 5,
        levels matches Some(l) ==> l@.len() >= 5 && forall|i: int| 0 <= i < 5 ==> #[trigger] l@[i] <= 15,
    ensures
        pins_view(r@) == tg_play(width as int, height as int, match levels { Some(l) => Some(l@), None => None }, selected, feedback, tick, filled),
{
    let mut out: Vec<(i16, i16, u8, bool)> = Vec::new();
    let ghost lv = match levels { Some(l) => Some(l@), None => None };
    if let Some(sel) = selected {
        let iw: i16 = width / 5;
        let sy: i16 = height - iw - TIMER_BAR_HEIGHT - BAR_START_Y;
        let by: i16 = sy + iw - 1;
        let mut idx: i16 = 0;
        assert(pins_view(out@) =~= tg_cells(width as int, height as int, lv, 0));
        while idx < 5
            invariant
                0 <= width <= 10000,
                0 <= height <= 10000,
                0 <= idx <= 5,
                iw == item_size(width as int),
                sy == panel_top(width as int, height as int),
                by == panel_bottom(width as int, height as int),
                lv == (match levels { Some(l) => Some(l@), None => None }),
                levels matches Some(l) ==> l@.len() >= 5 && forall|i: int| 0 <= i < 5 ==> #[trigger] l@[i] <= 15,
                pins_view(out@) == tg_cells(width as int, height as int, lv, idx as int),
            decreases 5 - idx,
        {
            assert(0 <= idx * iw <= 5 * 2000) by (nonlinear_arith)
                requires 0 <= idx <= 5, 0 <= iw <= 2000;
            let xs: i16 = BAR_START_X + idx * iw;
            let v: u8 = match levels {
                Some(l) => l[idx as usize] * 17,
                None => (idx as u8) * 51,
            };
            assert(v == tg_level(lv, idx as int));
            scan_into(&mut out, Shape::Fill { v, blink: false, w: width, h: height }, xs + 1, xs + iw - 1, sy + 1, by);
            idx += 1;
        }
        assert(0 <= (sel as i16) * iw <= 5 * 2000) by (nonlinear_arith)
            requires 0 <= sel < 5, 0 <= iw <= 2000;
        let tx: i16 = BAR_START_X + (sel as i16) * iw;
        scan_into(&mut out, Shape::SelectBorder { tx, sy, iw, ih: iw, w: width, h: height }, tx, tx + iw, sy, by + 1);
        if let Some(c) = feedback {
            let v: u8 = if c { if (tick / 3) % 2 == 0 { 255 } else { 0 } } else { 0 };
            scan_into(&mut out, Shape::Fill { v, blink: false, w: width, h: height },
                tx + ITEM_BORDER_WIDTH, tx + iw - ITEM_BORDER_WIDTH, sy + ITEM_BORDER_WIDTH, by - ITEM_BORDER_WIDTH + 1);
        } else {
            assert(pins_view(out@) =~= pins_view(out@) + Seq::empty());
        }
        assert(pins_view(out@) =~= tg_panel(width as int, height as int, lv, sel as int, feedback, tick));
    }
    let ghost head = pins_view(out@);
    timer_into(&mut out, width, height, filled, true);
    assert(pins_view(out@) =~= tg_play(width as int, height as int, lv, selected, feedback, tick, filled));
    out
}

/// The pause screen: two upright bars, four pins wide and twelve high, four
/// pins apart round the centre.
pub open spec fn stop_screen(w: int, h: int) -> Seq<(int, int, u8, bool)> {
    let cx = w / 2;
    let bar_y = h / 2 - 6;
    rect(Shape::Solid, cx - 4 - 2, cx - 2, bar_y, bar_y + 12) + rect(Shape::Solid, cx + 2, cx + 6, bar_y, bar_y + 12)
}

pub fn stop_screen_pins(width: i16, height: i16) -> (r: Vec<(i16, i16, u8, bool)>)
    requires
        0 <= width <= 10000,
        0 <= height <= 10000,
    ensures
        pins_view(r@) == stop_screen(width as int, height as int),
{
    let bar_w: i16 = 4;
    let bar_h: i16 = 12;
    let gap: i16 = 4;
    let cx: i16 = width / 2;
    let cy: i16 = height / 2;
    let left_x: i16 = cx - bar_w - gap / 2;
    let bar_y: i16 = cy - bar_h / 2;
    let mut out: Vec<(i16, i16, u8, bool)> = Vec::new();
    scan_into(&mut out, Shape::Solid, left_x, left_x + bar_w, bar_y, bar_y + bar_h);
    let right_x: i16 = cx + gap / 2;
    scan_into(&mut out, Shape::Solid, right_x, right_x + bar_w, bar_y, bar_y + bar_h);
    assert(pins_view(out@) =~= stop_screen(width as int, height as int));
    out
}

/// The question mark at the centre of the reset screen.
pub open spec fn question_mark(cx: int, cy: int) -> Seq<(int, int, u8, bool)> {
    seq![(cx - 1, cy - 3, 255u8, false), (cx, cy - 3, 255u8, false), (cx + 1, cy - 3, 255u8, false),
        (cx + 1, cy - 2, 255u8, false), (cx, cy - 1, 255u8, false), (cx, cy, 255u8, false), (cx, cy + 2, 255u8, false)]
}

/// The reset screen: a frame that closes in by one pin every six frames over
/// three steps, and a question mark at the centre.
pub open spec fn reset_screen(w: int, h: int, tick: i16) -> Seq<(int, int, u8, bool)> {
    let step = tdiv(tick as int, 6) % 3;
    rect(Shape::Frame { step: step as i16, w: w as i16, h: h as i16, v: 255 }, 0, w, 0, h) + question_mark(w / 2, h / 2)
}

pub fn reset_screen_pins(width: i16, height: i16, tick: i16) -> (r: Vec<(i16, i16, u8, bool)>)
    requires
        0 <= width <= 10000,
        0 <= height <= 10000,
    ensures
        pins_view(r@) == reset_screen(width as int, height as int, tick),
{
    let q: i16 = tick / 6;
    let m: i16 = q % 3;
    let step: i16 = if m < 0 { m + 3 } else { m };
    assert(step == tdiv(tick as int, 6) % 3);
    let mut out: Vec<(i16, i16, u8, bool)> = Vec::new();
    scan_into(&mut out, Shape::Frame { step, w: width, h: height, v: 255 }, 0, width, 0, height);
    let cx: i16 = width / 2;
    let cy: i16 = height / 2;
    let ghost head = pins_view(out@);
    out.push((cx - 1, cy - 3, 255, false));
    out.push((cx, cy - 3, 255, false));
    out.push((cx + 1, cy - 3, 255, false));
    out.push((cx + 1, cy - 2, 255, false));
    out.push((cx, cy - 1, 255, false));
    out.push((cx, cy, 255, false));
    out.push((cx, cy + 2, 255, false));
    assert(pins_view(out@) =~= head + question_mark(cx as int, cy as int));
    out
}

/// The game-over screen: the display's edge pulsing faintly (on for four
/// frames, off for four) and a large cross at the centre.
pub open spec fn over_screen(w: int, h: int, tick: i16) -> Seq<(int, int, u8, bool)> {
    let v: u8 = if tdiv(tick as int, 4) % 2 == 0 { 3 } else { 0 };
    rect(Shape::Frame { step: 0, w: w as i16, h: h as i16, v }, 0, w, 0, h) + cross(w / 2, h / 2, 6, 13, w, h)
}

pub fn over_screen_pins(width: i16, height: i16, tick: i16) -> (r: Vec<(i16, i16, u8, bool)>)
    requires
        0 <= width <= 10000,
        0 <= height <= 10000,
    ensures
        pins_view(r@) == over_screen(width as int, height as int, tick),
{
    let v: u8 = if (tick / 4) % 2 == 0 { 3 } else { 0 };
    let mut out: Vec<(i16, i16, u8, bool)> = Vec::new();
    scan_into(&mut out, Shape::Frame { step: 0, w: width, h: height, v }, 0, width, 0, height);
    cross_into(&mut out, width / 2, height / 2, 6, width, height);
    out
}

/// The answer screen: a ring round the centre for a right answer, a cross for a
/// wrong one.
pub open spec fn feedback_screen(w: int, h: int, correct: bool) -> Seq<(int, int, u8, bool)> {
    if correct {
        rect(Shape::Ring { cx: (w / 2) as i16, cy: (h / 2) as i16 }, 0, w, 0, h)
    } else {
        cross(w / 2, h / 2, 5, 11, w, h)
    }
}

pub fn feedback_screen_pins(width: i16, height: i16, correct: bool) -> (r: Vec<(i16, i16, u8, bool)>)
    requires
        0 <= width <= 10000,
        0 <= height <= 10000,
        (width / 2) * (width / 2) + (height / 2) * (height / 2) <= i16::MAX,
    ensures
        pins_view(r@) == feedback_screen(width as int, height as int, correct),
{
    let mut out: Vec<(i16, i16, u8, bool)> = Vec::new();
    if correct {
        scan_into(&mut out, Shape::Ring { cx: width / 2, cy: height / 2 }, 0, width, 0, height);
    } else {
        cross_into(&mut out, width / 2, height / 2, 5, width, height);
    }
    out
}

/// The pin strength of a vibration level in the tactile test: its blinking
/// strength, or off.
pub open spec fn tt_strength(level: u8) -> (u8, bool) {
    match level_blink(level) {
        Some(v) => (v, true),
        None => (0u8, false),
    }
}

fn tt_strength_exec(level: u8) -> (r: (u8, bool))
    ensures
        r == tt_strength(level),
{
    match crate::tactile_test::get_level_intensity(level) {
        Some(v) => (v, true),
        None => (0, false),
    }
}

/// An answer box of the tactile test: its outline, then its inside filled with
/// `fill`.
pub open spec fn tt_box(w: int, h: int, xs: int, fill: (u8, bool)) -> Seq<(int, int, u8, bool)> {
    let size = item_size(w);
    box_outline(xs, size, panel_top(w, h), panel_bottom(w, h), w, h)
        + rect(Shape::Fill { v: fill.0, blink: fill.1, w: w as i16, h: h as i16 }, xs + 1, xs + size - 1, panel_top(w, h) + 1, panel_bottom(w, h))
}

fn tt_box_into(out: &mut Vec<(i16, i16, u8, bool)>, w: i16, h: i16, xs: i16, fill: (u8, bool), outline: bool)
    requires
        0 <= w <= 10000,
        0 <= h <= 10000,
        -10000 <= xs <= 10000,
    ensures
        pins_view(final(out)@) == pins_view(old(out)@)
            + (if outline { box_outline(xs as int, item_size(w as int), panel_top(w as int, h as int), panel_bottom(w as int, h as int), w as int, h as int) } else { Seq::empty() })
            + rect(Shape::Fill { v: fill.0, blink: fill.1, w, h }, xs + 1, xs + item_size(w as int) - 1, panel_top(w as int, h as int) + 1, panel_bottom(w as int, h as int)),
{
    let size: i16 = w / 5;
    let sy: i16 = h - size - TIMER_BAR_HEIGHT - BAR_START_Y;
    let by: i16 = sy + size - 1;
    let ghost base = pins_view(out@);
    if outline {
        outline_into(out, xs, size, sy, by, w, h);
    } else {
        assert(pins_view(out@) =~= base + Seq::empty());
    }
    scan_into(out, Shape::Fill { v: fill.0, blink: fill.1, w, h }, xs + 1, xs + size - 1, sy + 1, by);
}

/// The first `k` boxes of the tactile test's start screen: box `i` at a fifth
/// of the display per box, filled with level `i + 1`.
pub open spec fn tt_ready(w: int, h: int, k: int) -> Seq<(int, int, u8, bool)>
    decreases k,
{
    if k <= 0 {
        Seq::empty()
    } else {
        let sw = w / 5;
        let xs = BAR_START_X + (k - 1) * sw + tdiv(sw - item_size(w), 2);
        tt_ready(w, h, k - 1) + tt_box(w, h, xs, tt_strength(k as u8))
    }
}

/// The tactile test's start screen: five boxes showing the five levels.
pub fn tt_ready_pins(width: i16, height: i16) -> (r: Vec<(i16, i16, u8, bool)>)
    requires
        0 <= width <= 10000,
        0 <= height <= 10000,
    ensures
        pins_view(r@) == tt_ready(width as int, height as int, 5),
{
    let mut out: Vec<(i16, i16, u8, bool)> = Vec::new();
    let item: i16 = width / 5;
    let sector: i16 = width / 5;
    let mut idx: i16 = 0;
    assert(pins_view(out@) =~= tt_ready(width as int, height as int, 0));
    while idx < 5
        invariant
            0 <= width <= 10000,
            0 <= height <= 10000,
            0 <= idx <= 5,
            item == item_size(width as int),
            sector == width / 5,
            pins_view(out@) == tt_ready(width as int, height as int, idx as int),
        decreases 5 - idx,
    {
        assert(0 <= idx * sector <= 4 * 2000) by (nonlinear_arith)
            requires 0 <= idx < 5, 0 <= sector <= 2000;
        assert(sector - item == 0);
        let xs: i16 = BAR_START_X + idx * sector + (sector - item) / 2;
        assert(xs == BAR_START_X + idx * sector + tdiv(sector - item, 2));
        assert(-10000 <= xs <= 10000);
        let fill = tt_strength_exec((idx + 1) as u8);
        tt_box_into(&mut out, width, height, xs, fill, true);
        idx += 1;
    }
    out
}

/// The strength of answer box `idx` of the tactile test: its question's level,
/// or even steps when no question is set.
pub open spec fn tt_level(levels: Option<Seq<u8>>, idx: int) -> (u8, bool) {
    match levels {
        Some(l) => tt_strength(l[idx]),
        None => ((idx * 85) as u8, false),
    }
}

/// The column where answer box `idx` of the tactile test starts: centred in its
/// third of the display.
pub open spec fn tt_box_x(w: int, idx: int) -> int {
    BAR_START_X + idx * (w / 3) + tdiv(w / 3 - item_size(w), 2)
}

/// The first `k` answer boxes of the tactile test's play screen.
pub open spec fn tt_answers(w: int, h: int, levels: Option<Seq<u8>>, k: int) -> Seq<(int, int, u8, bool)>
    decreases k,
{
    if k <= 0 {
        Seq::empty()
    } else {
        tt_answers(w, h, levels, k - 1) + tt_box(w, h, tt_box_x(w, k - 1), tt_level(levels, k - 1))
    }
}

/// The inside of the quiz box filled with a strength.
pub open spec fn quiz_fill(w: int, h: int, fill: (u8, bool)) -> Seq<(int, int, u8, bool)> {
    let (qx, qy) = quiz_origin(w, h);
    rect(Shape::Fill { v: fill.0, blink: fill.1, w: w as i16, h: h as i16 }, qx + 1, qx + QUIZ_SIZE - 1, qy + 1, qy + QUIZ_SIZE - 1)
}

fn quiz_fill_into(out: &mut Vec<(i16, i16, u8, bool)>, w: i16, h: i16, fill: (u8, bool))
    requires
        0 <= w <= 10000,
        0 <= h <= 10000,
    ensures
        pins_view(final(out)@) == pins_view(old(out)@) + quiz_fill(w as int, h as int, fill),
{
    let (qx, qy) = quiz_box_origin(w, h);
    scan_into(out, Shape::Fill { v: fill.0, blink: fill.1, w, h }, qx + 1, qx + QUIZ_SIZE - 1, qy + 1, qy + QUIZ_SIZE - 1);
}

/// The tactile test's play screen, drawn after the quiz box's outline: the quiz
/// box filled with the answer's level (off without a question), the three answer
/// boxes when the answer bar is there, and the timer bar with `filled` pins.
pub open spec fn tt_play(w: int, h: int, answer: Option<u8>, levels: Option<Seq<u8>>, bar: bool, filled: i16) -> Seq<(int, int, u8, bool)> {
    quiz_fill(w, h, match answer { Some(a) => tt_strength(a), None => (0u8, false) })
        + (if bar { tt_answers(w, h, levels, 3) } else { Seq::empty() })
        + timer_pins(w, h, filled, false)
}

pub fn tt_play_pins(width: i16, height: i16, answer: Option<u8>, levels: Option<&Vec<u8>>, bar: bool, filled: i16) -> (r: Vec<(i16, i16, u8, bool)>)
    requires
        0 <= width <= 10000,
        0 <= height <= 10000,
        -20000 <= filled <= 20000,
        levels matches Some(l) ==> l@.len() >= 3,
    ensures
        pins_view(r@) == tt_play(width as int, height as int, answer, match levels { Some(l) => Some(l@), None => None }, bar, filled),
{
    let ghost lv = match levels { Some(l) => Some(l@), None => None };
    let mut out: Vec<(i16, i16, u8, bool)> = Vec::new();
    let fill = match answer {
        Some(a) => tt_strength_exec(a),
        None => (0u8, false),
    };
    quiz_fill_into(&mut out, width, height, fill);
    let ghost head = pins_view(out@);
    if bar {
        let item: i16 = width / 5;
        let sector: i16 = width / 3;
        let mut idx: i16 = 0;
        assert(pins_view(out@) =~= head + tt_answers(width as int, height as int, lv, 0));
        while idx < 3
            invariant
                0 <= width <= 10000,
                0 <= height <= 10000,
                0 <= idx <= 3,
                item == item_size(width as int),
                sector == width / 3,
                lv == (match levels { Some(l) => Some(l@), None => None }),
                levels matches Some(l) ==> l@.len() >= 3,
                pins_view(out@) == head + tt_answers(width as int, height as int, lv, idx as int),
            decreases 3 - idx,
        {
            assert(0 <= idx * sector <= 2 * 3400) by (nonlinear_arith)
                requires 0 <= idx < 3, 0 <= sector <= 3400;
            assert(0 <= sector - item <= 3400);
            let half_gap: i16 = (sector - item) / 2;
            assert(0 <= half_gap <= 1700);
            let xs: i16 = BAR_START_X + idx * sector + half_gap;
            assert(xs == tt_box_x(width as int, idx as int));
            assert(-10000 <= xs <= 10000);
            let fill = match levels {
                Some(l) => tt_strength_exec(l[idx as usize]),
                None => ((idx as u8) * 85, false),
            };
            assert(fill == tt_level(lv, idx as int));
            let ghost before = pins_view(out@);
            tt_box_into(&mut out, width, height, xs, fill, true);
            assert(pins_view(out@) =~= head + tt_answers(width as int, height as int, lv, idx + 1));
            idx += 1;
        }
    } else {
        assert(pins_view(out@) =~= head + Seq::empty());
    }
    timer_into(&mut out, width, height, filled, false);
    assert(pins_view(out@) =~= tt_play(width as int, height as int, answer, lv, bar, filled));
    out
}

/// The level that fills answer box `idx` in the guide's last step.
pub open spec fn guide_level(idx: int) -> u8 {
    if idx == 0 { 5 } else if idx == 1 { 2 } else if idx == 2 { 4 } else { 0 }
}

/// The first `k` answer boxes of the guide: outlined when they show at this
/// step and frame, filled with their levels in step 7.
pub open spec fn guide_boxes(w: int, h: int, step: u8, tick: i16, k: int) -> Seq<(int, int, u8, bool)>
    decreases k,
{
    if k <= 0 {
        Seq::empty()
    } else {
        let idx = k - 1;
        let xs = tt_box_x(w, idx);
        let size = item_size(w);
        guide_boxes(w, h, step, tick, k - 1)
            + (if panel_shown(step, tick, idx) { box_outline(xs, size, panel_top(w, h), panel_bottom(w, h), w, h) } else { Seq::empty() })
            + (if step == 7 {
                rect(Shape::Fill { v: tt_strength(guide_level(idx)).0, blink: tt_strength(guide_level(idx)).1, w: w as i16, h: h as i16 },
                    xs + 1, xs + size - 1, panel_top(w, h) + 1, panel_bottom(w, h))
            } else {
                Seq::empty()
            })
    }
}

/// The guide's screen at a step and frame, drawn after the quiz box's outline
/// (when `TactileTest::guide_quiz_border` shows it): the quiz box filled with level 2 in steps 6 and 7, the
/// three answer boxes, and in step 5 the whole timer bar blinking.
pub open spec fn guide_screen(w: int, h: int, step: u8, tick: i16) -> Seq<(int, int, u8, bool)> {
    (if step == 6 || step == 7 { quiz_fill(w, h, tt_strength(2)) } else { Seq::empty() })
        + guide_boxes(w, h, step, tick, 3)
        + (if step == 5 && blink_on(tick) && h - TIMER_BAR_HEIGHT >= 0 {
            rect(Shape::Fill { v: 255, blink: false, w: w as i16, h: h as i16 }, 2, w - 2, h - TIMER_BAR_HEIGHT, h)
        } else {
            Seq::empty()
        })
}

impl TactileTest {
    /// The pins of the guide's screen now (see `guide_screen`).
    pub fn guide_screen_pins(&self, width: i16, height: i16) -> (r: Vec<(i16, i16, u8, bool)>)
        requires
            0 <= width <= 10000,
            0 <= height <= 10000,
        ensures
            pins_view(r@) == guide_screen(width as int, height as int, self.guide_step, self.tick),
    {
        let step: u8 = self.guide_step;
        let tick: i16 = self.tick;
        let mut out: Vec<(i16, i16, u8, bool)> = Vec::new();
        if step == 6 || step == 7 {
            quiz_fill_into(&mut out, width, height, tt_strength_exec(2));
        }
        let ghost head = pins_view(out@);
        let item: i16 = width / 5;
        let sector: i16 = width / 3;
        let sy: i16 = height - item - TIMER_BAR_HEIGHT - BAR_START_Y;
        let by: i16 = sy + item - 1;
        let mut idx: i16 = 0;
        assert(pins_view(out@) =~= head + guide_boxes(width as int, height as int, step, tick, 0));
        while idx < 3
            invariant
                0 <= width <= 10000,
                0 <= height <= 10000,
                0 <= idx <= 3,
                item == item_size(width as int),
                sector == width / 3,
                sy == panel_top(width as int, height as int),
                by == panel_bottom(width as int, height as int),
                self.guide_step == step,
                self.tick == tick,
                pins_view(out@) == head + guide_boxes(width as int, height as int, step, tick, idx as int),
            decreases 3 - idx,
        {
            assert(0 <= idx * sector <= 2 * 3400) by (nonlinear_arith)
                requires 0 <= idx < 3, 0 <= sector <= 3400;
            assert(0 <= sector - item <= 3400);
            let half_gap: i16 = (sector - item) / 2;
            assert(0 <= half_gap <= 1700);
            let xs: i16 = BAR_START_X + idx * sector + half_gap;
            assert(xs == tt_box_x(width as int, idx as int));
            let ghost before = pins_view(out@);
            if self.guide_panel_border(idx as usize) {
                outline_into(&mut out, xs, item, sy, by, width, height);
            } else {
                assert(pins_view(out@) =~= before + Seq::empty());
            }
            let ghost mid = pins_view(out@);
            if step == 7 {
                let fill = tt_strength_exec(crate::tactile_test::guide_fill_level(idx as usize));
                scan_into(&mut out, Shape::Fill { v: fill.0, blink: fill.1, w: width, h: height }, xs + 1, xs + item - 1, sy + 1, by);
            } else {
                assert(pins_view(out@) =~= mid + Seq::empty());
            }
            assert(pins_view(out@) =~= head + guide_boxes(width as int, height as int, step, tick, idx + 1));
            idx += 1;
        }
        let ghost boxes = pins_view(out@);
        if step == 5 && (tick / 15) % 2 == 0 && height - TIMER_BAR_HEIGHT >= 0 {
            scan_into(&mut out, Shape::Fill { v: 255, blink: false, w: width, h: height }, 2, width - 2, height - TIMER_BAR_HEIGHT, height);
        } else {
            assert(pins_view(out@) =~= boxes + Seq::empty());
        }
        assert(pins_view(out@) =~= guide_screen(width as int, height as int, step, tick));
        out
    }
}

} // verus!
