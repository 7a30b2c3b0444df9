//! The pins Tetris sets to draw its screen, in the order it sets them: the frame,
//! the separator of the side panel, the fixed cells, the landing shadow of the
//! falling piece, the piece, and the next piece in the side panel.
use vstd::prelude::*;
use crate::tetris::{cells_of, lemma_cells_small, BlockType, GameState, Tetris, Tetromino, drop_upto, CELL_SIZE,
    UI_SIDE_WIDTH_CELLS};

verus! {

/// How strongly a pin is raised.
#[derive(Clone, Copy, Debug, PartialEq, Eq, Structural)]
pub enum PinLevel {
    /// Fully raised.
    Full,
    /// The landing shadow's strength.
    Shadow,
}

/// A pin to set: column, row, strength.
pub type Pin = (i16, i16, PinLevel);

/// A pin as plain values.
pub type PinView = (int, int, PinLevel);

pub open spec fn pin_views(v: Seq<Pin>) -> Seq<PinView> {
    v.map_values(|p: Pin| (p.0 as int, p.1 as int, p.2))
}

/// The four pins of a cell whose top-left pin is `(x, y)`, row by row.
pub open spec fn square(x: int, y: int, l: PinLevel) -> Seq<PinView> {
    seq![(x, y, l), (x + 1, y, l), (x, y + 1, l), (x + 1, y + 1, l)]
}

/// `a - b`, or 0 when that is negative (`saturating_sub`).
pub open spec fn sat(a: int, b: int) -> int {
    if a >= b { a - b } else { 0 }
}

/// Where the screen's parts go on a display `pw` by `ph` pins: the frame's
/// corners, the board's origin and the panel's.
pub struct DrawLayout {
    pub ox: int,
    pub oy: int,
    pub bx: int,
    pub sx: int,
    pub sy: int,
    pub ex: int,
    pub ey: int,
}

pub open spec fn draw_layout(lh: int, lw: int, pw: int, ph: int) -> DrawLayout {
    let ui = (UI_SIDE_WIDTH_CELLS * CELL_SIZE) as int;
    let total_w = lh * 2 + ui + 1;
    let total_h = lw * 2;
    let ox = sat(pw, total_w) / 2;
    let oy = sat(ph, total_h) / 2;
    let ex0 = ox + total_w;
    let ey0 = oy + total_h;
    DrawLayout {
        ox,
        oy,
        bx: ox + ui + 1,
        sx: sat(ox, 1),
        sy: sat(oy, 1),
        ex: if ex0 < sat(pw, 1) { ex0 } else { sat(pw, 1) },
        ey: if ey0 < sat(ph, 1) { ey0 } else { sat(ph, 1) },
    }
}

/// The top and bottom edges of the frame over its first `n` columns.
pub open spec fn frame_rows(d: DrawLayout, n: int) -> Seq<PinView>
    decreases n,
{
    if n <= 0 {
        Seq::empty()
    } else {
        frame_rows(d, n - 1) + seq![(d.sx + n - 1, d.sy, PinLevel::Full), (d.sx + n - 1, d.ey, PinLevel::Full)]
    }
}

/// The left and right edges of the frame over its first `n` rows.
pub open spec fn frame_cols(d: DrawLayout, n: int) -> Seq<PinView>
    decreases n,
{
    if n <= 0 {
        Seq::empty()
    } else {
        frame_cols(d, n - 1) + seq![(d.sx, d.sy + n - 1, PinLevel::Full), (d.ex, d.sy + n - 1, PinLevel::Full)]
    }
}

/// The separator column over the first `n` rows.
pub open spec fn separator(d: DrawLayout, x: int, n: int) -> Seq<PinView>
    decreases n,
{
    if n <= 0 {
        Seq::empty()
    } else {
        separator(d, x, n - 1).push((x, d.sy + n - 1, PinLevel::Full))
    }
}

/// The fixed cells among the first `n` cells taken row by row across the board
/// (cell `i` is at column `i % lh` of row `i / lh`).
pub open spec fn board_pins(grid: Seq<Seq<Option<BlockType>>>, lh: int, d: DrawLayout, n: int) -> Seq<PinView>
    decreases n,
{
    if n <= 0 {
        Seq::empty()
    } else {
        let i = n - 1;
        let x = i % lh;
        let y = i / lh;
        board_pins(grid, lh, d, n - 1) + if grid[x][y] is Some {
            square(d.bx + x * 2, d.oy + y * 2, PinLevel::Full)
        } else {
            Seq::empty()
        }
    }
}

/// The pins of the first `n` cells of a piece moved `shift` cells toward the
/// bottom, for the cells on the board.
pub open spec fn piece_pins(p: Tetromino, shift: int, lh: int, lw: int, d: DrawLayout, pw: int, ph: int, l: PinLevel, n: int) -> Seq<PinView>
    decreases n,
{
    if n <= 0 {
        Seq::empty()
    } else {
        let k = n - 1;
        let px = p.cell_x(k) + shift;
        let py = p.cell_y(k);
        piece_pins(p, shift, lh, lw, d, pw, ph, l, n - 1) + if 0 <= px < lh && 0 <= py < lw {
            cell_pins(d, pw, ph, px, py, l)
        } else {
            Seq::empty()
        }
    }
}

/// The pins of a cell at board position `(px, py)`, row by row, kept when they lie
/// on the display right of the panel.
pub open spec fn cell_pins(d: DrawLayout, pw: int, ph: int, px: int, py: int, l: PinLevel) -> Seq<PinView> {
    let x0 = d.bx + px * 2;
    let y0 = d.oy + py * 2;
    keep(d, pw, ph, (x0, y0, l)) + keep(d, pw, ph, (x0 + 1, y0, l)) + keep(d, pw, ph, (x0, y0 + 1, l)) + keep(d, pw, ph, (x0 + 1, y0 + 1, l))
}

/// A pin, when it lies on the display right of the panel.
pub open spec fn keep(d: DrawLayout, pw: int, ph: int, p: PinView) -> Seq<PinView> {
    if d.bx <= p.0 < pw && 0 <= p.1 < ph { seq![p] } else { Seq::empty() }
}

/// The smallest and largest offsets of a shape's cells (starting from 5 and -1).
pub open spec fn shape_box(c: Seq<(i32, i32)>) -> (int, int, int, int) {
    let minx = min_of(min_of(min_of(min_of(5, c[0].0 as int), c[1].0 as int), c[2].0 as int), c[3].0 as int);
    let maxx = max_of(max_of(max_of(max_of(-1, c[0].0 as int), c[1].0 as int), c[2].0 as int), c[3].0 as int);
    let miny = min_of(min_of(min_of(min_of(5, c[0].1 as int), c[1].1 as int), c[2].1 as int), c[3].1 as int);
    let maxy = max_of(max_of(max_of(max_of(-1, c[0].1 as int), c[1].1 as int), c[2].1 as int), c[3].1 as int);
    (minx, maxx, miny, maxy)
}

/// The box of the first `k` cells (starting from 5 and -1).
pub open spec fn partial_box(c: Seq<(i32, i32)>, k: int) -> (int, int, int, int)
    decreases k,
{
    if k <= 0 {
        (5, -1, 5, -1)
    } else {
        let (a, b, e, f) = partial_box(c, k - 1);
        (min_of(a, c[k - 1].0 as int), max_of(b, c[k - 1].0 as int), min_of(e, c[k - 1].1 as int), max_of(f, c[k - 1].1 as int))
    }
}

pub open spec fn min_of(a: int, b: int) -> int {
    if a <= b { a } else { b }
}

pub open spec fn max_of(a: int, b: int) -> int {
    if a >= b { a } else { b }
}

/// The next shape centred in the side panel, its first `n` cells.
pub open spec fn next_pins(bt: BlockType, lw: int, d: DrawLayout, n: int) -> Seq<PinView>
    decreases n,
{
    if n <= 0 {
        Seq::empty()
    } else {
        let c = cells_of(bt, 0);
        let (minx, maxx, miny, maxy) = shape_box(c);
        let ui = (UI_SIDE_WIDTH_CELLS * CELL_SIZE) as int;
        let pox = sat(ui, (maxx - minx + 1) * 2) / 2;
        let poy = sat(lw * 2, (maxy - miny + 1) * 2) / 2;
        let k = n - 1;
        next_pins(bt, lw, d, n - 1) + square(d.ox + pox + (c[k].0 - minx) * 2, d.oy + poy + (c[k].1 - miny) * 2, PinLevel::Full)
    }
}

/// Everything drawn, in order.
pub open spec fn screen_pins(t: Tetris, pw: int, ph: int) -> Seq<PinView> {
    let lh = t.logical_height as int;
    let lw = t.logical_width as int;
    let d = draw_layout(lh, lw, pw, ph);
    let sep = d.ox + (UI_SIDE_WIDTH_CELLS * CELL_SIZE) as int;
    let frame = frame_rows(d, d.ex - d.sx + 1) + frame_cols(d, d.ey - d.sy + 1);
    let sep_pins = if sep > d.sx && sep < d.ex { separator(d, sep, d.ey - d.sy + 1) } else { Seq::empty() };
    let board = board_pins(t.grid(), lh, d, lw * lh);
    let pieces = match t.current_piece {
        Some(p) => {
            let shadow = if t.state != GameState::GameOver {
                piece_pins(p, drop_upto(t.grid(), lh, lw, p, 4), lh, lw, d, pw, ph, PinLevel::Shadow, 4)
            } else {
                Seq::empty()
            };
            shadow + piece_pins(p, 0, lh, lw, d, pw, ph, PinLevel::Full, 4)
        },
        None => Seq::empty(),
    };
    let next = if t.next_pieces@.len() > 0 { next_pins(t.next_pieces@[0], lw, d, 4) } else { Seq::empty() };
    frame + sep_pins + board + pieces + next
}


/// The layout in machine numbers.
struct Geometry {
    ox: usize,
    oy: usize,
    bx: usize,
    sx: usize,
    sy: usize,
    ex: usize,
    ey: usize,
}

impl Geometry {
    spec fn matches(&self, d: DrawLayout) -> bool {
        &&& self.ox == d.ox
        &&& self.oy == d.oy
        &&& self.bx == d.bx
        &&& self.sx == d.sx
        &&& self.sy == d.sy
        &&& self.ex == d.ex
        &&& self.ey == d.ey
    }
}

fn geometry(lh: usize, lw: usize, pw: usize, ph: usize) -> (r: Geometry)
    requires
        lh <= 10000,
        lw <= 10000,
        pw <= 10000,
        ph <= 10000,
    ensures
        r.matches(draw_layout(lh as int, lw as int, pw as int, ph as int)),
        r.ex <= 20010,
        r.ey <= 20000,
        r.bx <= 5009,
        r.oy <= 5000,
        r.ox <= 5000,
        r.sx <= 5000,
        r.sy <= 5000,
        r.bx == r.ox + 9,
{
    let ui = UI_SIDE_WIDTH_CELLS * CELL_SIZE;
    let total_w = lh * CELL_SIZE + ui + 1;
    let total_h = lw * CELL_SIZE;
    let ox = pw.saturating_sub(total_w) / 2;
    let oy = ph.saturating_sub(total_h) / 2;
    let ex0 = ox + total_w;
    let ey0 = oy + total_h;
    let pw1 = pw.saturating_sub(1);
    let ph1 = ph.saturating_sub(1);
    Geometry {
        ox,
        oy,
        bx: ox + ui + 1,
        sx: ox.saturating_sub(1),
        sy: oy.saturating_sub(1),
        ex: if ex0 < pw1 { ex0 } else { pw1 },
        ey: if ey0 < ph1 { ey0 } else { ph1 },
    }
}

fn push_view(out: &mut Vec<Pin>, x: i16, y: i16, l: PinLevel)
    ensures
        pin_views(final(out)@) == pin_views(old(out)@).push((x as int, y as int, l)),
{
    out.push((x, y, l));
    assert(pin_views(out@) =~= pin_views(old(out)@).push((x as int, y as int, l)));
}

/// Pushes the pins of a board cell that lie on the display right of the panel.
fn push_cell(out: &mut Vec<Pin>, bx: i32, oy: i32, pw: i32, ph: i32, px: i32, py: i32, l: PinLevel)
    requires
        0 <= bx <= 5009,
        0 <= oy <= 5000,
        0 <= px <= 10000,
        0 <= py <= 10000,
    ensures
        pin_views(final(out)@) == pin_views(old(out)@) + keep_spec(bx as int, pw as int, ph as int, (bx + px * 2) as int,
            (oy + py * 2) as int, l),
{
    let x0 = bx + px * 2;
    let y0 = oy + py * 2;
    push_kept(out, bx, pw, ph, x0, y0, l);
    push_kept(out, bx, pw, ph, x0 + 1, y0, l);
    push_kept(out, bx, pw, ph, x0, y0 + 1, l);
    push_kept(out, bx, pw, ph, x0 + 1, y0 + 1, l);
    assert(pin_views(out@) =~= pin_views(old(out)@) + keep_spec(bx as int, pw as int, ph as int, x0 as int, y0 as int, l));
}

/// The kept pins of a cell whose top-left pin is `(x0, y0)`.
pub open spec fn keep_spec(bx: int, pw: int, ph: int, x0: int, y0: int, l: PinLevel) -> Seq<PinView> {
    let k = |p: PinView| if bx <= p.0 < pw && 0 <= p.1 < ph { seq![p] } else { Seq::<PinView>::empty() };
    k((x0, y0, l)) + k((x0 + 1, y0, l)) + k((x0, y0 + 1, l)) + k((x0 + 1, y0 + 1, l))
}

/// Pushes a pin when it lies on the display right of the panel.
fn push_kept(out: &mut Vec<Pin>, bx: i32, pw: i32, ph: i32, x: i32, y: i32, l: PinLevel)
    requires
        -30000 <= x <= 30000,
        -30000 <= y <= 30000,
    ensures
        pin_views(final(out)@) == pin_views(old(out)@) + if bx <= x < pw && 0 <= y < ph { seq![(x as int, y as int, l)] } else { Seq::empty() },
{
    if bx <= x && x < pw && 0 <= y && y < ph {
        push_view(out, x as i16, y as i16, l);
    } else {
        assert(pin_views(out@) =~= pin_views(old(out)@) + Seq::<PinView>::empty());
    }
}

impl Tetris {
    /// The pins that draw the screen on a display `pw` by `ph` pins, in the order
    /// they are set (see `screen_pins`).
    pub fn draw_pins(&self, pw: usize, ph: usize) -> (r: Vec<Pin>)
        requires
            self.wf(),
            pw <= 10000,
            ph <= 10000,
            match self.current_piece {
                Some(p) => p.in_range(),
                None => true,
            },
        ensures
            pin_views(r@) == screen_pins(*self, pw as int, ph as int),
    {
        let ghost d = draw_layout(self.logical_height as int, self.logical_width as int, pw as int, ph as int);
        let g = geometry(self.logical_height, self.logical_width, pw, ph);
        let mut out: Vec<Pin> = Vec::new();
        // Frame: top and bottom edges, then left and right edges.
        let mut x = g.sx;
        while x <= g.ex
            invariant
                g.matches(d),
                g.sx <= x <= g.ex + 1 || x == g.sx,
                g.ex <= 20010,
                g.ey <= 20000,
                g.sx <= 5000,
                g.sy <= 5000,
                pin_views(out@) == frame_rows(d, x - g.sx),
            decreases g.ex + 1 - x,
        {
            let ghost before = pin_views(out@);
            push_view(&mut out, x as i16, g.sy as i16, PinLevel::Full);
            push_view(&mut out, x as i16, g.ey as i16, PinLevel::Full);
            assert(pin_views(out@) =~= frame_rows(d, x + 1 - g.sx));
            x += 1;
        }
        let ghost rows = pin_views(out@);
        assert(rows == frame_rows(d, d.ex - d.sx + 1)) by {
            if g.ex + 1 < g.sx {
                assert(frame_rows(d, d.ex - d.sx + 1) == Seq::<PinView>::empty());
            }
        }
        let mut y = g.sy;
        while y <= g.ey
            invariant
                g.matches(d),
                g.sy <= y <= g.ey + 1 || y == g.sy,
                g.ex <= 20010,
                g.ey <= 20000,
                g.sx <= 5000,
                g.sy <= 5000,
                pin_views(out@) == rows + frame_cols(d, y - g.sy),
            decreases g.ey + 1 - y,
        {
            push_view(&mut out, g.sx as i16, y as i16, PinLevel::Full);
            push_view(&mut out, g.ex as i16, y as i16, PinLevel::Full);
            assert(pin_views(out@) =~= rows + frame_cols(d, y + 1 - g.sy));
            y += 1;
        }
        let ghost frame = pin_views(out@);
        assert(frame == frame_rows(d, d.ex - d.sx + 1) + frame_cols(d, d.ey - d.sy + 1)) by {
            if g.ey + 1 < g.sy {
                assert(frame_cols(d, d.ey - d.sy + 1) == Seq::<PinView>::empty());
            }
        }
        // Separator between the panel and the board.
        let sep = g.ox + UI_SIDE_WIDTH_CELLS * CELL_SIZE;
        if sep > g.sx && sep < g.ex {
            let mut y = g.sy;
            while y <= g.ey
                invariant
                    g.matches(d),
                    g.sy <= y <= g.ey + 1 || y == g.sy,
                    g.ey <= 20000,
                    g.sy <= 5000,
                    sep <= 5008,
                    pin_views(out@) == frame + separator(d, sep as int, y - g.sy),
                decreases g.ey + 1 - y,
            {
                push_view(&mut out, sep as i16, y as i16, PinLevel::Full);
                assert(pin_views(out@) =~= frame + separator(d, sep as int, y + 1 - g.sy));
                y += 1;
            }
            proof {
                if g.ey + 1 < g.sy {
                    assert(separator(d, sep as int, d.ey - d.sy + 1) == Seq::<PinView>::empty());
                }
            }
        } else {
            assert(pin_views(out@) =~= frame + Seq::<PinView>::empty());
        }
        let ghost upto_sep = pin_views(out@);
        // Fixed cells, row by row.
        let lh = self.logical_height;
        let lw = self.logical_width;
        proof {
            self.lemma_grid_rows();
        }
        assert(lw * lh <= 100_000_000) by (nonlinear_arith)
            requires
                1 <= lh <= 10000,
                1 <= lw <= 10000,
        ;
        let cells_total = lw * lh;
        let mut i: usize = 0;
        while i < cells_total
            invariant
                cells_total == lw * lh,
                g.matches(d),
                g.bx <= 5009,
                g.oy <= 5000,
                self.wf(),
                lh == self.logical_height,
                lw == self.logical_width,
                1 <= lh <= 10000,
                1 <= lw <= 10000,
                i <= lw * lh,
                self.grid().len() == lh,
                forall|k: int| 0 <= k < lh ==> #[trigger] self.grid()[k].len() == lw,
                pin_views(out@) == upto_sep + board_pins(self.grid(), lh as int, d, i as int),
            decreases cells_total - i,
        {
            let x = i % lh;
            let y = i / lh;
            assert(y < lw) by {
                assert(i < lh * lw) by (nonlinear_arith)
                    requires
                        i < lw * lh,
                ;
                vstd::arithmetic::div_mod::lemma_multiply_divide_lt(i as int, lh as int, lw as int);
            }
            assert(self.board@[x as int].len() == lw);
            assert(self.grid()[x as int] == self.board@[x as int]@);
            let ghost before = pin_views(out@);
            if self.board[x][y].is_some() {
                let px = (g.bx + x * CELL_SIZE) as i16;
                let py = (g.oy + y * CELL_SIZE) as i16;
                push_view(&mut out, px, py, PinLevel::Full);
                push_view(&mut out, px + 1, py, PinLevel::Full);
                push_view(&mut out, px, py + 1, PinLevel::Full);
                push_view(&mut out, px + 1, py + 1, PinLevel::Full);
                assert(pin_views(out@) =~= before + square(d.bx + x * 2, d.oy + y * 2, PinLevel::Full));
            } else {
                assert(pin_views(out@) =~= before + Seq::<PinView>::empty());
            }
            assert(pin_views(out@) =~= upto_sep + board_pins(self.grid(), lh as int, d, i + 1));
            i += 1;
        }
        let ghost upto_board = pin_views(out@);
        // The falling piece: its landing shadow, then the piece.
        match self.current_piece {
            Some(p) => {
                if self.state != GameState::GameOver {
                    let dist = self.calculate_drop_distance(&p);
                    self.push_piece(&mut out, &p, dist, &g, pw, ph, PinLevel::Shadow);
                } else {
                    assert(pin_views(out@) =~= upto_board + Seq::<PinView>::empty());
                }
                self.push_piece(&mut out, &p, 0, &g, pw, ph, PinLevel::Full);
            },
            None => {
                assert(pin_views(out@) =~= upto_board + Seq::<PinView>::empty());
            },
        }
        let ghost upto_pieces = pin_views(out@);
        // The next shape, centred in the side panel.
        if self.next_pieces.len() > 0 {
            self.push_next(&mut out, self.next_pieces[0], &g, pw, ph);
        } else {
            assert(pin_views(out@) =~= upto_pieces + Seq::<PinView>::empty());
        }
        out
    }

    fn push_piece(&self, out: &mut Vec<Pin>, p: &Tetromino, shift: i32, g: &Geometry, pw: usize, ph: usize, l: PinLevel)
        requires
            self.wf(),
            p.in_range(),
            0 <= shift <= 100,
            pw <= 10000,
            ph <= 10000,
            g.matches(draw_layout(self.logical_height as int, self.logical_width as int, pw as int, ph as int)),
            g.bx <= 5009,
            g.oy <= 5000,
        ensures
            pin_views(final(out)@) == pin_views(old(out)@) + piece_pins(*p, shift as int, self.logical_height as int,
                self.logical_width as int, draw_layout(self.logical_height as int, self.logical_width as int, pw as int, ph as int), pw as int, ph as int, l, 4),
    {
        let ghost d = draw_layout(self.logical_height as int, self.logical_width as int, pw as int, ph as int);
        let cells = p.get_cells();
        proof {
            lemma_cells_small(p.block_type, (p.rotation % 4) as int);
        }
        let lh = self.logical_height as i32;
        let lw = self.logical_width as i32;
        let bx = g.bx as i32;
        let oy = g.oy as i32;
        let pwi = pw as i32;
        let phi = ph as i32;
        let mut k: usize = 0;
        while k < 4
            invariant
                k <= 4,
                self.wf(),
                p.in_range(),
                cells@ == p.cells(),
                0 <= shift <= 100,
                lh == self.logical_height,
                lw == self.logical_width,
                bx == d.bx,
                oy == d.oy,
                0 <= bx <= 5009,
                0 <= oy <= 5000,
                pwi == pw,
                phi == ph,
                pin_views(out@) == pin_views(old(out)@) + piece_pins(*p, shift as int, lh as int, lw as int, d, pw as int,
                    ph as int, l, k as int),
            decreases 4 - k,
        {
            let (cx, cy) = cells[k];
            let px = p.x + shift + cx;
            let py = p.y + cy;
            let ghost before = pin_views(out@);
            if 0 <= px && px < lh && 0 <= py && py < lw {
                push_cell(out, bx, oy, pwi, phi, px, py, l);
                assert(pin_views(out@) =~= before + cell_pins(d, pw as int, ph as int, px as int, py as int, l));
            } else {
                assert(pin_views(out@) =~= before + Seq::<PinView>::empty());
            }
            assert(pin_views(out@) =~= pin_views(old(out)@) + piece_pins(*p, shift as int, lh as int, lw as int, d,
                pw as int, ph as int, l, k + 1));
            k += 1;
        }
    }

    fn push_next(&self, out: &mut Vec<Pin>, bt: BlockType, g: &Geometry, pw: usize, ph: usize)
        requires
            self.wf(),
            g.matches(draw_layout(self.logical_height as int, self.logical_width as int, pw as int, ph as int)),
            g.ox <= 5000,
            g.oy <= 5000,
        ensures
            pin_views(final(out)@) == pin_views(old(out)@) + next_pins(bt, self.logical_width as int,
                draw_layout(self.logical_height as int, self.logical_width as int, pw as int, ph as int), 4),
    {
        let ghost d = draw_layout(self.logical_height as int, self.logical_width as int, pw as int, ph as int);
        let t = Tetromino { block_type: bt, x: 0, y: 0, rotation: 0 };
        let cells = t.get_cells();
        proof {
            lemma_cells_small(bt, 0);
        }
        let mut minx: i32 = 5;
        let mut maxx: i32 = -1;
        let mut miny: i32 = 5;
        let mut maxy: i32 = -1;
        let mut k: usize = 0;
        while k < 4
            invariant
                k <= 4,
                cells@ == cells_of(bt, 0),
                -1 <= maxx <= 3,
                -1 <= maxy <= 3,
                0 <= minx <= 5,
                0 <= miny <= 5,
                (minx as int, maxx as int, miny as int, maxy as int) == partial_box(cells@, k as int),
            decreases 4 - k,
        {
            let (cx, cy) = cells[k];
            if cx < minx {
                minx = cx;
            }
            if cx > maxx {
                maxx = cx;
            }
            if cy < miny {
                miny = cy;
            }
            if cy > maxy {
                maxy = cy;
            }
            k += 1;
        }
        assert(shape_box(cells@) == partial_box(cells@, 4)) by {
            reveal_with_fuel(partial_box, 5);
        }
        let shape_w = ((maxx - minx + 1) as usize) * CELL_SIZE;
        let shape_h = ((maxy - miny + 1) as usize) * CELL_SIZE;
        let ui = UI_SIDE_WIDTH_CELLS * CELL_SIZE;
        let pox = ui.saturating_sub(shape_w) / 2;
        let poy = (self.logical_width * CELL_SIZE).saturating_sub(shape_h) / 2;
        let mut k: usize = 0;
        while k < 4
            invariant
                k <= 4,
                self.wf(),
                cells@ == cells_of(bt, 0),
                g.matches(d),
                g.ox <= 5000,
                g.oy <= 5000,
                (minx as int, maxx as int, miny as int, maxy as int) == shape_box(cells@),
                0 <= minx <= maxx <= 3,
                0 <= miny <= maxy <= 3,
                ui == UI_SIDE_WIDTH_CELLS * CELL_SIZE,
                pox == sat(ui as int, (maxx - minx + 1) * 2) / 2,
                poy == sat(self.logical_width * 2, (maxy - miny + 1) * 2) / 2,
                pox <= 4,
                poy <= 10000,
                pin_views(out@) == pin_views(old(out)@) + next_pins(bt, self.logical_width as int, d, k as int),
            decreases 4 - k,
        {
            let (cx, cy) = cells[k];
            let x = (g.ox + pox + ((cx - minx) as usize) * CELL_SIZE) as i16;
            let y = (g.oy + poy + ((cy - miny) as usize) * CELL_SIZE) as i16;
            let ghost before = pin_views(out@);
            push_view(out, x, y, PinLevel::Full);
            push_view(out, x + 1, y, PinLevel::Full);
            push_view(out, x, y + 1, PinLevel::Full);
            push_view(out, x + 1, y + 1, PinLevel::Full);
            assert(pin_views(out@) =~= before + square(x as int, y as int, PinLevel::Full));
            assert(x as int == d.ox + pox + (cells@[k as int].0 - minx) * 2);
            assert(y as int == d.oy + poy + (cells@[k as int].1 - miny) * 2);
            proof {
                let c = cells_of(bt, 0);
                let (a, b, e, f) = shape_box(c);
                assert(a == minx && b == maxx && e == miny && f == maxy);
                let spox = sat((UI_SIDE_WIDTH_CELLS * CELL_SIZE) as int, (b - a + 1) * 2) / 2;
                let spoy = sat(self.logical_width as int * 2, (f - e + 1) * 2) / 2;
                assert(spox == pox);
                assert(spoy == poy);
                assert(c[k as int] == cells@[k as int]);
                assert(next_pins(bt, self.logical_width as int, d, k + 1) == next_pins(bt, self.logical_width as int, d, k as int)
                    + square(d.ox + spox + (c[k as int].0 - a) * 2, d.oy + spoy + (c[k as int].1 - e) * 2, PinLevel::Full));
            }
            assert(pin_views(out@) =~= pin_views(old(out)@) + next_pins(bt, self.logical_width as int, d, k + 1));
            k += 1;
        }
    }
}


} // verus!
