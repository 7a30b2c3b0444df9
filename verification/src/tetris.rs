//! Tetris played sideways on the braille display: pieces fall to the right.
//!
//! The board is indexed `board[x][y]`: `x` runs along the direction of fall
//! (`0..logical_height`), `y` across it (`0..logical_width`).
use vstd::prelude::*;
use crate::input::{KeyCode, KeyState, Language};

verus! {

broadcast use vstd::string::group_string_axioms;

/// Width of the side panel, in cells.
pub const UI_SIDE_WIDTH_CELLS: usize = 4;

/// Size of one board cell, in pins.
pub const CELL_SIZE: usize = 2;

/// Frames a piece may rest on the ground before it locks.
pub const LOCK_DELAY: usize = 10;

/// Frames per second the game runs at.
pub const TARGET_FPS: u16 = 30;

/// Frames a direction key must be held before it repeats.
pub const DAS_FRAMES: u32 = 6;

/// Frames between two repeats of a held direction key.
pub const ARR_FRAMES: u32 = 2;

/// Largest board dimension the game handles.
pub const MAX_BOARD_DIM: usize = 10000;

/// The seven tetromino shapes.
#[derive(Clone, Copy, Debug, PartialEq, Eq, Hash, Structural)]
pub enum BlockType {
    I,
    J,
    L,
    O,
    S,
    T,
    Z,
}

pub open spec fn block_of_index(i: int) -> BlockType {
    if i == 0 {
        BlockType::I
    } else if i == 1 {
        BlockType::J
    } else if i == 2 {
        BlockType::L
    } else if i == 3 {
        BlockType::O
    } else if i == 4 {
        BlockType::S
    } else if i == 5 {
        BlockType::T
    } else {
        BlockType::Z
    }
}

impl BlockType {
    /// The shape with the given number, in the order I J L O S T Z.
    pub fn from_index(value: i32) -> (r: Self)
        requires
            0 <= value <= 6,
        ensures
            r == block_of_index(value as int),
    {
        match value {
            0 => BlockType::I,
            1 => BlockType::J,
            2 => BlockType::L,
            3 => BlockType::O,
            4 => BlockType::S,
            5 => BlockType::T,
            _ => BlockType::Z,
        }
    }
}

/// The four cells of a shape in a rotation (0..4), relative to the piece origin.
pub open spec fn cells_of(bt: BlockType, r: int) -> Seq<(i32, i32)> {
    match bt {
        BlockType::I => if r == 0 {
            seq![(0, 1), (1, 1), (2, 1), (3, 1)]
        } else if r == 1 {
            seq![(2, 0), (2, 1), (2, 2), (2, 3)]
        } else if r == 2 {
            seq![(0, 2), (1, 2), (2, 2), (3, 2)]
        } else {
            seq![(1, 0), (1, 1), (1, 2), (1, 3)]
        },
        BlockType::J => if r == 0 {
            seq![(0, 0), (0, 1), (1, 1), (2, 1)]
        } else if r == 1 {
            seq![(1, 0), (2, 0), (1, 1), (1, 2)]
        } else if r == 2 {
            seq![(0, 1), (1, 1), (2, 1), (2, 2)]
        } else {
            seq![(1, 0), (1, 1), (0, 2), (1, 2)]
        },
        BlockType::L => if r == 0 {
            seq![(2, 0), (0, 1), (1, 1), (2, 1)]
        } else if r == 1 {
            seq![(1, 0), (1, 1), (1, 2), (2, 2)]
        } else if r == 2 {
            seq![(0, 1), (1, 1), (2, 1), (0, 2)]
        } else {
            seq![(0, 0), (1, 0), (1, 1), (1, 2)]
        },
        BlockType::O => seq![(1, 0), (2, 0), (1, 1), (2, 1)],
        BlockType::S => if r == 0 {
            seq![(1, 0), (2, 0), (0, 1), (1, 1)]
        } else if r == 1 {
            seq![(1, 0), (1, 1), (2, 1), (2, 2)]
        } else if r == 2 {
            seq![(1, 1), (2, 1), (0, 2), (1, 2)]
        } else {
            seq![(0, 0), (0, 1), (1, 1), (1, 2)]
        },
        BlockType::T => if r == 0 {
            seq![(1, 0), (0, 1), (1, 1), (2, 1)]
        } else if r == 1 {
            seq![(1, 0), (1, 1), (2, 1), (1, 2)]
        } else if r == 2 {
            seq![(0, 1), (1, 1), (2, 1), (1, 2)]
        } else {
            seq![(1, 0), (0, 1), (1, 1), (1, 2)]
        },
        BlockType::Z => if r == 0 {
            seq![(0, 0), (1, 0), (1, 1), (2, 1)]
        } else if r == 1 {
            seq![(2, 0), (1, 1), (2, 1), (1, 2)]
        } else if r == 2 {
            seq![(0, 1), (1, 1), (1, 2), (2, 2)]
        } else {
            seq![(1, 0), (0, 1), (1, 1), (0, 2)]
        },
    }
}

/// A cell of a piece's box turned a quarter clockwise inside the box (four cells
/// wide for the I piece, three for the others).
pub open spec fn turn_cell(bt: BlockType, p: (i32, i32)) -> (i32, i32) {
    let k: int = if bt == BlockType::I { 3 } else { 2 };
    ((k - p.1) as i32, p.0)
}

/// Whether two cells share a side.
pub open spec fn touching(a: (i32, i32), b: (i32, i32)) -> bool {
    (a.0 == b.0 && (a.1 - b.1 == 1 || b.1 - a.1 == 1)) || (a.1 == b.1 && (a.0 - b.0 == 1 || b.0 - a.0 == 1))
}

/// How many of the six pairs of four cells share a side.
pub open spec fn touching_pairs(c: Seq<(i32, i32)>) -> int {
    (if touching(c[0], c[1]) { 1int } else { 0 }) + (if touching(c[0], c[2]) { 1int } else { 0 })
        + (if touching(c[0], c[3]) { 1int } else { 0 }) + (if touching(c[1], c[2]) { 1int } else { 0 })
        + (if touching(c[1], c[3]) { 1int } else { 0 }) + (if touching(c[2], c[3]) { 1int } else { 0 })
}

/// Every piece is four different cells inside its four-by-four box, joined side
/// to side: at least three of their pairs touch, and as no three cells of a grid
/// touch each other in a ring, three touching pairs join all four.
pub proof fn law_piece_is_a_tetromino(t: Tetromino)
    ensures
        t.cells().len() == 4,
        forall|i: int| 0 <= i < 4 ==> 0 <= #[trigger] t.cells()[i].0 <= 3 && 0 <= t.cells()[i].1 <= 3,
        forall|i: int, j: int| 0 <= i < j < 4 ==> #[trigger] t.cells()[i] != #[trigger] t.cells()[j],
        touching_pairs(t.cells()) >= 3,
{
    let r = (t.rotation % 4) as int;
    lemma_cells_small(t.block_type, r);
    lemma_shape_joined(t.block_type, r);
}

proof fn lemma_shape_joined(bt: BlockType, r: int)
    requires
        0 <= r < 4,
    ensures
        forall|i: int, j: int| 0 <= i < j < 4 ==> #[trigger] cells_of(bt, r)[i] != #[trigger] cells_of(bt, r)[j],
        touching_pairs(cells_of(bt, r)) >= 3,
{
    let c = cells_of(bt, r);
    assert(c[0] != c[1] && c[0] != c[2] && c[0] != c[3] && c[1] != c[2] && c[1] != c[3] && c[2] != c[3]);
    assert(touching_pairs(c) >= 3);
}

/// Turning a piece (its rotation one step on, wrapping as a byte) turns its cells
/// a quarter clockwise inside its box, the O piece excepted, which looks the same
/// in every rotation; and a rotation counts only modulo four.
pub proof fn law_rotation_turns_a_quarter(t: Tetromino)
    ensures
        ({
            let t2 = Tetromino { rotation: ((t.rotation + 1) % 256) as u8, ..t };
            t.block_type != BlockType::O ==> {
                &&& forall|i: int| 0 <= i < 4 ==> t2.cells().contains(turn_cell(t.block_type, #[trigger] t.cells()[i]))
                &&& forall|i: int| 0 <= i < 4 ==> exists|j: int| 0 <= j < 4 && #[trigger] t2.cells()[i] == turn_cell(t.block_type, t.cells()[j])
            }
        }),
        t.block_type == BlockType::O ==> t.cells() == cells_of(BlockType::O, 0),
        t.cells() == cells_of(t.block_type, (t.rotation % 4) as int),
{
    let r = (t.rotation % 4) as int;
    let r2 = (((t.rotation + 1) % 256) as u8 % 4) as int;
    assert(r2 == (r + 1) % 4);
    let t2 = Tetromino { rotation: ((t.rotation + 1) % 256) as u8, ..t };
    let a = t.cells();
    let b = t2.cells();
    if t.block_type != BlockType::O {
        assert forall|i: int| 0 <= i < 4 implies b.contains(turn_cell(t.block_type, #[trigger] a[i])) by {
            let x = turn_cell(t.block_type, a[i]);
            if b[0] == x {
                assert(b[0] == x);
            } else if b[1] == x {
                assert(b[1] == x);
            } else if b[2] == x {
                assert(b[2] == x);
            } else {
                assert(b[3] == x);
            }
        }
        assert forall|i: int| 0 <= i < 4 implies exists|j: int| 0 <= j < 4 && #[trigger] b[i] == turn_cell(t.block_type, a[j]) by {
            if b[i] == turn_cell(t.block_type, a[0]) {
                assert(0 <= 0 < 4);
            } else if b[i] == turn_cell(t.block_type, a[1]) {
                assert(0 <= 1 < 4);
            } else if b[i] == turn_cell(t.block_type, a[2]) {
                assert(0 <= 2 < 4);
            } else {
                assert(b[i] == turn_cell(t.block_type, a[3]));
            }
        }
    }
}

/// A falling piece: its shape, origin and rotation.
#[derive(Clone, Copy, Debug, PartialEq, Eq, Structural)]
pub struct Tetromino {
    pub block_type: BlockType,
    pub x: i32,
    pub y: i32,
    pub rotation: u8,
}

/// Every offset in the shape table lies in `0..4`.
pub proof fn lemma_cells_small(bt: BlockType, r: int)
    ensures
        cells_of(bt, r).len() == 4,
        forall|k: int|
            0 <= k < 4 ==> 0 <= #[trigger] cells_of(bt, r)[k].0 <= 3 && 0 <= cells_of(bt, r)[k].1
                <= 3,
{
}

impl Tetromino {
    /// The shape's cells in its current rotation.
    pub open spec fn cells(self) -> Seq<(i32, i32)> {
        cells_of(self.block_type, (self.rotation % 4) as int)
    }

    /// Board x of cell `k`.
    pub open spec fn cell_x(self, k: int) -> int {
        self.x + self.cells()[k].0
    }

    /// Board y of cell `k`.
    pub open spec fn cell_y(self, k: int) -> int {
        self.y + self.cells()[k].1
    }

    /// Coordinates far enough from the `i32` limits that moving the piece cannot overflow.
    pub open spec fn in_range(self) -> bool {
        -0x4000_0000 <= self.x <= 0x4000_0000 && -0x4000_0000 <= self.y <= 0x4000_0000
    }

    /// A new piece left of the board, centred across it.
    pub fn new(block_type: BlockType, board_height: usize) -> (r: Self)
        requires
            board_height <= i32::MAX,
        ensures
            r.block_type == block_type,
            r.x == -4,
            r.y == board_height as int / 2 - 1,
            r.rotation == 0,
    {
        Self { block_type, x: -4, y: (board_height as i32) / 2 - 1, rotation: 0 }
    }

    /// The four cell offsets of the piece in its current rotation (taken modulo 4).
    pub fn get_cells(&self) -> (r: [(i32, i32); 4])
        ensures
            r@ == self.cells(),
    {
        let rot = self.rotation % 4;
        let r: [(i32, i32); 4] = match self.block_type {
            BlockType::I => if rot == 0 {
                [(0, 1), (1, 1), (2, 1), (3, 1)]
            } else if rot == 1 {
                [(2, 0), (2, 1), (2, 2), (2, 3)]
            } else if rot == 2 {
                [(0, 2), (1, 2), (2, 2), (3, 2)]
            } else {
                [(1, 0), (1, 1), (1, 2), (1, 3)]
            },
            BlockType::J => if rot == 0 {
                [(0, 0), (0, 1), (1, 1), (2, 1)]
            } else if rot == 1 {
                [(1, 0), (2, 0), (1, 1), (1, 2)]
            } else if rot == 2 {
                [(0, 1), (1, 1), (2, 1), (2, 2)]
            } else {
                [(1, 0), (1, 1), (0, 2), (1, 2)]
            },
            BlockType::L => if rot == 0 {
                [(2, 0), (0, 1), (1, 1), (2, 1)]
            } else if rot == 1 {
                [(1, 0), (1, 1), (1, 2), (2, 2)]
            } else if rot == 2 {
                [(0, 1), (1, 1), (2, 1), (0, 2)]
            } else {
                [(0, 0), (1, 0), (1, 1), (1, 2)]
            },
            BlockType::O => [(1, 0), (2, 0), (1, 1), (2, 1)],
            BlockType::S => if rot == 0 {
                [(1, 0), (2, 0), (0, 1), (1, 1)]
            } else if rot == 1 {
                [(1, 0), (1, 1), (2, 1), (2, 2)]
            } else if rot == 2 {
                [(1, 1), (2, 1), (0, 2), (1, 2)]
            } else {
                [(0, 0), (0, 1), (1, 1), (1, 2)]
            },
            BlockType::T => if rot == 0 {
                [(1, 0), (0, 1), (1, 1), (2, 1)]
            } else if rot == 1 {
                [(1, 0), (1, 1), (2, 1), (1, 2)]
            } else if rot == 2 {
                [(0, 1), (1, 1), (2, 1), (1, 2)]
            } else {
                [(1, 0), (0, 1), (1, 1), (1, 2)]
            },
            BlockType::Z => if rot == 0 {
                [(0, 0), (1, 0), (1, 1), (2, 1)]
            } else if rot == 1 {
                [(2, 0), (1, 1), (2, 1), (1, 2)]
            } else if rot == 2 {
                [(0, 1), (1, 1), (1, 2), (2, 2)]
            } else {
                [(1, 0), (0, 1), (1, 1), (0, 2)]
            },
        };
        assert(r@ =~= self.cells());
        r
    }
}


/// The stages of a game.
#[derive(Clone, Copy, Debug, PartialEq, Eq, Structural)]
pub enum GameState {
    Ready,
    Playing,
    Reset,
    GameOver,
    Stop,
}

pub open spec fn spec_gamestate_text(state: GameState, lang: Language) -> Seq<char> {
    match lang {
        Language::Ko => match state {
            GameState::Ready => "준비"@,
            GameState::Playing => "게임 시작"@,
            GameState::Reset => "다시시작"@,
            GameState::GameOver => "게임 종료"@,
            GameState::Stop => "일시정지"@,
        },
        Language::En => match state {
            GameState::Ready => "Ready"@,
            GameState::Playing => "Game Start"@,
            GameState::Reset => "Reset"@,
            GameState::GameOver => "Game Over"@,
            GameState::Stop => "Stop"@,
        },
        Language::Ja => match state {
            GameState::Ready => "準備"@,
            GameState::Playing => "ゲーム開始"@,
            GameState::Reset => "再スタート"@,
            GameState::GameOver => "ゲーム終了"@,
            GameState::Stop => "一時停止"@,
        },
    }
}

impl GameState {
    /// What is spoken when the game enters this stage.
    pub fn gamestate_text(&self, lang: Language) -> (r: String)
        ensures
            r@ == spec_gamestate_text(*self, lang),
    {
        let t: &str = match lang {
            Language::Ko => match self {
                GameState::Ready => "준비",
                GameState::Playing => "게임 시작",
                GameState::Reset => "다시시작",
                GameState::GameOver => "게임 종료",
                GameState::Stop => "일시정지",
            },
            Language::En => match self {
                GameState::Ready => "Ready",
                GameState::Playing => "Game Start",
                GameState::Reset => "Reset",
                GameState::GameOver => "Game Over",
                GameState::Stop => "Stop",
            },
            Language::Ja => match self {
                GameState::Ready => "準備",
                GameState::Playing => "ゲーム開始",
                GameState::Reset => "再スタート",
                GameState::GameOver => "ゲーム終了",
                GameState::Stop => "一時停止",
            },
        };
        t.to_string()
    }
}

/// Score panel contents.
pub struct SidePanel {
    pub next_pieces: BlockType,
    pub score: usize,
    pub level: usize,
    pub cleared_lines: usize,
}

/// The sound effects of the game.
#[derive(Clone, Copy, Debug, PartialEq, Eq, Structural)]
pub enum TetrisSound {
    GameOver,
    TetrisClear,
    LineClear,
    Fixed,
    Rotate,
    Drop,
    Move,
}

/// What the game asks its host to play or say.
#[derive(Clone, Copy, Debug, PartialEq, Eq, Structural)]
pub enum TetrisEffect {
    Play(TetrisSound),
    /// Say the name of a stage (`GameState::gamestate_text`).
    Announce(GameState),
    /// Say that the game restarts.
    SayRestart,
    /// Say that the game is paused and how to resume.
    SayPaused,
}

/// A row of the board with nothing in it.
pub open spec fn empty_row(n: int) -> Seq<Option<BlockType>> {
    Seq::new(n as nat, |i: int| None::<BlockType>)
}

/// Whether every cell of a row is filled.
pub open spec fn row_full(row: Seq<Option<BlockType>>) -> bool {
    forall|y: int| 0 <= y < row.len() ==> row[y] is Some
}

/// The rows that are not full, in order.
pub open spec fn open_rows(rows: Seq<Seq<Option<BlockType>>>) -> Seq<Seq<Option<BlockType>>>
    decreases rows.len(),
{
    if rows.len() == 0 {
        Seq::empty()
    } else if row_full(rows.last()) {
        open_rows(rows.drop_last())
    } else {
        open_rows(rows.drop_last()).push(rows.last())
    }
}

/// The board after full rows are removed and empty rows are added on the far side.
pub open spec fn cleared_grid(rows: Seq<Seq<Option<BlockType>>>, width: int) -> Seq<
    Seq<Option<BlockType>>,
> {
    let kept = open_rows(rows);
    Seq::new((rows.len() - kept.len()) as nat, |i: int| empty_row(width)) + kept
}

/// Whether a piece fits: every cell is across the board, not past its far side,
/// and not on a filled cell (cells before the near side are allowed).
pub open spec fn fits(grid: Seq<Seq<Option<BlockType>>>, lh: int, lw: int, p: Tetromino) -> bool {
    forall|k: int|
        0 <= k < 4 ==> {
            &&& 0 <= #[trigger] p.cell_y(k) < lw
            &&& p.cell_x(k) < lh
            &&& (p.cell_x(k) >= 0 ==> grid[p.cell_x(k)][p.cell_y(k)] is None)
        }
}

/// How many cells a piece standing in column `y` can move from `x` before it meets
/// a filled cell or the far side.
pub open spec fn free_run(grid: Seq<Seq<Option<BlockType>>>, lh: int, y: int, x: int) -> int
    decreases lh - x,
{
    if x >= lh {
        0
    } else if x >= 0 && grid[x][y] is Some {
        0
    } else {
        1 + free_run(grid, lh, y, x + 1)
    }
}

/// The smallest free run over the first `k` cells of a piece (100 when none counts).
pub open spec fn drop_upto(
    grid: Seq<Seq<Option<BlockType>>>,
    lh: int,
    lw: int,
    p: Tetromino,
    k: int,
) -> int
    decreases k,
{
    if k <= 0 {
        100
    } else {
        let prev = drop_upto(grid, lh, lw, p, k - 1);
        let y = p.cell_y(k - 1);
        if y < 0 || y >= lw {
            prev
        } else {
            let d = free_run(grid, lh, y, p.cell_x(k - 1) + 1);
            if d < prev {
                d
            } else {
                prev
            }
        }
    }
}

pub proof fn lemma_free_run(grid: Seq<Seq<Option<BlockType>>>, lh: int, y: int, x: int)
    ensures
        free_run(grid, lh, y, x) >= 0,
        forall|j: int| x <= j < x + free_run(grid, lh, y, x) ==> j < lh && (j >= 0 ==> (#[trigger] grid[j])[y] is None),
        x + free_run(grid, lh, y, x) >= lh || (x + free_run(grid, lh, y, x) >= 0 && grid[x + free_run(grid, lh, y, x)][y] is Some),
    decreases lh - x,
{
    if !(x >= lh) && !(x >= 0 && grid[x][y] is Some) {
        lemma_free_run(grid, lh, y, x + 1);
    }
}

pub proof fn lemma_drop_upto(grid: Seq<Seq<Option<BlockType>>>, lh: int, lw: int, p: Tetromino, k: int)
    requires
        0 <= k <= 4,
    ensures
        drop_upto(grid, lh, lw, p, k) <= 100,
        forall|i: int| 0 <= i < k && 0 <= p.cell_y(i) < lw ==>
            drop_upto(grid, lh, lw, p, k) <= #[trigger] free_run(grid, lh, p.cell_y(i), p.cell_x(i) + 1),
        drop_upto(grid, lh, lw, p, k) == 100 || exists|i: int| 0 <= i < k && 0 <= p.cell_y(i) < lw
            && drop_upto(grid, lh, lw, p, k) == #[trigger] free_run(grid, lh, p.cell_y(i), p.cell_x(i) + 1),
    decreases k,
{
    if k > 0 {
        lemma_drop_upto(grid, lh, lw, p, k - 1);
    }
}

/// A hard drop lands where the piece still fits: moved by the drop distance the
/// piece fits, and (unless the distance is the cap of a hundred cells) one cell
/// further it would not.
pub proof fn law_hard_drop_lands(grid: Seq<Seq<Option<BlockType>>>, lh: int, lw: int, p: Tetromino)
    requires
        fits(grid, lh, lw, p),
        p.in_range(),
    ensures
        ({
            let d = drop_upto(grid, lh, lw, p, 4);
            &&& 0 <= d <= 100
            &&& fits(grid, lh, lw, moved(p, d, 0, p.rotation))
            &&& d < 100 ==> !fits(grid, lh, lw, moved(p, d + 1, 0, p.rotation))
        }),
{
    let d = drop_upto(grid, lh, lw, p, 4);
    lemma_drop_upto(grid, lh, lw, p, 4);
    lemma_cells_small(p.block_type, (p.rotation % 4) as int);
    assert forall|i: int| 0 <= i < 4 implies #[trigger] free_run(grid, lh, p.cell_y(i), p.cell_x(i) + 1) >= 0 by {
        lemma_free_run(grid, lh, p.cell_y(i), p.cell_x(i) + 1);
    }
    assert(0 <= p.cell_y(0) < lw);
    assert(d >= 0);
    let q = moved(p, d, 0, p.rotation);
    assert(q.cells() == p.cells());
    assert forall|k: int| 0 <= k < 4 implies {
        &&& 0 <= #[trigger] q.cell_y(k) < lw
        &&& q.cell_x(k) < lh
        &&& (q.cell_x(k) >= 0 ==> grid[q.cell_x(k)][q.cell_y(k)] is None)
    } by {
        assert(q.cell_x(k) == p.cell_x(k) + d);
        assert(q.cell_y(k) == p.cell_y(k));
        assert(0 <= p.cell_y(k) < lw);
        lemma_free_run(grid, lh, p.cell_y(k), p.cell_x(k) + 1);
        let r = free_run(grid, lh, p.cell_y(k), p.cell_x(k) + 1);
        assert(d <= r);
        if d > 0 {
            let j = p.cell_x(k) + d;
            assert(p.cell_x(k) + 1 <= j < p.cell_x(k) + 1 + r);
            assert(j < lh && (j >= 0 ==> grid[j][p.cell_y(k)] is None));
        }
    }
    if d < 100 {
        let i = choose|i: int| 0 <= i < 4 && 0 <= p.cell_y(i) < lw
            && d == #[trigger] free_run(grid, lh, p.cell_y(i), p.cell_x(i) + 1);
        lemma_free_run(grid, lh, p.cell_y(i), p.cell_x(i) + 1);
        let q2 = moved(p, d + 1, 0, p.rotation);
        assert(q2.cell_x(i) == p.cell_x(i) + d + 1);
        assert(q2.cell_y(i) == p.cell_y(i));
        if fits(grid, lh, lw, q2) {
            assert(0 <= q2.cell_y(i) < lw);
        }
    }
}

/// Whether some cell of the piece is at `(x, y)`.
pub open spec fn covers(p: Tetromino, x: int, y: int) -> bool {
    exists|k: int| 0 <= k < 4 && #[trigger] p.cell_x(k) == x && p.cell_y(k) == y
}

/// The board with the piece's cells filled with its shape.
pub open spec fn placed(grid: Seq<Seq<Option<BlockType>>>, p: Tetromino) -> Seq<
    Seq<Option<BlockType>>,
> {
    Seq::new(
        grid.len(),
        |x: int|
            Seq::new(
                grid[x].len(),
                |y: int|
                    if covers(p, x, y) {
                        Some(p.block_type)
                    } else {
                        grid[x][y]
                    },
            ),
    )
}

/// The linear congruential step of the random number generator.
pub open spec fn lcg(seed: u32) -> u32 {
    ((seed as int * 1103515245 + 12345) % 0x1_0000_0000) as u32
}

/// The seven shapes in their fixed order.
pub open spec fn ordered_bag() -> Seq<BlockType> {
    seq![
        BlockType::I,
        BlockType::J,
        BlockType::L,
        BlockType::O,
        BlockType::S,
        BlockType::T,
        BlockType::Z,
    ]
}

/// Fisher-Yates over `bag[0..=i]`, drawing from the generator seeded with `seed`.
/// Returns the shuffled bag and the final seed.
pub open spec fn shuffle(bag: Seq<BlockType>, seed: u32, i: int) -> (Seq<BlockType>, u32)
    decreases i,
{
    if i < 1 {
        (bag, seed)
    } else {
        let s2 = lcg(seed);
        let j = ((s2 & 0x7fff_ffffu32) as int) % (i + 1);
        shuffle(bag.update(i, bag[j]).update(j, bag[i]), s2, i - 1)
    }
}

/// Frames between two gravity steps at a level: the truncated product of
/// `max(1.0 - 0.05 * level, 0.05)` seconds and 30 frames per second, as
/// computed in double precision.
pub open spec fn gravity_for_level(level: u64) -> u64 {
    let table = seq![30u64, 28, 27, 25, 24, 22, 21, 19, 18, 16, 15, 13, 11, 10, 8, 7, 5, 4, 2];
    if level < 19 {
        table[level as int]
    } else {
        1
    }
}

/// The points for clearing `n` rows at once, before the level factor.
pub open spec fn base_score(n: int) -> int {
    if n == 1 {
        40
    } else if n == 2 {
        100
    } else if n == 3 {
        300
    } else if n == 4 {
        1200
    } else {
        1500
    }
}

/// Everything the game's rules read and write, as plain values.
pub struct TetrisModel {
    pub grid: Seq<Seq<Option<BlockType>>>,
    pub current_piece: Option<Tetromino>,
    pub state: GameState,
    pub last_tick_ms: u64,
    pub logical_height: usize,
    pub logical_width: usize,
    pub queue: Seq<BlockType>,
    pub rng_seed: u32,
    pub score: u64,
    pub total_lines: u64,
    pub level: u64,
    pub active_key: Option<KeyCode>,
    pub key_hold_frames: u32,
    pub gravity_frames: u64,
    pub lock_timer: usize,
}

/// One set of all seven shapes, shuffled, added to the queue.
pub open spec fn fill_model(m: TetrisModel) -> TetrisModel {
    let (bag, seed) = shuffle(ordered_bag(), m.rng_seed, 6);
    TetrisModel { queue: m.queue + bag, rng_seed: seed, ..m }
}

/// A stage change: nothing when the stage is already `s`; otherwise the new stage,
/// pausing drops the held key, and the new stage is announced.
pub open spec fn set_state_model(m: TetrisModel, s: GameState) -> (TetrisModel, Seq<TetrisEffect>) {
    if m.state == s {
        (m, Seq::empty())
    } else {
        let m1 = TetrisModel { state: s, ..m };
        let m2 = if s == GameState::Stop {
            TetrisModel { active_key: None, key_hold_frames: 0, ..m1 }
        } else {
            m1
        };
        (m2, seq![TetrisEffect::Announce(s)])
    }
}

/// The gravity delay recomputed for the current level.
pub open spec fn with_gravity(m: TetrisModel) -> TetrisModel {
    TetrisModel { gravity_frames: gravity_for_level(m.level), ..m }
}

/// A board of `h` empty rows of width `w`.
pub open spec fn empty_grid(h: int, w: int) -> Seq<Seq<Option<BlockType>>> {
    Seq::new(h as nat, |i: int| empty_row(w))
}

/// The piece a new shape enters as, on a board `width` cells across.
pub open spec fn spawn(bt: BlockType, width: int) -> Tetromino {
    Tetromino { block_type: bt, x: -4i32, y: (width / 2 - 1) as i32, rotation: 0u8 }
}

/// Takes the front of the queue as the new current piece.
pub open spec fn take_next(m: TetrisModel) -> TetrisModel {
    TetrisModel {
        current_piece: Some(spawn(m.queue[0], m.logical_width as int)),
        queue: m.queue.drop_first(),
        ..m
    }
}

/// The game restarted: empty board, fresh queue and piece, score and level reset.
pub open spec fn reset_model(m: TetrisModel) -> TetrisModel {
    let cleared = TetrisModel {
        grid: empty_grid(m.logical_height as int, m.logical_width as int),
        queue: Seq::empty(),
        ..m
    };
    let filled = take_next(fill_model(cleared));
    with_gravity(
        TetrisModel {
            score: 0,
            total_lines: 0,
            level: 1,
            active_key: None,
            key_hold_frames: 0,
            lock_timer: 0,
            ..filled
        },
    )
}

/// The seed after the lock step mixes in the frame counter.
pub open spec fn mix_seed_add(seed: u32, t: u64) -> u32 {
    ((seed as int + (t as int % 0x1_0000_0000)) % 0x1_0000_0000) as u32
}

/// The seed after a key press mixes in the frame counter.
pub open spec fn mix_seed_press(seed: u32, t: u64) -> u32 {
    ((seed as int * 1103515245 + (t as int % 0x1_0000_0000)) % 0x1_0000_0000) as u32
}

/// Whether some cell of the piece is before the near side of the board.
pub open spec fn sticks_out(p: Tetromino) -> bool {
    exists|k: int| 0 <= k < 4 && #[trigger] p.cell_x(k) < 0
}

/// Score, lines and level after `n` rows are cleared at once.
pub open spec fn score_model(m: TetrisModel, n: int) -> TetrisModel {
    let total = m.total_lines + n;
    let m1 = TetrisModel {
        score: (m.score + base_score(n) * (m.level + 1)) as u64,
        total_lines: total as u64,
        ..m
    };
    if total / 10 + 1 > m.level {
        with_gravity(TetrisModel { level: (total / 10 + 1) as u64, ..m1 })
    } else {
        m1
    }
}

/// Locking the current piece: it is written into the board; a piece that sticks out
/// ends the game. Otherwise full rows are cleared and scored, the queue is refilled
/// when it holds fewer than seven shapes, and the next shape enters; when it does
/// not fit the game ends.
pub open spec fn lock_model(m: TetrisModel) -> (TetrisModel, Seq<TetrisEffect>) {
    let (m1, over) = match m.current_piece {
        Some(p) => (
            TetrisModel {
                rng_seed: mix_seed_add(m.rng_seed, m.last_tick_ms),
                grid: placed(m.grid, p),
                ..m
            },
            sticks_out(p),
        ),
        None => (m, false),
    };
    if over {
        let (m3, e) = set_state_model(TetrisModel { current_piece: None, ..m1 }, GameState::GameOver);
        (m3, seq![TetrisEffect::Play(TetrisSound::GameOver)] + e)
    } else {
        let n = m1.grid.len() - open_rows(m1.grid).len();
        let m2 = TetrisModel { grid: cleared_grid(m1.grid, m1.logical_width as int), ..m1 };
        let m3 = if n > 0 {
            score_model(m2, n)
        } else {
            m2
        };
        let sound = if n >= 4 {
            TetrisSound::TetrisClear
        } else if n > 0 {
            TetrisSound::LineClear
        } else {
            TetrisSound::Fixed
        };
        let m4 = if m3.queue.len() < 7 {
            fill_model(m3)
        } else {
            m3
        };
        let m5 = take_next(m4);
        if fits(
            m5.grid,
            m5.logical_height as int,
            m5.logical_width as int,
            m5.current_piece.unwrap(),
        ) {
            (m5, seq![TetrisEffect::Play(sound)])
        } else {
            let (m6, e) = set_state_model(m5, GameState::GameOver);
            (
                m6,
                seq![TetrisEffect::Play(sound), TetrisEffect::Play(TetrisSound::GameOver)] + e,
            )
        }
    }
}

/// The number of full rows of a board.
pub open spec fn full_row_count(rows: Seq<Seq<Option<BlockType>>>) -> int {
    rows.len() - open_rows(rows).len()
}

/// Ten cleared rows make a level: after a piece locks (without ending the game by
/// sticking out), the cleared rows are added to the total, the level is the larger
/// of the level before and one more than a tenth of the total, and a game whose
/// gravity delay matched its level still does. A game that reaches ten cleared
/// rows is at level two or higher.
pub proof fn law_levels_follow_cleared_rows(m: TetrisModel)
    requires
        m.current_piece is Some,
        !sticks_out(m.current_piece.unwrap()),
        m.level >= m.total_lines / 10 + 1,
        m.total_lines + m.grid.len() <= u64::MAX,
    ensures
        ({
            let r = lock_model(m).0;
            let p = m.current_piece.unwrap();
            let n = full_row_count(placed(m.grid, p));
            &&& r.total_lines == m.total_lines + n
            &&& r.level == (if m.level >= r.total_lines / 10 + 1 { m.level as int } else { r.total_lines / 10 + 1 })
            &&& r.level >= 1
            &&& r.total_lines >= 10 ==> r.level >= 2
            &&& m.gravity_frames == gravity_for_level(m.level) ==> r.gravity_frames == gravity_for_level(r.level)
        }),
{
    let p = m.current_piece.unwrap();
    let g = placed(m.grid, p);
    lemma_open_rows_len(g);
    assert(g.len() == m.grid.len());
}

pub proof fn lemma_open_rows_len(rows: Seq<Seq<Option<BlockType>>>)
    ensures
        open_rows(rows).len() <= rows.len(),
    decreases rows.len(),
{
    if rows.len() > 0 {
        lemma_open_rows_len(rows.drop_last());
    }
}

/// The piece moved by `(dx, dy)` with the given rotation.
pub open spec fn moved(p: Tetromino, dx: int, dy: int, rot: u8) -> Tetromino {
    Tetromino { x: (p.x + dx) as i32, y: (p.y + dy) as i32, rotation: rot, ..p }
}

/// The wall-kick offsets tried, in order, when rotating.
pub open spec fn kick(i: int) -> (int, int) {
    if i == 0 {
        (0, 0)
    } else if i == 1 {
        (0, 1)
    } else if i == 2 {
        (0, -1)
    } else {
        (-1, 0)
    }
}

/// The first of the kicked rotations from index `i` on that fits.
pub open spec fn first_kick(m: TetrisModel, p: Tetromino, i: int) -> Option<Tetromino>
    decreases 4 - i,
{
    if i >= 4 || i < 0 {
        None
    } else {
        let q = moved(p, kick(i).0, kick(i).1, ((p.rotation + 1) % 256) as u8);
        if fits(m.grid, m.logical_height as int, m.logical_width as int, q) {
            Some(q)
        } else {
            first_kick(m, p, i + 1)
        }
    }
}

/// A step of the piece that is taken only when it fits.
pub open spec fn try_step(m: TetrisModel, q: Tetromino) -> (TetrisModel, Seq<TetrisEffect>) {
    if fits(m.grid, m.logical_height as int, m.logical_width as int, q) {
        (
            TetrisModel { current_piece: Some(q), lock_timer: 0, ..m },
            seq![TetrisEffect::Play(TetrisSound::Move)],
        )
    } else {
        (m, Seq::empty())
    }
}

/// A key acting on the current piece: Left rotates (with wall kicks), Right falls one
/// cell, Up and Down move across, Center drops the piece and locks it.
pub open spec fn move_model(m: TetrisModel, code: KeyCode) -> (TetrisModel, Seq<TetrisEffect>) {
    match m.current_piece {
        None => (m, Seq::empty()),
        Some(p) => match code {
            KeyCode::Left => match first_kick(m, p, 0) {
                Some(q) => (
                    TetrisModel { current_piece: Some(q), lock_timer: 0, ..m },
                    seq![TetrisEffect::Play(TetrisSound::Rotate)],
                ),
                None => (m, Seq::empty()),
            },
            KeyCode::Right => try_step(m, moved(p, 1, 0, p.rotation)),
            KeyCode::Up => try_step(m, moved(p, 0, -1, p.rotation)),
            KeyCode::Down => try_step(m, moved(p, 0, 1, p.rotation)),
            KeyCode::Center => {
                let d = drop_upto(m.grid, m.logical_height as int, m.logical_width as int, p, 4);
                let m1 = TetrisModel {
                    current_piece: Some(moved(p, d, 0, p.rotation)),
                    lock_timer: 0,
                    ..m
                };
                let (m2, e) = lock_model(m1);
                (m2, seq![TetrisEffect::Play(TetrisSound::Drop)] + e)
            },
            _ => (m, Seq::empty()),
        },
    }
}

/// A key press during an update.
pub open spec fn press_model(m: TetrisModel, code: KeyCode) -> (TetrisModel, Seq<TetrisEffect>) {
    let m0 = TetrisModel { rng_seed: mix_seed_press(m.rng_seed, m.last_tick_ms), ..m };
    match m0.state {
        GameState::GameOver => if code == KeyCode::Function {
            let (m1, e) = set_state_model(reset_model(m0), GameState::Reset);
            (TetrisModel { state: GameState::Playing, ..m1 }, e.push(TetrisEffect::SayRestart))
        } else {
            (m0, Seq::empty())
        },
        GameState::Playing if code == KeyCode::Function => set_state_model(m0, GameState::Stop),
        GameState::Stop => if code == KeyCode::Function {
            set_state_model(m0, GameState::Playing)
        } else {
            (m0, seq![TetrisEffect::SayPaused])
        },
        _ => {
            let (m1, e) = move_model(m0, code);
            if code == KeyCode::Up || code == KeyCode::Down || code == KeyCode::Right {
                (TetrisModel { active_key: Some(code), key_hold_frames: 0, ..m1 }, e)
            } else {
                (m1, e)
            }
        },
    }
}

/// A key release during an update: releasing the held key stops its repeat.
pub open spec fn release_model(m: TetrisModel, code: KeyCode) -> TetrisModel {
    if m.active_key == Some(code) {
        TetrisModel { active_key: None, ..m }
    } else {
        m
    }
}

/// The held-key repeat of a frame.
pub open spec fn frame_model_step1(m: TetrisModel) -> (TetrisModel, Seq<TetrisEffect>) {
    if m.state == GameState::Playing && m.active_key is Some {
        let h = (m.key_hold_frames + 1) as u32;
        let ma = TetrisModel { key_hold_frames: h, ..m };
        if h > DAS_FRAMES && (h - DAS_FRAMES) % (ARR_FRAMES as int) == 0 {
            move_model(ma, m.active_key.unwrap())
        } else {
            (ma, Seq::empty())
        }
    } else {
        (m, Seq::empty())
    }
}

/// The lock delay of a frame.
pub open spec fn frame_model_step2(m1: TetrisModel) -> (TetrisModel, Seq<TetrisEffect>) {
    if m1.state == GameState::Playing {
        let grounded = match m1.current_piece {
            Some(p) => !fits(
                m1.grid,
                m1.logical_height as int,
                m1.logical_width as int,
                moved(p, 1, 0, p.rotation),
            ),
            None => false,
        };
        if grounded {
            let mt = TetrisModel { lock_timer: (m1.lock_timer + 1) as usize, ..m1 };
            if mt.lock_timer >= LOCK_DELAY {
                lock_model(mt)
            } else {
                (mt, Seq::empty())
            }
        } else {
            (TetrisModel { lock_timer: 0, ..m1 }, Seq::empty())
        }
    } else {
        (m1, Seq::empty())
    }
}

/// The gravity of a frame.
pub open spec fn frame_model_step3(m2: TetrisModel) -> TetrisModel {
    if m2.state == GameState::Playing {
        let t = m2.last_tick_ms + 1;
        if t >= m2.gravity_frames {
            let mb = TetrisModel { last_tick_ms: 0, ..m2 };
            match mb.current_piece {
                Some(p) => {
                    let q = moved(p, 1, 0, p.rotation);
                    if fits(mb.grid, mb.logical_height as int, mb.logical_width as int, q) {
                        TetrisModel { current_piece: Some(q), ..mb }
                    } else {
                        mb
                    }
                },
                None => mb,
            }
        } else {
            TetrisModel { last_tick_ms: t as u64, ..m2 }
        }
    } else {
        m2
    }
}

/// The per-frame part of an update: held-key repeat, lock delay, gravity.
pub open spec fn frame_model(m: TetrisModel) -> (TetrisModel, Seq<TetrisEffect>) {
    let (m1, e1) = frame_model_step1(m);
    let (m2, e2) = frame_model_step2(m1);
    (frame_model_step3(m2), e1 + e2)
}

/// Bounds under which scoring cannot overflow the score, line or level counters.
pub open spec fn score_safe(m: TetrisModel) -> bool {
    &&& m.score <= 0x4000_0000_0000_0000
    &&& m.total_lines <= 0x100_0000_0000
    &&& m.level <= 0x100_0000_0000
}

/// Bounds under which locking the current piece cannot overflow.
pub open spec fn counters_safe(m: TetrisModel) -> bool {
    &&& score_safe(m)
    &&& match m.current_piece {
        Some(p) => p.in_range(),
        None => true,
    }
}

/// Bounds under which acting on one key cannot overflow.
pub open spec fn move_safe(m: TetrisModel) -> bool {
    &&& score_safe(m)
    &&& match m.current_piece {
        Some(p) => -0x2000_0000 <= p.x <= 0x2000_0000 && -0x2000_0000 <= p.y <= 0x2000_0000,
        None => true,
    }
}

/// The current piece, if any, lies within `b` of the origin.
pub open spec fn piece_within(m: TetrisModel, b: int) -> bool {
    match m.current_piece {
        Some(p) => -b <= p.x <= b && -b <= p.y <= b,
        None => true,
    }
}

/// The held key, if any, is one that repeats: Up, Down or Right.
pub open spec fn held_key_ok(m: TetrisModel) -> bool {
    match m.active_key {
        Some(k) => k == KeyCode::Up || k == KeyCode::Down || k == KeyCode::Right,
        None => true,
    }
}

/// Bounds under which no counter or coordinate of one update step can overflow.
pub open spec fn safe_model(m: TetrisModel) -> bool {
    &&& move_safe(m)
    &&& held_key_ok(m)
    &&& m.key_hold_frames < 0xffff_0000
    &&& m.last_tick_ms < 0xffff_ffff_0000_0000
    &&& m.lock_timer < 0xffff_0000
}

/// The game.
pub struct Tetris {
    pub board: Vec<Vec<Option<BlockType>>>,
    pub current_piece: Option<Tetromino>,
    pub state: GameState,
    pub last_tick_ms: u64,
    pub logical_height: usize,
    pub logical_width: usize,
    pub next_pieces: Vec<BlockType>,
    pub rng_seed: u32,
    pub score: u64,
    pub total_lines: u64,
    pub level: u64,
    pub active_key: Option<KeyCode>,
    pub key_hold_frames: u32,
    pub gravity_frames: u64,
    pub lock_timer: usize,
}

impl Tetris {
    /// The game's state as plain values.
    pub open spec fn model(&self) -> TetrisModel {
        TetrisModel {
            grid: self.grid(),
            current_piece: self.current_piece,
            state: self.state,
            last_tick_ms: self.last_tick_ms,
            logical_height: self.logical_height,
            logical_width: self.logical_width,
            queue: self.next_pieces@,
            rng_seed: self.rng_seed,
            score: self.score,
            total_lines: self.total_lines,
            level: self.level,
            active_key: self.active_key,
            key_hold_frames: self.key_hold_frames,
            gravity_frames: self.gravity_frames,
            lock_timer: self.lock_timer,
        }
    }

    /// The board as rows of cells.
    pub open spec fn grid(&self) -> Seq<Seq<Option<BlockType>>> {
        self.board@.map_values(|r: Vec<Option<BlockType>>| r@)
    }

    /// The board has `logical_height` rows of `logical_width` cells each.
    pub open spec fn wf(&self) -> bool {
        &&& self.board.len() == self.logical_height
        &&& forall|x: int| 0 <= x < self.board.len() ==> #[trigger] self.board@[x].len() == self.logical_width
        &&& 1 <= self.logical_height <= MAX_BOARD_DIM
        &&& 1 <= self.logical_width <= MAX_BOARD_DIM
    }

    pub open spec fn fits(&self, p: Tetromino) -> bool {
        fits(self.grid(), self.logical_height as int, self.logical_width as int, p)
    }

    /// Whether `piece` fits on the board.
    pub fn is_valid_position(&self, piece: &Tetromino) -> (r: bool)
        requires
            self.wf(),
            piece.in_range(),
        ensures
            r == self.fits(*piece),
    {
        let cells = piece.get_cells();
        proof {
            lemma_cells_small(piece.block_type, (piece.rotation % 4) as int);
        }
        let lh = self.logical_height as i32;
        let lw = self.logical_width as i32;
        let mut k: usize = 0;
        while k < 4
            invariant
                k <= 4,
                self.wf(),
                piece.in_range(),
                cells@ == piece.cells(),
                lh == self.logical_height,
                lw == self.logical_width,
                forall|j: int|
                    0 <= j < k ==> {
                        &&& 0 <= #[trigger] piece.cell_y(j) < lw
                        &&& piece.cell_x(j) < lh
                        &&& (piece.cell_x(j) >= 0 ==> self.grid()[piece.cell_x(j)][piece.cell_y(
                            j,
                        )] is None)
                    },
            decreases 4 - k,
        {
            let (cx, cy) = cells[k];
            let px = piece.x + cx;
            let py = piece.y + cy;
            if py < 0 || py >= lw || px >= lh {
                assert(!(0 <= piece.cell_y(k as int) < lw && piece.cell_x(k as int) < lh));
                return false;
            }
            if px >= 0 {
                assert(self.board@[px as int].len() == self.logical_width);
            }
            if px >= 0 && self.board[px as usize][py as usize].is_some() {
                assert(self.grid()[piece.cell_x(k as int)][piece.cell_y(k as int)] is Some);
                return false;
            }
            k += 1;
        }
        true
    }

    /// Advances the generator and returns its next number (31 bits).
    pub fn next_rand(&mut self) -> (r: u32)
        ensures
            final(self).model() == (TetrisModel { rng_seed: lcg(old(self).rng_seed), ..old(self).model() }),
            r == (lcg(old(self).rng_seed) & 0x7fff_ffffu32),
            final(self).board == old(self).board,
    {
        let old_seed = self.rng_seed;
        self.rng_seed = self.rng_seed.wrapping_mul(1103515245).wrapping_add(12345);
        proof {
            lemma_lcg_wrapping(old_seed);
        }
        self.rng_seed & 0x7fff_ffff
    }

    /// Refills the queue with one shuffled set of all seven shapes.
    pub fn fill_piece_queue(&mut self)
        ensures
            final(self).model() == fill_model(old(self).model()),
            final(self).board == old(self).board,
    {
        let ghost seed0 = self.rng_seed;
        let mut bag: Vec<BlockType> = Vec::new();
        bag.push(BlockType::I);
        bag.push(BlockType::J);
        bag.push(BlockType::L);
        bag.push(BlockType::O);
        bag.push(BlockType::S);
        bag.push(BlockType::T);
        bag.push(BlockType::Z);
        assert(bag@ =~= ordered_bag());
        let mut i: usize = 6;
        while i >= 1
            invariant
                i <= 6,
                bag.len() == 7,
                shuffle(bag@, self.rng_seed, i as int) == shuffle(ordered_bag(), seed0, 6),
                seed0 == old(self).rng_seed,
                self.model() == (TetrisModel { rng_seed: self.rng_seed, ..old(self).model() }),
                self.board == old(self).board,
            decreases i,
        {
            let ghost before = bag@;
            let r = self.next_rand();
            let j = (r as usize) % (i + 1);
            let a = bag[i];
            let b = bag[j];
            bag.set(i, b);
            bag.set(j, a);
            assert(bag@ == before.update(i as int, before[j as int]).update(j as int, before[i as int]));
            i -= 1;
        }
        self.next_pieces.append(&mut bag);
    }

    /// Removes every full row and adds as many empty rows on the near side.
    /// Returns the number of rows removed.
    pub fn clear_lines(&mut self) -> (r: usize)
        requires
            old(self).wf(),
        ensures
            final(self).wf(),
            final(self).model() == (TetrisModel {
                grid: cleared_grid(old(self).grid(), old(self).logical_width as int),
                ..old(self).model()
            }),
            r == old(self).grid().len() - open_rows(old(self).grid()).len(),
    {
        let ghost g0 = self.grid();
        let lw = self.logical_width;
        let mut rows: Vec<Vec<Option<BlockType>>> = Vec::new();
        std::mem::swap(&mut rows, &mut self.board);
        assert(rows_view(rows@) == g0);
        assert forall|x: int| 0 <= x < g0.len() implies #[trigger] g0[x].len() == lw by {
            assert(old(self).board@[x].len() == lw);
            assert(g0[x] == rows@[x]@);
        }
        let mut kept: Vec<Vec<Option<BlockType>>> = Vec::new();
        let mut i: usize = 0;
        while i < rows.len()
            invariant
                i <= rows.len(),
                rows_view(rows@) == g0,
                g0.len() == self.logical_height,
                forall|x: int| 0 <= x < g0.len() ==> #[trigger] g0[x].len() == lw,
                rows_view(kept@) == open_rows(g0.take(i as int)),
                kept.len() <= i,
            decreases rows.len() - i,
        {
            assert(g0.take(i + 1).drop_last() =~= g0.take(i as int));
            assert(g0.take(i + 1).last() == g0[i as int]);
            if row_has_gap(&rows[i]) {
                let row = copy_row(&rows[i]);
                let ghost kv = rows_view(kept@);
                kept.push(row);
                assert(rows_view(kept@) =~= kv.push(g0[i as int]));
            }
            i += 1;
        }
        assert(g0.take(rows.len() as int) =~= g0);
        let cleared = rows.len() - kept.len();
        let mut board: Vec<Vec<Option<BlockType>>> = Vec::new();
        let mut c: usize = 0;
        while c < cleared
            invariant
                c <= cleared,
                rows_view(board@) == Seq::new(c as nat, |k: int| empty_row(lw as int)),
            decreases cleared - c,
        {
            let e = empty_row_exec(lw);
            let ghost bv = rows_view(board@);
            board.push(e);
            assert(rows_view(board@) =~= bv.push(empty_row(lw as int)));
            assert(rows_view(board@) =~= Seq::new((c + 1) as nat, |k: int| empty_row(lw as int)));
            c += 1;
        }
        let ghost front = rows_view(board@);
        let ghost back = rows_view(kept@);
        board.append(&mut kept);
        assert(rows_view(board@) =~= front + back);
        self.board = board;
        proof {
            lemma_open_rows_width(g0, lw as int);
            assert forall|x: int| 0 <= x < self.board.len() implies #[trigger] self.board@[x].len()
                == self.logical_width by {
                assert(self.grid()[x] == self.board@[x]@);
            }
        }
        cleared
    }

    /// Whether `(x, y)` is a filled cell of the board (cells before the near side are not).
    fn cell_filled(&self, x: i32, y: i32) -> (r: bool)
        requires
            self.wf(),
            x < self.logical_height,
            0 <= y < self.logical_width,
        ensures
            r == (x >= 0 && self.grid()[x as int][y as int] is Some),
    {
        if x < 0 {
            return false;
        }
        assert(self.board@[x as int].len() == self.logical_width);
        assert(self.grid()[x as int] == self.board@[x as int]@);
        self.board[x as usize][y as usize].is_some()
    }

    /// How far the piece can fall before it lands (100 when no cell lies across the board);
    /// `law_hard_drop_lands` shows the piece fits there and not one cell further.
    pub fn calculate_drop_distance(&self, piece: &Tetromino) -> (r: i32)
        requires
            self.wf(),
            piece.in_range(),
        ensures
            r == drop_upto(self.grid(), self.logical_height as int, self.logical_width as int, *piece, 4),
            0 <= r <= 100,
    {
        let cells = piece.get_cells();
        proof {
            lemma_cells_small(piece.block_type, (piece.rotation % 4) as int);
        }
        let lh = self.logical_height as i32;
        let lw = self.logical_width as i32;
        let mut min_distance: i32 = 100;
        let mut k: usize = 0;
        while k < 4
            invariant
                k <= 4,
                self.wf(),
                piece.in_range(),
                cells@ == piece.cells(),
                lh == self.logical_height,
                lw == self.logical_width,
                min_distance == drop_upto(self.grid(), lh as int, lw as int, *piece, k as int),
                0 <= min_distance <= 100,
            decreases 4 - k,
        {
            let (cx, cy) = cells[k];
            let px = piece.x + cx;
            let py = piece.y + cy;
            if py >= 0 && py < lw {
                let mut distance: i32 = 0;
                let mut x_check = px + 1;
                proof {
                    lemma_free_run_bounds(self.grid(), lh as int, py as int, x_check as int);
                }
                while x_check < lh && !self.cell_filled(x_check, py)
                    invariant
                        self.wf(),
                        lh == self.logical_height,
                        lw == self.logical_width,
                        0 <= py < lw,
                        -0x4000_0000 <= px + 1 <= x_check,
                        x_check <= lh || x_check == px + 1,
                        distance == x_check - (px + 1),
                        distance + free_run(self.grid(), lh as int, py as int, x_check as int)
                            == free_run(self.grid(), lh as int, py as int, px + 1),
                    decreases lh - x_check,
                {
                    distance += 1;
                    x_check += 1;
                }
                if distance < min_distance {
                    min_distance = distance;
                }
            }
            k += 1;
        }
        min_distance
    }

}

/// Views of the rows of a board.
pub open spec fn rows_view(rows: Seq<Vec<Option<BlockType>>>) -> Seq<Seq<Option<BlockType>>> {
    rows.map_values(|r: Vec<Option<BlockType>>| r@)
}

/// `wrapping_mul` then `wrapping_add` is the generator step.
pub proof fn lemma_lcg_wrapping(s: u32)
    ensures
        ((((s as nat * 1103515245nat) % 0x1_0000_0000nat) + 12345nat) % 0x1_0000_0000nat) as u32
            == lcg(s),
{
    let m = 0x1_0000_0000int;
    let a = s as int * 1103515245;
    assert((a % m + 12345) % m == (a + 12345) % m) by {
        vstd::arithmetic::div_mod::lemma_add_mod_noop(a, 12345, m);
        vstd::arithmetic::div_mod::lemma_mod_twice(a, m);
        vstd::arithmetic::div_mod::lemma_small_mod(12345nat, m as nat);
        vstd::arithmetic::div_mod::lemma_add_mod_noop(a % m, 12345, m);
    }
}

/// Full rows kept out, the open rows have the board's width and are no more than the rows.
pub proof fn lemma_open_rows_width(rows: Seq<Seq<Option<BlockType>>>, w: int)
    requires
        forall|x: int| 0 <= x < rows.len() ==> #[trigger] rows[x].len() == w,
    ensures
        open_rows(rows).len() <= rows.len(),
        forall|x: int| 0 <= x < open_rows(rows).len() ==> #[trigger] open_rows(rows)[x].len() == w,
    decreases rows.len(),
{
    if rows.len() > 0 {
        let init = rows.drop_last();
        assert forall|x: int| 0 <= x < init.len() implies #[trigger] init[x].len() == w by {
            assert(init[x] == rows[x]);
        }
        lemma_open_rows_width(init, w);
    }
}

pub proof fn lemma_free_run_bounds(grid: Seq<Seq<Option<BlockType>>>, lh: int, y: int, x: int)
    ensures
        0 <= free_run(grid, lh, y, x),
        x < lh ==> free_run(grid, lh, y, x) <= lh - x,
        x >= lh ==> free_run(grid, lh, y, x) == 0,
    decreases lh - x,
{
    if x < lh && !(x >= 0 && grid[x][y] is Some) {
        lemma_free_run_bounds(grid, lh, y, x + 1);
    }
}

/// Whether a row has an empty cell.
fn row_has_gap(row: &Vec<Option<BlockType>>) -> (r: bool)
    ensures
        r == !row_full(row@),
{
    let mut y: usize = 0;
    while y < row.len()
        invariant
            y <= row.len(),
            forall|k: int| 0 <= k < y ==> row@[k] is Some,
        decreases row.len() - y,
    {
        if row[y].is_none() {
            return true;
        }
        y += 1;
    }
    false
}

fn copy_row(row: &Vec<Option<BlockType>>) -> (r: Vec<Option<BlockType>>)
    ensures
        r@ == row@,
{
    let mut r: Vec<Option<BlockType>> = Vec::new();
    let mut y: usize = 0;
    while y < row.len()
        invariant
            y <= row.len(),
            r@ == row@.take(y as int),
        decreases row.len() - y,
    {
        r.push(row[y]);
        assert(row@.take(y + 1) =~= row@.take(y as int).push(row@[y as int]));
        y += 1;
    }
    assert(row@.take(row.len() as int) =~= row@);
    r
}

fn empty_row_exec(n: usize) -> (r: Vec<Option<BlockType>>)
    ensures
        r@ == empty_row(n as int),
{
    let mut r: Vec<Option<BlockType>> = Vec::new();
    let mut y: usize = 0;
    while y < n
        invariant
            y <= n,
            r@ == empty_row(y as int),
        decreases n - y,
    {
        r.push(None);
        assert(r@ =~= empty_row(y + 1));
        y += 1;
    }
    r
}


/// A board of `h` empty rows of width `w`.
fn empty_board(h: usize, w: usize) -> (r: Vec<Vec<Option<BlockType>>>)
    ensures
        rows_view(r@) == empty_grid(h as int, w as int),
        r.len() == h,
        forall|x: int| 0 <= x < h ==> #[trigger] r@[x].len() == w,
{
    let mut r: Vec<Vec<Option<BlockType>>> = Vec::new();
    let mut x: usize = 0;
    while x < h
        invariant
            x <= h,
            r.len() == x,
            rows_view(r@) == empty_grid(x as int, w as int),
            forall|k: int| 0 <= k < x ==> #[trigger] r@[k].len() == w,
        decreases h - x,
    {
        let row = empty_row_exec(w);
        let ghost before = rows_view(r@);
        r.push(row);
        assert(rows_view(r@) =~= before.push(empty_row(w as int)));
        assert(rows_view(r@) =~= empty_grid(x + 1, w as int));
        x += 1;
    }
    r
}

impl Tetris {
    /// The frame rate the game asks for.
    pub fn target_fps(&self) -> (r: u16)
        ensures
            r == TARGET_FPS,
    {
        TARGET_FPS
    }

    /// Recomputes the gravity delay for the current level.
    pub fn update_gravity_frames(&mut self)
        ensures
            final(self).model() == with_gravity(old(self).model()),
            final(self).board == old(self).board,
    {
        let table: [u64; 19] = [30, 28, 27, 25, 24, 22, 21, 19, 18, 16, 15, 13, 11, 10, 8, 7, 5, 4, 2];
        if self.level < 19 {
            self.gravity_frames = table[self.level as usize];
        } else {
            self.gravity_frames = 1;
        }
    }

    /// Changes the stage; a real change is announced, and pausing drops the held key.
    pub fn set_state(&mut self, new_state: GameState, effects: &mut Vec<TetrisEffect>)
        ensures
            final(self).model() == set_state_model(old(self).model(), new_state).0,
            final(effects)@ == old(effects)@ + set_state_model(old(self).model(), new_state).1,
            final(self).board == old(self).board,
    {
        if self.state != new_state {
            self.state = new_state;
            if new_state == GameState::Stop {
                self.active_key = None;
                self.key_hold_frames = 0;
            }
            effects.push(TetrisEffect::Announce(new_state));
        } else {
            assert(effects@ =~= old(effects)@ + Seq::empty());
        }
    }
}


impl Tetris {
    /// A well-formed board has `logical_height` rows of `logical_width` cells.
    pub proof fn lemma_grid_rows(&self)
        requires
            self.wf(),
        ensures
            self.grid().len() == self.logical_height,
            forall|x: int| 0 <= x < self.logical_height ==> #[trigger] self.grid()[x].len() == self.logical_width,
    {
        assert forall|x: int| 0 <= x < self.logical_height implies #[trigger] self.grid()[x].len() == self.logical_width by {
            assert(self.board@[x].len() == self.logical_width);
        }
    }

    /// Board dimensions the game handles.
    pub open spec fn dims_ok(&self) -> bool {
        &&& 1 <= self.logical_height <= MAX_BOARD_DIM
        &&& 1 <= self.logical_width <= MAX_BOARD_DIM
    }

    /// Takes the front of the queue as the new current piece.
    fn take_next_piece(&mut self)
        requires
            old(self).next_pieces.len() > 0,
            old(self).logical_width <= MAX_BOARD_DIM,
        ensures
            final(self).model() == take_next(old(self).model()),
            final(self).board == old(self).board,
    {
        let next_block = self.next_pieces.remove(0);
        self.current_piece = Some(Tetromino::new(next_block, self.logical_width));
        assert(self.next_pieces@ =~= old(self).next_pieces@.drop_first());
    }

    /// Restarts the game: empty board, fresh queue and piece, score and level reset.
    pub fn reset_game(&mut self)
        requires
            old(self).dims_ok(),
        ensures
            final(self).wf(),
            final(self).model() == reset_model(old(self).model()),
    {
        self.board = empty_board(self.logical_height, self.logical_width);
        self.next_pieces.clear();
        assert(self.grid() =~= empty_grid(self.logical_height as int, self.logical_width as int));
        self.fill_piece_queue();
        assert(shuffle(ordered_bag(), old(self).rng_seed, 6).0.len() == 7) by {
            lemma_shuffle_len(ordered_bag(), old(self).rng_seed, 6);
        }
        self.take_next_piece();
        self.score = 0;
        self.total_lines = 0;
        self.level = 1;
        self.active_key = None;
        self.key_hold_frames = 0;
        self.lock_timer = 0;
        self.update_gravity_frames();
    }

    /// A new game on a 20 by 4 board, seeded with 12345, at level 1, not yet started.
    pub fn new() -> (r: Self)
        ensures
            r.wf(),
            r.model() == with_gravity(take_next(fill_model(initial_model()))),
    {
        let mut t = Tetris {
            board: empty_board(20, UI_SIDE_WIDTH_CELLS),
            current_piece: None,
            state: GameState::Ready,
            last_tick_ms: 0,
            logical_height: 20,
            logical_width: UI_SIDE_WIDTH_CELLS,
            next_pieces: Vec::new(),
            rng_seed: 12345,
            score: 0,
            total_lines: 0,
            level: 1,
            active_key: None,
            key_hold_frames: 0,
            gravity_frames: 0,
            lock_timer: 0,
        };
        assert(t.model() =~= initial_model());
        t.fill_piece_queue();
        proof {
            lemma_shuffle_len(ordered_bag(), 12345, 6);
        }
        t.take_next_piece();
        t.update_gravity_frames();
        t
    }
}

/// The game before its queue is filled: an empty 20 by 4 board, seed 12345, level 1.
pub open spec fn initial_model() -> TetrisModel {
    TetrisModel {
        grid: empty_grid(20, 4),
        current_piece: None,
        state: GameState::Ready,
        last_tick_ms: 0,
        logical_height: 20,
        logical_width: 4,
        queue: Seq::empty(),
        rng_seed: 12345,
        score: 0,
        total_lines: 0,
        level: 1,
        active_key: None,
        key_hold_frames: 0,
        gravity_frames: 0,
        lock_timer: 0,
    }
}

/// Shuffling keeps the length of the bag.
pub proof fn lemma_shuffle_len(bag: Seq<BlockType>, seed: u32, i: int)
    requires
        i < bag.len(),
    ensures
        shuffle(bag, seed, i).0.len() == bag.len(),
    decreases i,
{
    if i >= 1 {
        let s2 = lcg(seed);
        let j = ((s2 & 0x7fff_ffffu32) as int) % (i + 1);
        lemma_shuffle_len(bag.update(i, bag[j]).update(j, bag[i]), s2, i - 1);
    }
}


/// Swapping two entries keeps a sequence free of repeats and keeps what it holds.
pub proof fn lemma_swap_keeps<A>(s: Seq<A>, i: int, j: int)
    requires
        0 <= i < s.len(),
        0 <= j < s.len(),
        s.no_duplicates(),
    ensures
        s.update(i, s[j]).update(j, s[i]).no_duplicates(),
        s.update(i, s[j]).update(j, s[i]).len() == s.len(),
        forall|x: A|
            s.update(i, s[j]).update(j, s[i]).contains(x) <==> s.contains(x),
{
    let t = s.update(i, s[j]).update(j, s[i]);
    assert forall|k: int| 0 <= k < s.len() implies #[trigger] t[k] == s[if k == j {
        i
    } else if k == i {
        j
    } else {
        k
    }] by {}
    assert forall|x: A| t.contains(x) <==> s.contains(x) by {
        if s.contains(x) {
            let k = choose|k: int| 0 <= k < s.len() && s[k] == x;
            let k2 = if k == j {
                i
            } else if k == i {
                j
            } else {
                k
            };
            assert(t[k2] == x);
        }
        if t.contains(x) {
            let k = choose|k: int| 0 <= k < t.len() && t[k] == x;
            let k2 = if k == j {
                i
            } else if k == i {
                j
            } else {
                k
            };
            assert(s[k2] == x);
        }
    }
}

/// Shuffling keeps a bag free of repeats and keeps what it holds.
pub proof fn lemma_shuffle_keeps(bag: Seq<BlockType>, seed: u32, i: int)
    requires
        i < bag.len(),
        bag.no_duplicates(),
    ensures
        shuffle(bag, seed, i).0.len() == bag.len(),
        shuffle(bag, seed, i).0.no_duplicates(),
        forall|x: BlockType| shuffle(bag, seed, i).0.contains(x) <==> bag.contains(x),
    decreases i,
{
    if i >= 1 {
        let s2 = lcg(seed);
        let j = ((s2 & 0x7fff_ffffu32) as int) % (i + 1);
        lemma_swap_keeps(bag, i, j);
        lemma_shuffle_keeps(bag.update(i, bag[j]).update(j, bag[i]), s2, i - 1);
    }
}

/// Seven-bag rule: whatever the seed, each refill of the queue adds the seven
/// shapes once each, in some order.
pub proof fn law_bag_holds_each_shape_once(seed: u32)
    ensures
        shuffle(ordered_bag(), seed, 6).0.len() == 7,
        shuffle(ordered_bag(), seed, 6).0.no_duplicates(),
        forall|x: BlockType| #[trigger] shuffle(ordered_bag(), seed, 6).0.contains(x),
{
    let b = ordered_bag();
    assert forall|x: BlockType| b.contains(x) by {
        match x {
            BlockType::I => assert(b[0] == x),
            BlockType::J => assert(b[1] == x),
            BlockType::L => assert(b[2] == x),
            BlockType::O => assert(b[3] == x),
            BlockType::S => assert(b[4] == x),
            BlockType::T => assert(b[5] == x),
            BlockType::Z => assert(b[6] == x),
        }
    }
    lemma_shuffle_keeps(b, seed, 6);
    assert forall|x: BlockType| #[trigger] shuffle(b, seed, 6).0.contains(x) by {
        assert(b.contains(x));
    }
}


/// Whether one of the first `k` cells of the piece is at `(x, y)`.
pub open spec fn covers_upto(p: Tetromino, x: int, y: int, k: int) -> bool {
    exists|j: int| 0 <= j < k && #[trigger] p.cell_x(j) == x && p.cell_y(j) == y
}

/// Whether one of the first `k` cells of the piece is before the near side.
pub open spec fn sticks_out_upto(p: Tetromino, k: int) -> bool {
    exists|j: int| 0 <= j < k && #[trigger] p.cell_x(j) < 0
}

impl Tetris {
    /// Writes the piece's cells that lie on the board into it.
    /// Returns whether some cell lies before the near side.
    fn place_piece(&mut self, p: Tetromino) -> (over: bool)
        requires
            old(self).wf(),
            p.in_range(),
        ensures
            final(self).wf(),
            final(self).model() == (TetrisModel { grid: placed(old(self).grid(), p), ..old(self).model() }),
            over == sticks_out(p),
    {
        let ghost g0 = self.grid();
        let cells = p.get_cells();
        proof {
            lemma_cells_small(p.block_type, (p.rotation % 4) as int);
        }
        let lh = self.logical_height as i32;
        let lw = self.logical_width as i32;
        let mut over = false;
        let mut k: usize = 0;
        assert forall|x: int| 0 <= x < lh implies #[trigger] g0[x].len() == lw by {
            assert(self.board@[x].len() == self.logical_width);
            assert(g0[x] == self.board@[x]@);
        }
        while k < 4
            invariant
                k <= 4,
                self.wf(),
                p.in_range(),
                cells@ == p.cells(),
                lh == self.logical_height,
                lw == self.logical_width,
                g0.len() == lh,
                self.model() == (TetrisModel { grid: self.grid(), ..old(self).model() }),
                forall|x: int| 0 <= x < lh ==> #[trigger] g0[x].len() == lw,
                forall|x: int, y: int|
                    0 <= x < lh && 0 <= y < lw ==> #[trigger] self.grid()[x][y] == if covers_upto(
                        p,
                        x,
                        y,
                        k as int,
                    ) {
                        Some(p.block_type)
                    } else {
                        g0[x][y]
                    },
                over == sticks_out_upto(p, k as int),
            decreases 4 - k,
        {
            let (cx, cy) = cells[k];
            let px = p.x + cx;
            let py = p.y + cy;
            let ghost gb = self.grid();
            if px < 0 {
                over = true;
            } else if py >= 0 && py < lw && px < lh {
                assert(self.board@[px as int].len() == self.logical_width);
                let ghost bb = self.board@;
                let mut row = copy_row(&self.board[px as usize]);
                row.set(py as usize, Some(p.block_type));
                self.board.set(px as usize, row);
                assert forall|x: int| 0 <= x < self.board.len() implies #[trigger] self.board@[x].len()
                    == self.logical_width by {
                    if x != px {
                        assert(self.board@[x] == bb[x]);
                    }
                }
            }
            assert forall|x: int, y: int|
                0 <= x < lh && 0 <= y < lw implies #[trigger] self.grid()[x][y] == if covers_upto(
                    p,
                    x,
                    y,
                    k + 1,
                ) {
                    Some(p.block_type)
                } else {
                    g0[x][y]
                } by {
                if x == p.cell_x(k as int) && y == p.cell_y(k as int) {
                    assert(covers_upto(p, x, y, k + 1));
                } else {
                    assert(self.grid()[x][y] == gb[x][y]);
                    if covers_upto(p, x, y, k + 1) {
                        let j = choose|j: int| 0 <= j < k + 1 && #[trigger] p.cell_x(j) == x && p.cell_y(j) == y;
                        assert(covers_upto(p, x, y, k as int));
                    }
                }
            }
            proof {
                if sticks_out_upto(p, k + 1) && !sticks_out_upto(p, k as int) {
                    let j = choose|j: int| 0 <= j < k + 1 && #[trigger] p.cell_x(j) < 0;
                    assert(j == k);
                }
                if p.cell_x(k as int) < 0 {
                    assert(sticks_out_upto(p, k + 1));
                }
                if sticks_out_upto(p, k as int) {
                    let j = choose|j: int| 0 <= j < k && #[trigger] p.cell_x(j) < 0;
                    assert(sticks_out_upto(p, k + 1));
                }
            }
            k += 1;
        }
        assert(self.grid() =~~= placed(g0, p)) by {
            assert forall|x: int| 0 <= x < lh implies #[trigger] self.grid()[x] =~= placed(g0, p)[x] by {
                assert(self.board@[x].len() == self.logical_width);
                assert forall|y: int| 0 <= y < lw implies #[trigger] self.grid()[x][y] == placed(g0, p)[x][y] by {
                    assert(covers_upto(p, x, y, 4) == covers(p, x, y));
                }
            }
        }
        over
    }
}


impl Tetris {
    /// Locks the current piece into the board, clears and scores full rows, and
    /// brings in the next shape; the game ends when the piece sticks out before the
    /// near side or the next shape does not fit.
    pub fn lock_current_piece(&mut self, effects: &mut Vec<TetrisEffect>)
        requires
            old(self).wf(),
            counters_safe(old(self).model()),
        ensures
            final(self).wf(),
            final(self).model() == lock_model(old(self).model()).0,
            final(effects)@ == old(effects)@ + lock_model(old(self).model()).1,
    {
        let ghost m0 = self.model();
        let mut is_game_over = false;
        match self.current_piece {
            Some(piece) => {
                let t = self.last_tick_ms;
                let low = #[verifier::truncate] (t as u32);
                assert(t as u32 == t % 0x1_0000_0000) by (bit_vector);
                self.rng_seed = self.rng_seed.wrapping_add(low);
                is_game_over = self.place_piece(piece);
            },
            None => {},
        }
        if is_game_over {
            self.current_piece = None;
            effects.push(TetrisEffect::Play(TetrisSound::GameOver));
            let ghost e1 = effects@;
            self.set_state(GameState::GameOver, effects);
            assert(effects@ =~= old(effects)@ + lock_model(m0).1);
            return;
        }
        let ghost m1 = self.model();
        proof {
            self.lemma_grid_rows();
        }
        let cleared = self.clear_lines();
        proof {
            lemma_open_rows_width(m1.grid, m1.logical_width as int);
        }
        let sound = if cleared > 0 {
            let base: u64 = if cleared == 1 {
                40
            } else if cleared == 2 {
                100
            } else if cleared == 3 {
                300
            } else if cleared == 4 {
                1200
            } else {
                1500
            };
            self.score = self.score + base * (self.level + 1);
            self.total_lines = self.total_lines + cleared as u64;
            let new_level = self.total_lines / 10 + 1;
            if new_level > self.level {
                self.level = new_level;
                self.update_gravity_frames();
            }
            if cleared >= 4 {
                TetrisSound::TetrisClear
            } else {
                TetrisSound::LineClear
            }
        } else {
            TetrisSound::Fixed
        };
        effects.push(TetrisEffect::Play(sound));
        if self.next_pieces.len() < 7 {
            let ghost seed = self.rng_seed;
            self.fill_piece_queue();
            proof {
                lemma_shuffle_len(ordered_bag(), seed, 6);
            }
        }
        self.take_next_piece();
        let piece = self.current_piece.unwrap();
        if !self.is_valid_position(&piece) {
            effects.push(TetrisEffect::Play(TetrisSound::GameOver));
            self.set_state(GameState::GameOver, effects);
        }
    }
}


impl Tetris {
    /// Acts on a key: Left rotates (trying the wall kicks in order), Right moves the
    /// piece one cell in the direction of fall, Up and Down move it across, Center
    /// drops it as far as it goes and locks it; other keys do nothing. Returns
    /// true when Home was pressed, so that the game is left.
    pub fn process_move(&mut self, code: KeyCode, effects: &mut Vec<TetrisEffect>) -> (r: bool)
        requires
            old(self).wf(),
            move_safe(old(self).model()),
        ensures
            r == (code == KeyCode::Home),
            final(self).wf(),
            final(self).model() == move_model(old(self).model(), code).0,
            final(effects)@ == old(effects)@ + move_model(old(self).model(), code).1,
    {
        self.move_piece(code, effects);
        code == KeyCode::Home
    }

    fn move_piece(&mut self, code: KeyCode, effects: &mut Vec<TetrisEffect>)
        requires
            old(self).wf(),
            move_safe(old(self).model()),
        ensures
            final(self).wf(),
            final(self).model() == move_model(old(self).model(), code).0,
            final(effects)@ == old(effects)@ + move_model(old(self).model(), code).1,
    {
        let ghost m0 = self.model();
        match self.current_piece {
            None => {
                assert(effects@ =~= old(effects)@ + Seq::empty());
            },
            Some(piece) => {
                match code {
                    KeyCode::Left => {
                        let next_rotation = piece.rotation.wrapping_add(1);
                        let kicks: [(i32, i32); 4] = [(0, 0), (0, 1), (0, -1), (-1, 0)];
                        let mut i: usize = 0;
                        while i < 4
                            invariant
                                i <= 4,
                                self.model() == m0,
                                self.wf(),
                                m0.current_piece == Some(piece),
                                m0 == old(self).model(),
                                code == KeyCode::Left,
                                move_safe(m0),
                                next_rotation == ((piece.rotation + 1) % 256) as u8,
                                forall|k: int| 0 <= k < 4 ==> #[trigger] kicks@[k] == ((kick(k).0) as i32, (kick(k).1) as i32),
                                first_kick(m0, piece, 0) == first_kick(m0, piece, i as int),
                                effects@ == old(effects)@,
                            decreases 4 - i,
                        {
                            let (ox, oy) = kicks[i];
                            let test = Tetromino {
                                block_type: piece.block_type,
                                x: piece.x + ox,
                                y: piece.y + oy,
                                rotation: next_rotation,
                            };
                            assert(test == moved(piece, kick(i as int).0, kick(i as int).1, next_rotation));
                            if self.is_valid_position(&test) {
                                assert(first_kick(m0, piece, i as int) == Some(test));
                                self.current_piece = Some(test);
                                effects.push(TetrisEffect::Play(TetrisSound::Rotate));
                                self.lock_timer = 0;
                                assert(effects@ =~= old(effects)@ + move_model(m0, code).1);
                                return;
                            }
                            assert(first_kick(m0, piece, i as int) == first_kick(m0, piece, i + 1));
                            i += 1;
                        }
                        assert(effects@ =~= old(effects)@ + Seq::empty());
                    },
                    KeyCode::Right => {
                        let test = Tetromino { x: piece.x + 1, ..piece };
                        self.try_step(test, effects);
                    },
                    KeyCode::Up => {
                        let test = Tetromino { y: piece.y - 1, ..piece };
                        self.try_step(test, effects);
                    },
                    KeyCode::Down => {
                        let test = Tetromino { y: piece.y + 1, ..piece };
                        self.try_step(test, effects);
                    },
                    KeyCode::Center => {
                        let d = self.calculate_drop_distance(&piece);
                        let dropped = Tetromino { x: piece.x + d, ..piece };
                        self.current_piece = Some(dropped);
                        effects.push(TetrisEffect::Play(TetrisSound::Drop));
                        self.lock_timer = 0;
                        let ghost e1 = effects@;
                        self.lock_current_piece(effects);
                        assert(effects@ =~= old(effects)@ + move_model(m0, code).1);
                    },
                    _ => {
                        assert(effects@ =~= old(effects)@ + Seq::empty());
                    },
                }
            },
        }
    }

    /// Takes the step to `q` when it fits.
    fn try_step(&mut self, q: Tetromino, effects: &mut Vec<TetrisEffect>)
        requires
            old(self).wf(),
            q.in_range(),
        ensures
            final(self).wf(),
            final(self).model() == try_step(old(self).model(), q).0,
            final(effects)@ == old(effects)@ + try_step(old(self).model(), q).1,
    {
        if self.is_valid_position(&q) {
            self.current_piece = Some(q);
            effects.push(TetrisEffect::Play(TetrisSound::Move));
            self.lock_timer = 0;
        } else {
            assert(effects@ =~= old(effects)@ + Seq::empty());
        }
    }
}


/// `wrapping_mul` by the generator's factor then `wrapping_add` of `c`.
pub proof fn lemma_mul_add_wrapping(s: u32, c: u32)
    ensures
        ((((s as nat * 1103515245nat) % 0x1_0000_0000nat) + c as nat) % 0x1_0000_0000nat) as int
            == (s as int * 1103515245 + c as int) % 0x1_0000_0000,
{
    let m = 0x1_0000_0000int;
    let a = s as int * 1103515245;
    vstd::arithmetic::div_mod::lemma_add_mod_noop(a, c as int, m);
    vstd::arithmetic::div_mod::lemma_mod_twice(a, m);
    vstd::arithmetic::div_mod::lemma_small_mod(c as nat, m as nat);
    vstd::arithmetic::div_mod::lemma_add_mod_noop(a % m, c as int, m);
}

/// The seed at the start of an update.
pub open spec fn start_model(m: TetrisModel) -> TetrisModel {
    TetrisModel { rng_seed: ((m.rng_seed + 1) % 0x1_0000_0000) as u32, ..m }
}

impl Tetris {
    /// Start of an update: the seed moves on by one.
    pub fn start_update(&mut self)
        ensures
            final(self).model() == start_model(old(self).model()),
            final(self).board == old(self).board,
    {
        self.rng_seed = self.rng_seed.wrapping_add(1);
    }

    /// Acts on one key event of an update. A press mixes the frame counter into the
    /// seed; then the Function key restarts a finished game, pauses a running one
    /// and resumes a paused one; other keys are refused while paused or finished,
    /// and otherwise act on the piece, a direction that falls or moves across
    /// becoming the held key. Releasing the held key stops its repeat. Returns
    /// true when Home was pressed outside a pause or a finished game: the game is
    /// to be left.
    pub fn handle_key_event(&mut self, code: KeyCode, key_state: KeyState, effects: &mut Vec<TetrisEffect>) -> (exit: bool)
        requires
            old(self).wf(),
            safe_model(old(self).model()),
        ensures
            exit == (key_state == KeyState::Pressed && code == KeyCode::Home
                && old(self).state != GameState::GameOver && old(self).state != GameState::Stop),
            final(self).wf(),
            key_state == KeyState::Pressed ==> final(self).model() == press_model(old(self).model(), code).0
                && final(effects)@ == old(effects)@ + press_model(old(self).model(), code).1,
            key_state == KeyState::Released ==> final(self).model() == release_model(old(self).model(), code)
                && final(effects)@ == old(effects)@,
    {
        match key_state {
            KeyState::Pressed => {
                let t = self.last_tick_ms;
                let low = #[verifier::truncate] (t as u32);
                assert(t as u32 == t % 0x1_0000_0000) by (bit_vector);
                let s0 = self.rng_seed;
                self.rng_seed = self.rng_seed.wrapping_mul(1103515245).wrapping_add(low);
                proof {
                    lemma_mul_add_wrapping(s0, low);
                }
                let ghost m0 = self.model();
                assert(m0 == (TetrisModel { rng_seed: mix_seed_press(old(self).rng_seed, old(self).last_tick_ms), ..old(self).model() }));
                match self.state {
                    GameState::GameOver => {
                        if code == KeyCode::Function {
                            self.reset_game();
                            self.set_state(GameState::Reset, effects);
                            self.state = GameState::Playing;
                            effects.push(TetrisEffect::SayRestart);
                        } else {
                            assert(effects@ =~= old(effects)@ + Seq::empty());
                        }
                        return false;
                    },
                    GameState::Playing => {
                        if code == KeyCode::Function {
                            self.set_state(GameState::Stop, effects);
                            return false;
                        }
                    },
                    GameState::Stop => {
                        if code == KeyCode::Function {
                            self.set_state(GameState::Playing, effects);
                        } else {
                            effects.push(TetrisEffect::SayPaused);
                            assert(effects@ =~= old(effects)@ + seq![TetrisEffect::SayPaused]);
                        }
                        return false;
                    },
                    _ => {},
                }
                let exit = self.process_move(code, effects);
                if code == KeyCode::Up || code == KeyCode::Down || code == KeyCode::Right {
                    self.active_key = Some(code);
                    self.key_hold_frames = 0;
                }
                exit
            },
            KeyState::Released => {
                if self.active_key == Some(code) {
                    self.active_key = None;
                }
                false
            },
        }
    }
}


impl Tetris {
    /// The per-frame part of an update while the game runs: a held direction repeats
    /// after `DAS_FRAMES` frames every `ARR_FRAMES` frames; a piece resting on the
    /// ground locks after `LOCK_DELAY` frames; and every `gravity_frames` frames the
    /// piece falls one cell when it can.
    pub fn advance_frame(&mut self, effects: &mut Vec<TetrisEffect>)
        requires
            old(self).wf(),
            safe_model(old(self).model()),
        ensures
            final(self).wf(),
            final(self).model() == frame_model(old(self).model()).0,
            final(effects)@ == old(effects)@ + frame_model(old(self).model()).1,
    {
        let ghost e0 = effects@;
        self.repeat_held_key(effects);
        let ghost e1 = effects@;
        self.apply_lock_delay(effects);
        self.apply_gravity();
        assert(effects@ =~= e0 + frame_model(old(self).model()).1);
    }

    fn repeat_held_key(&mut self, effects: &mut Vec<TetrisEffect>)
        requires
            old(self).wf(),
            safe_model(old(self).model()),
        ensures
            final(self).wf(),
            final(self).model() == frame_model_step1(old(self).model()).0,
            final(effects)@ == old(effects)@ + frame_model_step1(old(self).model()).1,
            score_safe(final(self).model()),
            piece_within(final(self).model(), 0x3000_0000),
            final(self).lock_timer < 0xffff_0000,
            final(self).last_tick_ms < 0xffff_ffff_0000_0000,
    {
        if self.state == GameState::Playing && self.active_key.is_some() {
            let key = self.active_key.unwrap();
            self.key_hold_frames = self.key_hold_frames + 1;
            if self.key_hold_frames > DAS_FRAMES && (self.key_hold_frames - DAS_FRAMES) % ARR_FRAMES == 0 {
                self.process_move(key, effects);
            } else {
                assert(effects@ =~= old(effects)@ + Seq::empty());
            }
        } else {
            assert(effects@ =~= old(effects)@ + Seq::empty());
        }
    }

    fn apply_lock_delay(&mut self, effects: &mut Vec<TetrisEffect>)
        requires
            old(self).wf(),
            score_safe(old(self).model()),
            piece_within(old(self).model(), 0x3000_0000),
            old(self).lock_timer < 0xffff_0000,
        ensures
            final(self).wf(),
            final(self).model() == frame_model_step2(old(self).model()).0,
            final(effects)@ == old(effects)@ + frame_model_step2(old(self).model()).1,
            final(self).last_tick_ms == old(self).last_tick_ms,
            piece_within(final(self).model(), 0x3000_0000),
    {
        if self.state == GameState::Playing {
            let grounded = match self.current_piece {
                Some(piece) => {
                    let test = Tetromino { x: piece.x + 1, ..piece };
                    !self.is_valid_position(&test)
                },
                None => false,
            };
            if grounded {
                self.lock_timer = self.lock_timer + 1;
                if self.lock_timer >= LOCK_DELAY {
                    self.lock_current_piece(effects);
                } else {
                    assert(effects@ =~= old(effects)@ + Seq::empty());
                }
            } else {
                self.lock_timer = 0;
                assert(effects@ =~= old(effects)@ + Seq::empty());
            }
        } else {
            assert(effects@ =~= old(effects)@ + Seq::empty());
        }
    }

    fn apply_gravity(&mut self)
        requires
            old(self).wf(),
            old(self).last_tick_ms < 0xffff_ffff_0000_0000,
            piece_within(old(self).model(), 0x3000_0000),
        ensures
            final(self).wf(),
            final(self).model() == frame_model_step3(old(self).model()),
    {
        if self.state == GameState::Playing {
            self.last_tick_ms = self.last_tick_ms + 1;
            if self.last_tick_ms >= self.gravity_frames {
                self.last_tick_ms = 0;
                match self.current_piece {
                    Some(piece) => {
                        let test = Tetromino { x: piece.x + 1, ..piece };
                        if self.is_valid_position(&test) {
                            self.current_piece = Some(test);
                        }
                    },
                    None => {},
                }
            }
        }
    }
}


/// Board rows that fit a display `width` pins wide: two pins of border, the side
/// panel and a one-pin separator are taken off, and each cell is two pins.
pub open spec fn rows_for_width(width: int) -> int {
    let play = if width >= 2 { width - 2 } else { 0 };
    let ui = (UI_SIDE_WIDTH_CELLS * CELL_SIZE) as int + 1;
    (if play >= ui { play - ui } else { 0 }) / CELL_SIZE as int
}

/// Board columns that fit a display `height` pins tall.
pub open spec fn cols_for_height(height: int) -> int {
    (if height >= 2 { height - 2 } else { 0 }) / CELL_SIZE as int
}

/// Starting on a display: the board is resized (and the game reset) when the display
/// fits a board of another size, then the game is announced as started.
pub open spec fn start_game_model(m: TetrisModel, width: int, height: int) -> (TetrisModel, Seq<TetrisEffect>) {
    let lw = rows_for_width(width);
    let lh = cols_for_height(height);
    let m1 = if lw > 0 && lh > 0 && (m.logical_height != lw || m.logical_width != lh) {
        reset_model(TetrisModel { logical_height: lw as usize, logical_width: lh as usize, ..m })
    } else {
        m
    };
    set_state_model(m1, GameState::Playing)
}

impl Tetris {
    /// Starts the game on a display of `width` by `height` pins (pin coordinates are
    /// 16-bit, so both are at most 20000 here).
    pub fn start_game(&mut self, width: usize, height: usize, effects: &mut Vec<TetrisEffect>)
        requires
            old(self).wf(),
            width <= 20000,
            height <= 20000,
        ensures
            final(self).wf(),
            final(self).model() == start_game_model(old(self).model(), width as int, height as int).0,
            final(effects)@ == old(effects)@ + start_game_model(old(self).model(), width as int, height as int).1,
    {
        let play_width = width.saturating_sub(2);
        let play_height = height.saturating_sub(2);
        let ui_pixel_w = UI_SIDE_WIDTH_CELLS * CELL_SIZE;
        let separator_w: usize = 1;
        let board_pixel_w = play_width.saturating_sub(ui_pixel_w + separator_w);
        let new_lw = board_pixel_w / CELL_SIZE;
        let new_lh = play_height / CELL_SIZE;
        assert(new_lw == rows_for_width(width as int));
        assert(new_lh == cols_for_height(height as int));
        if new_lw > 0 && new_lh > 0 && (self.logical_height != new_lw || self.logical_width != new_lh) {
            self.logical_height = new_lw;
            self.logical_width = new_lh;
            self.reset_game();
        }
        self.set_state(GameState::Playing, effects);
    }

    /// Whether the game is well formed and within the bounds under which an update
    /// step cannot overflow.
    pub fn is_consistent(&self) -> (r: bool)
        ensures
            r == (self.wf() && safe_model(self.model())),
    {
        if self.board.len() != self.logical_height || self.logical_height < 1 || self.logical_height > MAX_BOARD_DIM
            || self.logical_width < 1 || self.logical_width > MAX_BOARD_DIM {
            return false;
        }
        let mut x: usize = 0;
        while x < self.board.len()
            invariant
                x <= self.board.len(),
                forall|k: int| 0 <= k < x ==> #[trigger] self.board@[k].len() == self.logical_width,
            decreases self.board.len() - x,
        {
            if self.board[x].len() != self.logical_width {
                return false;
            }
            x += 1;
        }
        let piece_ok = match self.current_piece {
            Some(p) => -0x2000_0000 <= p.x && p.x <= 0x2000_0000 && -0x2000_0000 <= p.y && p.y <= 0x2000_0000,
            None => true,
        };
        let key_ok = match self.active_key {
            Some(k) => k == KeyCode::Up || k == KeyCode::Down || k == KeyCode::Right,
            None => true,
        };
        piece_ok && key_ok && self.score <= 0x4000_0000_0000_0000 && self.total_lines <= 0x100_0000_0000
            && self.level <= 0x100_0000_0000 && self.key_hold_frames < 0xffff_0000
            && self.last_tick_ms < 0xffff_ffff_0000_0000 && self.lock_timer < 0xffff_0000
    }
}


/// The open rows keep the full rows out.
pub proof fn lemma_open_rows_not_full(rows: Seq<Seq<Option<BlockType>>>)
    ensures
        forall|x: int| 0 <= x < open_rows(rows).len() ==> !row_full(#[trigger] open_rows(rows)[x]),
    decreases rows.len(),
{
    if rows.len() > 0 {
        lemma_open_rows_not_full(rows.drop_last());
        let r = rows.drop_last();
        if !row_full(rows.last()) {
            assert forall|x: int| 0 <= x < open_rows(rows).len() implies !row_full(#[trigger] open_rows(rows)[x]) by {
                if x < open_rows(r).len() {
                    assert(open_rows(rows)[x] == open_rows(r)[x]);
                }
            }
        }
    }
}

/// Clearing keeps the board's height and leaves no full row (on a board at
/// least one cell wide).
pub proof fn law_clear_leaves_no_full_row(rows: Seq<Seq<Option<BlockType>>>, width: int)
    requires
        width >= 1,
        forall|x: int| 0 <= x < rows.len() ==> #[trigger] rows[x].len() == width,
    ensures
        cleared_grid(rows, width).len() == rows.len(),
        forall|x: int| 0 <= x < rows.len() ==> !row_full(#[trigger] cleared_grid(rows, width)[x]),
{
    lemma_open_rows_width(rows, width);
    lemma_open_rows_not_full(rows);
    let kept = open_rows(rows);
    let n = rows.len() - kept.len();
    assert forall|x: int| 0 <= x < rows.len() implies !row_full(#[trigger] cleared_grid(rows, width)[x]) by {
        if x < n {
            assert(cleared_grid(rows, width)[x] == empty_row(width));
            assert(empty_row(width)[0] is None);
        } else {
            assert(cleared_grid(rows, width)[x] == kept[x - n]);
        }
    }
}

/// Pausing then resuming returns to play: the Function key pauses a running
/// game (dropping the held key) and the next Function press resumes it, with the
/// board, the piece and the score untouched.
pub proof fn law_pause_then_resume(m: TetrisModel)
    requires
        m.state == GameState::Playing,
    ensures
        ({
            let (m1, e1) = press_model(m, KeyCode::Function);
            let (m2, e2) = press_model(m1, KeyCode::Function);
            &&& m1.state == GameState::Stop
            &&& m1.active_key is None
            &&& e1 == seq![TetrisEffect::Announce(GameState::Stop)]
            &&& m2.state == GameState::Playing
            &&& e2 == seq![TetrisEffect::Announce(GameState::Playing)]
            &&& m2.grid == m.grid
            &&& m2.current_piece == m.current_piece
            &&& m2.score == m.score
        }),
{
}

} // verus!
