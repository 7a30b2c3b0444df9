//! The dot drawing board's settings, its function keys and what it says.
use vstd::prelude::*;
use crate::input::Language;
use crate::drawing_game::{editor_text, EditorMode, HeldKeys};

verus! {

broadcast use vstd::string::group_string_axioms;

/// How the canvas is framed.
#[derive(Clone, Copy, Debug, PartialEq, Eq, Structural)]
pub struct ViewConfig {
    /// Width of the canvas border, in pins.
    pub canvas_border_width: i16,
}

impl Default for ViewConfig {
    fn default() -> (r: Self)
        ensures
            r.canvas_border_width == 3,
    {
        ViewConfig { canvas_border_width: 3 }
    }
}

/// The timing of the board.
#[derive(Clone, Copy, Debug, PartialEq, Eq, Structural)]
pub struct SystemConfig {
    /// Frames per second.
    pub target_fps: u64,
    /// The most time, in milliseconds, that one update catches up.
    pub max_accumulator_ms: u64,
    /// How many direction keys are remembered at once.
    pub max_dir_key_history: usize,
}

impl Default for SystemConfig {
    fn default() -> (r: Self)
        ensures
            r == (SystemConfig { target_fps: 60, max_accumulator_ms: 200, max_dir_key_history: 2 }),
    {
        SystemConfig { target_fps: 60, max_accumulator_ms: 200, max_dir_key_history: 2 }
    }
}

/// What the board says.
#[derive(Clone, Copy, Debug, PartialEq, Eq, Structural)]
pub enum SpeakEvent {
    ToolChange(EditorMode),
}

impl SpeakEvent {
    /// The text of the event.
    pub fn text(&self, lang: Language) -> (r: &'static str)
        ensures
            r@ == match *self {
                SpeakEvent::ToolChange(m) => editor_text(m, lang),
            },
    {
        match self {
            SpeakEvent::ToolChange(m) => m.text(lang),
        }
    }
}

/// The number of frames' time to catch up on: the time since the last frame is
/// added and capped at `max_accumulator_ms`.
pub fn accumulate(acc_ms: u64, frame_ms: u64, max_accumulator_ms: u64) -> (r: u64)
    requires
        acc_ms <= u64::MAX - frame_ms,
    ensures
        r == if acc_ms + frame_ms > max_accumulator_ms { max_accumulator_ms as int } else { acc_ms + frame_ms },
{
    let a = acc_ms + frame_ms;
    if a > max_accumulator_ms { max_accumulator_ms } else { a }
}

/// What a frame of the function keys asks of the board.
#[derive(Clone, Copy, Debug, PartialEq, Eq, Structural)]
pub enum DotAction {
    /// Keep a copy of the canvas and draw or erase the dot under the cursor.
    Plot,
    /// Switch to this tool.
    SetTool(EditorMode),
}

/// Which function keys were held in the previous frame.
#[derive(Clone, Copy, Debug, PartialEq, Eq, Structural)]
pub struct DotKeys {
    pub prev_center: bool,
    pub prev_function: bool,
}

/// Drawing and erasing swap; another tool goes to drawing.
pub open spec fn toggled_tool(m: EditorMode) -> EditorMode {
    if m == EditorMode::Draw { EditorMode::Erase } else { EditorMode::Draw }
}

/// One frame with `held` keys and tool `mode`: a fresh Center marks the dot
/// under the cursor (with the drawing or erasing tool), then a fresh Function
/// switches between drawing and erasing.
pub open spec fn dot_frame(k: DotKeys, mode: EditorMode, held: HeldKeys) -> Seq<DotAction> {
    let jc = held.center && !k.prev_center;
    let jf = held.function && !k.prev_function;
    let a = if jc && (mode == EditorMode::Draw || mode == EditorMode::Erase) { seq![DotAction::Plot] } else { Seq::empty() };
    if jf { a.push(DotAction::SetTool(toggled_tool(mode))) } else { a }
}

impl DotKeys {
    /// No key held yet.
    pub fn new() -> (r: Self)
        ensures
            r == (DotKeys { prev_center: false, prev_function: false }),
    {
        DotKeys { prev_center: false, prev_function: false }
    }

    /// One frame of the function keys (see `dot_frame`); the held keys are kept
    /// for the next frame.
    pub fn process_input_logic(&mut self, mode: EditorMode, held: HeldKeys) -> (r: Vec<DotAction>)
        ensures
            r@ == dot_frame(*old(self), mode, held),
            *final(self) == (DotKeys { prev_center: held.center, prev_function: held.function }),
    {
        let mut r: Vec<DotAction> = Vec::new();
        if held.center && !self.prev_center && (mode == EditorMode::Draw || mode == EditorMode::Erase) {
            r.push(DotAction::Plot);
        }
        if held.function && !self.prev_function {
            let next = if mode == EditorMode::Draw { EditorMode::Erase } else { EditorMode::Draw };
            r.push(DotAction::SetTool(next));
        }
        assert(r@ =~= dot_frame(*old(self), mode, held));
        self.prev_center = held.center;
        self.prev_function = held.function;
        r
    }
}

/// The Function key only swaps drawing and erasing: switching twice brings back
/// the tool in use.
pub proof fn law_function_swaps_tools(m: EditorMode)
    requires
        m == EditorMode::Draw || m == EditorMode::Erase,
    ensures
        toggled_tool(toggled_tool(m)) == m,
        toggled_tool(m) != m,
{
}

} // verus!
