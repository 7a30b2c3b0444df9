//! The drawing game's tools, stages, menu actions and what it says.
use vstd::prelude::*;
use crate::input::{KeyCode, KeyState, Language};
use tinyvec::TinyVec;
use crate::speech::string_views;

verus! {

broadcast use vstd::string::group_string_axioms;

/// The tools of the drawing board.
#[derive(Clone, Copy, Debug, PartialEq, Eq, Structural)]
pub enum EditorMode {
    Draw,
    Erase,
    BrushSizeChange,
}

pub open spec fn editor_text(m: EditorMode, lang: Language) -> Seq<char> {
    match m {
        EditorMode::Draw => match lang {
            Language::Ko => "그리기 도구"@,
            Language::En => "Draw Tool"@,
            Language::Ja => "描画ツール"@,
        },
        EditorMode::Erase => match lang {
            Language::Ko => "지우기 도구"@,
            Language::En => "Erase Tool"@,
            Language::Ja => "消去ツール"@,
        },
        EditorMode::BrushSizeChange => match lang {
            Language::Ko => "브러시 크기 변경."@,
            Language::En => "Change brush size"@,
            Language::Ja => "ブラシサイズの変更"@,
        },
    }
}

impl EditorMode {
    /// The spoken name of the tool.
    pub fn text(&self, lang: Language) -> (r: &'static str)
        ensures
            r@ == editor_text(*self, lang),
    {
        match self {
            EditorMode::Draw => match lang {
                Language::Ko => "그리기 도구",
                Language::En => "Draw Tool",
                Language::Ja => "描画ツール",
            },
            EditorMode::Erase => match lang {
                Language::Ko => "지우기 도구",
                Language::En => "Erase Tool",
                Language::Ja => "消去ツール",
            },
            EditorMode::BrushSizeChange => match lang {
                Language::Ko => "브러시 크기 변경.",
                Language::En => "Change brush size",
                Language::Ja => "ブラシサイズの変更",
            },
        }
    }
}

/// The stages of the game.
#[derive(Clone, Copy, Debug, PartialEq, Eq, Structural)]
pub enum GameStatus {
    Playing,
    Menu,
}

pub open spec fn status_text(s: GameStatus, lang: Language) -> Seq<char> {
    match s {
        GameStatus::Playing => ""@,
        GameStatus::Menu => match lang {
            Language::Ko => "도구선택"@,
            Language::En => "Tool Selection"@,
            Language::Ja => "ツール選択"@,
        },
    }
}

impl GameStatus {
    /// What is said when the stage begins (nothing for play).
    pub fn description(&self, lang: Language) -> (r: &'static str)
        ensures
            r@ == status_text(*self, lang),
    {
        match self {
            GameStatus::Playing => match lang {
                Language::Ko => "",
                Language::En => "",
                Language::Ja => "",
            },
            GameStatus::Menu => match lang {
                Language::Ko => "도구선택",
                Language::En => "Tool Selection",
                Language::Ja => "ツール選択",
            },
        }
    }
}

/// What a key in the tool menu did.
#[derive(Clone, Copy, Debug, PartialEq, Eq, Structural)]
pub enum MenuAction {
    /// Nothing to do.
    Idle,
    Redraw,
    SelectMode(EditorMode),
    Close,
}

/// What the game says.
#[derive(Clone, Copy, Debug, PartialEq, Eq, Structural)]
pub enum SpeakEvent {
    GameStatusChange(GameStatus),
    ToolChange(EditorMode),
    BrushSizeChangeGuide,
    /// The brush got larger (`true`) or smaller.
    BrushSizeChanged(bool),
    BrushSizeConfirmed,
}

pub open spec fn brush_guide(lang: Language) -> Seq<Seq<char>> {
    match lang {
        Language::Ko => seq![
            "브러시 크기 변경 모드입니다. "@,
            "위아래 방향키로 크기를 조절하고, "@,
            "중앙 키를 눌러 적용하거나, "@,
            "메뉴 키를 눌러 취소할 수 있습니다."@,
        ],
        Language::En => seq![
            "This is the brush size change mode. "@,
            "Adjust the size using the up and down arrow keys, "@,
            "press the center key to apply, or "@,
            "press the menu key to cancel."@,
        ],
        Language::Ja => seq![
            "ブラシサイズ変更モードです。 "@,
            "上下方向キーでサイズを調節し、 "@,
            "中央キーを押して適用するか、 "@,
            "メニューキーを押してキャンセルできます。"@,
        ],
    }
}

/// The text of an event; the guide's parts are joined.
pub open spec fn event_text(e: SpeakEvent, lang: Language) -> Seq<char> {
    match e {
        SpeakEvent::GameStatusChange(s) => status_text(s, lang),
        SpeakEvent::ToolChange(m) => editor_text(m, lang),
        SpeakEvent::BrushSizeChangeGuide => {
            let g = brush_guide(lang);
            g[0] + g[1] + g[2] + g[3]
        },
        SpeakEvent::BrushSizeChanged(larger) => if larger {
            match lang {
                Language::Ko => "크게"@,
                Language::En => "Larger"@,
                Language::Ja => "大きく"@,
            }
        } else {
            match lang {
                Language::Ko => "작게"@,
                Language::En => "Smaller"@,
                Language::Ja => "小さく"@,
            }
        },
        SpeakEvent::BrushSizeConfirmed => match lang {
            Language::Ko => "브러시 크기가 변경되었습니다."@,
            Language::En => "Brush size has been changed."@,
            Language::Ja => "ブラシサイズが変更されました。"@,
        },
    }
}

/// The parts an event is said in: the guide in its four parts, any other event
/// as its text.
pub open spec fn event_segments(e: SpeakEvent, lang: Language) -> Seq<Seq<char>> {
    match e {
        SpeakEvent::BrushSizeChangeGuide => brush_guide(lang),
        _ => seq![event_text(e, lang)],
    }
}

fn guide_parts(lang: Language) -> (r: Vec<String>)
    ensures
        string_views(r@) == brush_guide(lang),
{
    let (a, b, c, d): (&str, &str, &str, &str) = match lang {
        Language::Ko => ("브러시 크기 변경 모드입니다. ", "위아래 방향키로 크기를 조절하고, ", "중앙 키를 눌러 적용하거나, ", "메뉴 키를 눌러 취소할 수 있습니다."),
        Language::En => ("This is the brush size change mode. ", "Adjust the size using the up and down arrow keys, ", "press the center key to apply, or ", "press the menu key to cancel."),
        Language::Ja => ("ブラシサイズ変更モードです。 ", "上下方向キーでサイズを調節し、 ", "中央キーを押して適用するか、 ", "メニューキーを押してキャンセルできます。"),
    };
    let mut v: Vec<String> = Vec::new();
    v.push(a.to_string());
    v.push(b.to_string());
    v.push(c.to_string());
    v.push(d.to_string());
    assert(string_views(v@) =~= brush_guide(lang));
    v
}

impl SpeakEvent {
    /// The text of the event.
    pub fn text(&self, lang: Language) -> (r: String)
        ensures
            r@ == event_text(*self, lang),
    {
        match self {
            SpeakEvent::GameStatusChange(s) => s.description(lang).to_string(),
            SpeakEvent::ToolChange(m) => m.text(lang).to_string(),
            SpeakEvent::BrushSizeChangeGuide => {
                let parts = guide_parts(lang);
                assert(parts@.len() == string_views(parts@).len());
                assert(brush_guide(lang).len() == 4);
                let mut out = String::new();
                crate::text::push_str(&mut out, parts[0].as_str());
                crate::text::push_str(&mut out, parts[1].as_str());
                crate::text::push_str(&mut out, parts[2].as_str());
                crate::text::push_str(&mut out, parts[3].as_str());
                assert(string_views(parts@)[0] == parts@[0]@);
                assert(string_views(parts@)[1] == parts@[1]@);
                assert(string_views(parts@)[2] == parts@[2]@);
                assert(string_views(parts@)[3] == parts@[3]@);
                out
            },
            SpeakEvent::BrushSizeChanged(larger) => {
                let t: &str = if *larger {
                    match lang {
                        Language::Ko => "크게",
                        Language::En => "Larger",
                        Language::Ja => "大きく",
                    }
                } else {
                    match lang {
                        Language::Ko => "작게",
                        Language::En => "Smaller",
                        Language::Ja => "小さく",
                    }
                };
                t.to_string()
            },
            SpeakEvent::BrushSizeConfirmed => {
                let t: &str = match lang {
                    Language::Ko => "브러시 크기가 변경되었습니다.",
                    Language::En => "Brush size has been changed.",
                    Language::Ja => "ブラシサイズが変更されました。",
                };
                t.to_string()
            },
        }
    }

    /// The parts the event is said in.
    pub fn segments(&self, lang: Language) -> (r: Vec<String>)
        ensures
            string_views(r@) == event_segments(*self, lang),
    {
        match self {
            SpeakEvent::BrushSizeChangeGuide => guide_parts(lang),
            _ => {
                let mut v: Vec<String> = Vec::new();
                v.push(self.text(lang));
                assert(string_views(v@) =~= seq![event_text(*self, lang)]);
                v
            },
        }
    }
}


/// A key held down, in the order keys went down.
#[derive(Clone, Copy, Debug, Default, PartialEq, Eq, Structural)]
pub struct PressedKey {
    pub key: Option<KeyCode>,
}

/// The most keys the buffer holds without spilling to the heap.
pub const KEY_BUFFER_CAPACITY: usize = 4;

/// The held keys, oldest first, in a small vector that spills to the heap.
#[verifier::external_body]
pub struct KeyBuffer {
    keys: TinyVec<[PressedKey; KEY_BUFFER_CAPACITY]>,
}

/// The keys a key buffer holds, oldest first.
pub uninterp spec fn buffer_keys(b: KeyBuffer) -> Seq<Option<KeyCode>>;

/// An empty key buffer.
/// Trusted: `TinyVec::new` makes an empty vector.
#[verifier::external_body]
fn kb_new() -> (r: KeyBuffer)
    ensures
        buffer_keys(r).len() == 0,
{
    KeyBuffer { keys: TinyVec::new() }
}

/// The number of held keys.
/// Trusted: `TinyVec::len` is the number of elements.
#[verifier::external_body]
fn kb_len(b: &KeyBuffer) -> (r: usize)
    ensures
        r == buffer_keys(*b).len(),
{
    b.keys.len()
}

/// The key at a position.
/// Trusted: indexing a `TinyVec` gives the element at that position.
#[verifier::external_body]
fn kb_get(b: &KeyBuffer, i: usize) -> (r: Option<KeyCode>)
    requires
        i < buffer_keys(*b).len(),
    ensures
        r == buffer_keys(*b)[i as int],
{
    b.keys[i].key
}

/// Adds a key at the end.
/// Trusted: `TinyVec::push` appends the element, moving to the heap when full.
#[verifier::external_body]
fn kb_push(b: &mut KeyBuffer, key: Option<KeyCode>)
    ensures
        buffer_keys(*final(b)) == buffer_keys(*old(b)).push(key),
{
    b.keys.push(PressedKey { key });
}

/// Drops the key at a position.
/// Trusted: `TinyVec::remove` takes out the element at the index, shifting the
/// rest down.
#[verifier::external_body]
fn kb_remove(b: &mut KeyBuffer, i: usize)
    requires
        i < buffer_keys(*old(b)).len(),
    ensures
        buffer_keys(*final(b)) == buffer_keys(*old(b)).remove(i as int),
{
    b.keys.remove(i);
}

/// Empties the buffer.
/// Trusted: `TinyVec::clear` removes every element.
#[verifier::external_body]
fn kb_clear(b: &mut KeyBuffer)
    ensures
        buffer_keys(*final(b)).len() == 0,
{
    b.keys.clear();
}

/// Whether a held key is not `key`.
fn keeps(k: &PressedKey, key: KeyCode) -> (r: bool)
    ensures
        r == (k.key != Some(key)),
{
    k.key != Some(key)
}

/// Whether a held key is not `key`, on plain values.
pub open spec fn other_key(key: KeyCode) -> spec_fn(Option<KeyCode>) -> bool {
    |k: Option<KeyCode>| k != Some(key)
}

/// Drops every copy of a key.
/// Trusted: `TinyVec::retain` keeps, in order, the elements the predicate
/// accepts.
#[verifier::external_body]
fn kb_retain_other(b: &mut KeyBuffer, key: KeyCode)
    ensures
        buffer_keys(*final(b)) == buffer_keys(*old(b)).filter(other_key(key)),
{
    b.keys.retain(|k| keeps(k, key));
}

/// Whether a key is a direction.
pub open spec fn is_direction(k: Option<KeyCode>) -> bool {
    k == Some(KeyCode::Up) || k == Some(KeyCode::Down) || k == Some(KeyCode::Left) || k == Some(KeyCode::Right)
}

fn is_direction_exec(k: Option<KeyCode>) -> (r: bool)
    ensures
        r == is_direction(k),
{
    k == Some(KeyCode::Up) || k == Some(KeyCode::Down) || k == Some(KeyCode::Left) || k == Some(KeyCode::Right)
}

/// The number of direction keys among the first `n` held.
pub open spec fn directions_upto(keys: Seq<Option<KeyCode>>, n: int) -> int
    decreases n,
{
    if n <= 0 { 0 } else { directions_upto(keys, n - 1) + if is_direction(keys[n - 1]) { 1int } else { 0 } }
}

/// The first held direction key from position `k` on.
pub open spec fn first_direction(keys: Seq<Option<KeyCode>>, k: int) -> Option<int>
    decreases keys.len() - k,
{
    if k < 0 || k >= keys.len() {
        None
    } else if is_direction(keys[k]) {
        Some(k)
    } else {
        first_direction(keys, k + 1)
    }
}

/// The held keys after a key event (outside the brush-size mode): a function key
/// or a pressed direction goes to the end (once); a released key is dropped; when
/// more than `max_dir_history` directions are held the oldest one is dropped.
pub open spec fn buffer_after(keys: Seq<Option<KeyCode>>, key: KeyCode, state: KeyState, max_dir_history: usize) -> Seq<Option<KeyCode>> {
    let func = key == KeyCode::Center || key == KeyCode::Function || key == KeyCode::Menu;
    let dir = is_direction(Some(key));
    if state == KeyState::Pressed && (func || dir) {
        let k1 = keys.filter(other_key(key)).push(Some(key));
        if dir && directions_upto(k1, k1.len() as int) > max_dir_history {
            match first_direction(k1, 0) {
                Some(i) => k1.remove(i),
                None => k1,
            }
        } else {
            k1
        }
    } else if state == KeyState::Released && (func || dir) {
        keys.filter(other_key(key))
    } else {
        keys
    }
}

pub proof fn lemma_first_direction(keys: Seq<Option<KeyCode>>, k: int)
    ensures
        first_direction(keys, k) matches Some(i) ==> k <= i < keys.len(),
    decreases keys.len() - k,
{
    if 0 <= k < keys.len() && !is_direction(keys[k]) {
        lemma_first_direction(keys, k + 1);
    }
}

/// Updates the held keys for a key event outside the brush-size mode (see
/// `buffer_after`).
pub fn update_key_buffer(buf: &mut KeyBuffer, key: KeyCode, state: KeyState, max_dir_history: usize)
    ensures
        buffer_keys(*final(buf)) == buffer_after(buffer_keys(*old(buf)), key, state, max_dir_history),
{
    let func = key == KeyCode::Center || key == KeyCode::Function || key == KeyCode::Menu;
    let dir = is_direction_exec(Some(key));
    if !(func || dir) {
        return;
    }
    kb_retain_other(buf, key);
    if state == KeyState::Pressed {
        kb_push(buf, Some(key));
        if dir {
            let n = kb_len(buf);
            let mut count: usize = 0;
            let mut i: usize = 0;
            while i < n
                invariant
                    i <= n,
                    n == buffer_keys(*buf).len(),
                    count == directions_upto(buffer_keys(*buf), i as int),
                    count <= i,
                decreases n - i,
            {
                if is_direction_exec(kb_get(buf, i)) {
                    count += 1;
                }
                i += 1;
            }
            if count > max_dir_history {
                let mut j: usize = 0;
                while j < n && !is_direction_exec(kb_get(buf, j))
                    invariant
                        j <= n,
                        n == buffer_keys(*buf).len(),
                        first_direction(buffer_keys(*buf), 0) == first_direction(buffer_keys(*buf), j as int),
                    decreases n - j,
                {
                    j += 1;
                }
                if j < n {
                    kb_remove(buf, j);
                }
            }
        }
    }
}

/// Which function and direction keys are held, from the buffer.
#[derive(Clone, Copy, Debug, PartialEq, Eq, Structural)]
pub struct HeldKeys {
    pub up: bool,
    pub down: bool,
    pub left: bool,
    pub right: bool,
    pub center: bool,
    pub function: bool,
    pub menu: bool,
}

/// Whether the buffer holds a key.
pub open spec fn holds(keys: Seq<Option<KeyCode>>, k: KeyCode) -> bool {
    keys.contains(Some(k))
}

/// Reads which keys are held.
pub fn update_input_state(buf: &KeyBuffer) -> (r: HeldKeys)
    ensures
        r.up == holds(buffer_keys(*buf), KeyCode::Up),
        r.down == holds(buffer_keys(*buf), KeyCode::Down),
        r.left == holds(buffer_keys(*buf), KeyCode::Left),
        r.right == holds(buffer_keys(*buf), KeyCode::Right),
        r.center == holds(buffer_keys(*buf), KeyCode::Center),
        r.function == holds(buffer_keys(*buf), KeyCode::Function),
        r.menu == holds(buffer_keys(*buf), KeyCode::Menu),
{
    let ghost keys = buffer_keys(*buf);
    let n = kb_len(buf);
    let mut h = HeldKeys { up: false, down: false, left: false, right: false, center: false, function: false, menu: false };
    let mut i: usize = 0;
    while i < n
        invariant
            i <= n,
            n == keys.len(),
            keys == buffer_keys(*buf),
            h.up == keys.take(i as int).contains(Some(KeyCode::Up)),
            h.down == keys.take(i as int).contains(Some(KeyCode::Down)),
            h.left == keys.take(i as int).contains(Some(KeyCode::Left)),
            h.right == keys.take(i as int).contains(Some(KeyCode::Right)),
            h.center == keys.take(i as int).contains(Some(KeyCode::Center)),
            h.function == keys.take(i as int).contains(Some(KeyCode::Function)),
            h.menu == keys.take(i as int).contains(Some(KeyCode::Menu)),
        decreases n - i,
    {
        let k = kb_get(buf, i);
        let ghost pre = keys.take(i as int);
        assert(keys.take(i + 1) =~= pre.push(k));
        assert forall|x: Option<KeyCode>| #[trigger] pre.push(k).contains(x) <==> pre.contains(x) || x == k by {
            if pre.push(k).contains(x) {
                let j = choose|j: int| 0 <= j < pre.push(k).len() && pre.push(k)[j] == x;
                if j < pre.len() {
                    assert(pre[j] == x);
                }
            }
            if pre.contains(x) {
                let j = choose|j: int| 0 <= j < pre.len() && pre[j] == x;
                assert(pre.push(k)[j] == x);
            }
            if x == k {
                assert(pre.push(k)[pre.len() as int] == x);
            }
        }
        match k {
            Some(KeyCode::Up) => h.up = true,
            Some(KeyCode::Down) => h.down = true,
            Some(KeyCode::Left) => h.left = true,
            Some(KeyCode::Right) => h.right = true,
            Some(KeyCode::Center) => h.center = true,
            Some(KeyCode::Function) => h.function = true,
            Some(KeyCode::Menu) => h.menu = true,
            _ => {},
        }
        i += 1;
    }
    assert(keys.take(n as int) =~= keys);
    h
}

/// A new, empty key buffer.
pub fn new_key_buffer() -> (r: KeyBuffer)
    ensures
        buffer_keys(r).len() == 0,
{
    kb_new()
}

/// Empties the key buffer (on entering the tool menu).
pub fn clear_key_buffer(buf: &mut KeyBuffer)
    ensures
        buffer_keys(*final(buf)).len() == 0,
{
    kb_clear(buf);
}


/// What the drawing board asks of its host.
#[derive(Clone, Copy, Debug, PartialEq, Eq, Structural)]
pub enum DrawAction {
    Say(SpeakEvent),
    /// Say, even when it repeats what was just said.
    SayForced(SpeakEvent),
    /// Say in the event's parts, one after another.
    SayParts(SpeakEvent),
    /// Open the tool menu at the current tool and say "tool selection" with its
    /// name; stop the cursor and forget the held keys.
    EnterMenu,
    /// Switch the cursor to sliding motion.
    SwitchToInertia,
    /// Keep a copy of the canvas and draw or erase at the cursor.
    Plot,
    /// The brush size changed: rebuild its mask.
    RebuildBrush,
}

/// The drawing board's tool and key state.
#[derive(Clone, Copy, Debug, PartialEq, Eq, Structural)]
pub struct DrawingState {
    pub mode: EditorMode,
    pub prev_mode: EditorMode,
    pub brush_size: i16,
    pub prev_brush_size: i16,
    pub state: GameStatus,
    pub need_redraw: bool,
    pub cursor_visible: bool,
    pub cursor_blink_ms: u64,
    /// Whether Center, Function and Menu were held in the previous frame.
    pub prev_center: bool,
    pub prev_function: bool,
    pub prev_menu: bool,
}

/// Blinking period of the cursor.
pub const CURSOR_BLINK_INTERVAL_MS: u64 = 300;

/// A stage change, said when it is one.
pub open spec fn set_state_spec(s: DrawingState, new_state: GameStatus) -> (DrawingState, Seq<DrawAction>) {
    if s.state != new_state {
        (DrawingState { state: new_state, ..s }, seq![DrawAction::Say(SpeakEvent::GameStatusChange(new_state))])
    } else {
        (s, Seq::empty())
    }
}

/// A tool change: the guide is said for the brush size, the tool's name
/// otherwise.
pub open spec fn set_mode_spec(s: DrawingState, m: EditorMode) -> (DrawingState, Seq<DrawAction>) {
    (
        DrawingState { mode: m, need_redraw: true, ..s },
        if m == EditorMode::BrushSizeChange {
            seq![DrawAction::SayParts(SpeakEvent::BrushSizeChangeGuide)]
        } else {
            seq![DrawAction::Say(SpeakEvent::ToolChange(m))]
        },
    )
}

/// One frame of the function keys (`held` now; the previous frame's keys are in
/// the state). A fresh Menu opens the tool menu (remembering the brush and tool
/// outside the brush mode). Center held with Left, or Right held, makes the
/// motion slide. In the brush mode a fresh Center confirms the size and a fresh
/// Menu restores the earlier size and tool. Otherwise a fresh Function switches
/// between drawing and erasing, and a fresh Center in drawing, or any frame in
/// erasing, marks the canvas.
pub open spec fn input_spec(s: DrawingState, held: HeldKeys) -> (DrawingState, Seq<DrawAction>) {
    let jc = held.center && !s.prev_center;
    let jf = held.function && !s.prev_function;
    let jm = held.menu && !s.prev_menu;
    let (s1, a1) = menu_phase(s, jm);
    let a2 = if (held.center && held.left) || held.right { a1.push(DrawAction::SwitchToInertia) } else { a1 };
    let (s3, a3) = tool_phase(s1, jc, jf, jm);
    (DrawingState { prev_center: held.center, prev_function: held.function, prev_menu: held.menu, ..s3 }, a2 + a3)
}

/// A fresh Menu opens the tool menu, remembering the brush and the tool outside
/// the brush mode.
pub open spec fn menu_phase(s: DrawingState, jm: bool) -> (DrawingState, Seq<DrawAction>) {
    if jm {
        let s0 = if s.mode != EditorMode::BrushSizeChange {
            DrawingState { prev_brush_size: s.brush_size, prev_mode: s.mode, ..s }
        } else {
            s
        };
        let (s2, e) = set_state_spec(s0, GameStatus::Menu);
        (DrawingState { need_redraw: true, ..s2 }, e.push(DrawAction::EnterMenu))
    } else {
        (s, Seq::empty())
    }
}

/// The tool keys of a frame: the brush mode's confirmation or cancellation, or
/// the switch between drawing and erasing and the marking of the canvas.
pub open spec fn tool_phase(s1: DrawingState, jc: bool, jf: bool, jm: bool) -> (DrawingState, Seq<DrawAction>) {
    if s1.mode == EditorMode::BrushSizeChange {
        if jc {
            (DrawingState { mode: s1.prev_mode, need_redraw: true, ..s1 }, seq![DrawAction::Say(SpeakEvent::BrushSizeConfirmed)])
        } else if jm {
            let (s4, e) = set_mode_spec(DrawingState { brush_size: s1.prev_brush_size, ..s1 }, s1.prev_mode);
            (DrawingState { need_redraw: true, ..s4 }, seq![DrawAction::RebuildBrush] + e)
        } else {
            (s1, Seq::empty())
        }
    } else {
        let (s4, a4) = if jf {
            set_mode_spec(s1, if s1.mode == EditorMode::Draw { EditorMode::Erase } else { EditorMode::Draw })
        } else {
            (s1, Seq::empty())
        };
        if (jc && s4.mode == EditorMode::Draw) || s4.mode == EditorMode::Erase {
            (DrawingState { need_redraw: true, ..s4 }, a4.push(DrawAction::Plot))
        } else {
            (s4, a4)
        }
    }
}

impl DrawingState {
    /// Drawing, with the given brush, at the start.
    pub fn new(default_radius: i16) -> (r: Self)
        ensures
            r == (DrawingState {
                mode: EditorMode::Draw,
                prev_mode: EditorMode::Draw,
                brush_size: default_radius,
                prev_brush_size: 0,
                state: GameStatus::Playing,
                need_redraw: false,
                cursor_visible: true,
                cursor_blink_ms: 0,
                prev_center: false,
                prev_function: false,
                prev_menu: false,
            }),
    {
        DrawingState {
            mode: EditorMode::Draw,
            prev_mode: EditorMode::Draw,
            brush_size: default_radius,
            prev_brush_size: 0,
            state: GameStatus::Playing,
            need_redraw: false,
            cursor_visible: true,
            cursor_blink_ms: 0,
            prev_center: false,
            prev_function: false,
            prev_menu: false,
        }
    }

    /// Changes the stage (see `set_state_spec`).
    pub fn set_state(&mut self, new_state: GameStatus, actions: &mut Vec<DrawAction>)
        ensures
            *final(self) == set_state_spec(*old(self), new_state).0,
            final(actions)@ == old(actions)@ + set_state_spec(*old(self), new_state).1,
    {
        if self.state != new_state {
            self.state = new_state;
            actions.push(DrawAction::Say(SpeakEvent::GameStatusChange(new_state)));
        } else {
            assert(actions@ =~= old(actions)@ + Seq::empty());
        }
    }

    /// Changes the tool (see `set_mode_spec`).
    pub fn set_mode(&mut self, m: EditorMode, actions: &mut Vec<DrawAction>)
        ensures
            *final(self) == set_mode_spec(*old(self), m).0,
            final(actions)@ == old(actions)@ + set_mode_spec(*old(self), m).1,
    {
        self.mode = m;
        if m == EditorMode::BrushSizeChange {
            actions.push(DrawAction::SayParts(SpeakEvent::BrushSizeChangeGuide));
        } else {
            actions.push(DrawAction::Say(SpeakEvent::ToolChange(m)));
        }
        self.need_redraw = true;
        assert(actions@ =~= old(actions)@ + set_mode_spec(*old(self), m).1);
    }

    /// A direction key pressed in the brush mode: Up makes the brush one larger
    /// (up to `max_radius`), Down one smaller (down to `min_radius`); the change is
    /// always said.
    pub fn brush_key(&mut self, code: KeyCode, min_radius: i16, max_radius: i16, actions: &mut Vec<DrawAction>)
        requires
            i16::MIN < old(self).brush_size < i16::MAX,
        ensures
            code == KeyCode::Up ==> final(self).brush_size == (if old(self).brush_size + 1 < max_radius { old(self).brush_size + 1 } else { max_radius as int })
                && final(self).need_redraw
                && final(actions)@ == old(actions)@ + seq![DrawAction::RebuildBrush, DrawAction::SayForced(SpeakEvent::BrushSizeChanged(true))],
            code == KeyCode::Down ==> final(self).brush_size == (if old(self).brush_size - 1 > min_radius { old(self).brush_size - 1 } else { min_radius as int })
                && final(self).need_redraw
                && final(actions)@ == old(actions)@ + seq![DrawAction::RebuildBrush, DrawAction::SayForced(SpeakEvent::BrushSizeChanged(false))],
            code != KeyCode::Up && code != KeyCode::Down ==> *final(self) == *old(self) && final(actions)@ == old(actions)@,
            final(self).mode == old(self).mode,
    {
        match code {
            KeyCode::Up => {
                let b = self.brush_size + 1;
                self.brush_size = if b < max_radius { b } else { max_radius };
                actions.push(DrawAction::RebuildBrush);
                self.need_redraw = true;
                actions.push(DrawAction::SayForced(SpeakEvent::BrushSizeChanged(true)));
                assert(actions@ =~= old(actions)@ + seq![DrawAction::RebuildBrush, DrawAction::SayForced(SpeakEvent::BrushSizeChanged(true))]);
            },
            KeyCode::Down => {
                let b = self.brush_size - 1;
                self.brush_size = if b > min_radius { b } else { min_radius };
                actions.push(DrawAction::RebuildBrush);
                self.need_redraw = true;
                actions.push(DrawAction::SayForced(SpeakEvent::BrushSizeChanged(false)));
                assert(actions@ =~= old(actions)@ + seq![DrawAction::RebuildBrush, DrawAction::SayForced(SpeakEvent::BrushSizeChanged(false))]);
            },
            _ => {},
        }
    }

    /// One frame of the function keys (see `input_spec`).
    #[verifier::rlimit(40)]
    pub fn process_input_logic(&mut self, held: HeldKeys, actions: &mut Vec<DrawAction>)
        ensures
            *final(self) == input_spec(*old(self), held).0,
            final(actions)@ == old(actions)@ + input_spec(*old(self), held).1,
    {
        let jc = held.center && !self.prev_center;
        let jf = held.function && !self.prev_function;
        let jm = held.menu && !self.prev_menu;
        self.menu_keys(jm, actions);
        if (held.center && held.left) || held.right {
            actions.push(DrawAction::SwitchToInertia);
        }
        let ghost a2 = actions@;
        let ghost s1 = *self;
        self.tool_keys(jc, jf, jm, actions);
        let ghost suffix = tool_phase(s1, jc, jf, jm).1;
        assert(actions@ == a2 + suffix);
        self.prev_center = held.center;
        self.prev_function = held.function;
        self.prev_menu = held.menu;
        assert(actions@ =~= old(actions)@ + input_spec(*old(self), held).1);
    }

    fn menu_keys(&mut self, jm: bool, actions: &mut Vec<DrawAction>)
        ensures
            *final(self) == menu_phase(*old(self), jm).0,
            final(actions)@ == old(actions)@ + menu_phase(*old(self), jm).1,
    {
        if jm {
            if self.mode != EditorMode::BrushSizeChange {
                self.prev_brush_size = self.brush_size;
                self.prev_mode = self.mode;
            }
            self.set_state(GameStatus::Menu, actions);
            actions.push(DrawAction::EnterMenu);
            self.need_redraw = true;
            assert(actions@ =~= old(actions)@ + menu_phase(*old(self), jm).1);
        } else {
            assert(actions@ =~= old(actions)@ + Seq::empty());
        }
    }

    fn tool_keys(&mut self, jc: bool, jf: bool, jm: bool, actions: &mut Vec<DrawAction>)
        ensures
            *final(self) == tool_phase(*old(self), jc, jf, jm).0,
            final(actions)@ == old(actions)@ + tool_phase(*old(self), jc, jf, jm).1,
    {
        if self.mode == EditorMode::BrushSizeChange {
            if jc {
                self.mode = self.prev_mode;
                actions.push(DrawAction::Say(SpeakEvent::BrushSizeConfirmed));
                self.need_redraw = true;
                assert(actions@ =~= old(actions)@ + seq![DrawAction::Say(SpeakEvent::BrushSizeConfirmed)]);
            } else if jm {
                self.brush_size = self.prev_brush_size;
                actions.push(DrawAction::RebuildBrush);
                let m = self.prev_mode;
                self.set_mode(m, actions);
                self.need_redraw = true;
                assert(actions@ =~= old(actions)@ + tool_phase(*old(self), jc, jf, jm).1);
            } else {
                assert(actions@ =~= old(actions)@ + Seq::empty());
            }
        } else {
            let ghost a0 = actions@;
            if jf {
                let next = if self.mode == EditorMode::Draw { EditorMode::Erase } else { EditorMode::Draw };
                self.set_mode(next, actions);
            } else {
                assert(actions@ =~= old(actions)@ + Seq::empty());
            }
            let ghost mid = actions@;
            if (jc && self.mode == EditorMode::Draw) || self.mode == EditorMode::Erase {
                actions.push(DrawAction::Plot);
                self.need_redraw = true;
            }
            assert(actions@ =~= old(actions)@ + tool_phase(*old(self), jc, jf, jm).1);
        }
    }

    /// Advances the cursor's blinking by a frame of `frame_ms`: while a direction
    /// is held it stays shown; otherwise it toggles every 300 ms.
    pub fn update_cursor_blink(&mut self, moving: bool, frame_ms: u64)
        requires
            old(self).cursor_blink_ms < CURSOR_BLINK_INTERVAL_MS,
            frame_ms <= u64::MAX - CURSOR_BLINK_INTERVAL_MS,
        ensures
            moving ==> *final(self) == (DrawingState {
                cursor_visible: true,
                need_redraw: old(self).need_redraw || !old(self).cursor_visible,
                cursor_blink_ms: 0,
                ..*old(self)
            }),
            !moving ==> ({
                let t = old(self).cursor_blink_ms + frame_ms;
                if t >= CURSOR_BLINK_INTERVAL_MS {
                    *final(self) == (DrawingState {
                        cursor_blink_ms: (t - CURSOR_BLINK_INTERVAL_MS) as u64,
                        cursor_visible: !old(self).cursor_visible,
                        need_redraw: true,
                        ..*old(self)
                    })
                } else {
                    *final(self) == (DrawingState { cursor_blink_ms: t as u64, ..*old(self) })
                }
            }),
    {
        if moving {
            if !self.cursor_visible {
                self.cursor_visible = true;
                self.need_redraw = true;
            }
            self.cursor_blink_ms = 0;
        } else {
            self.cursor_blink_ms = self.cursor_blink_ms + frame_ms;
            if self.cursor_blink_ms >= CURSOR_BLINK_INTERVAL_MS {
                self.cursor_blink_ms = self.cursor_blink_ms - CURSOR_BLINK_INTERVAL_MS;
                self.cursor_visible = !self.cursor_visible;
                self.need_redraw = true;
            }
        }
    }
}

/// The points of a disc of radius `r` among the first `n` points of the square
/// `-r..=r` by `-r..=r`, row by row.
pub open spec fn disc(r: int, n: int) -> Seq<(int, int)>
    decreases n,
{
    if n <= 0 {
        Seq::empty()
    } else {
        let w = 2 * r + 1;
        let x = (n - 1) % w - r;
        let y = (n - 1) / w - r;
        disc(r, n - 1) + if x * x + y * y <= r * r { seq![(x, y)] } else { Seq::empty() }
    }
}

pub open spec fn point_views(v: Seq<(i16, i16)>) -> Seq<(int, int)> {
    v.map_values(|p: (i16, i16)| (p.0 as int, p.1 as int))
}

/// The brush's mask: the offsets within its radius, row by row.
pub fn brush_mask(radius: i16) -> (r: Vec<(i16, i16)>)
    requires
        0 <= radius <= 100,
    ensures
        point_views(r@) == disc(radius as int, (2 * radius + 1) * (2 * radius + 1)),
{
    let mut mask: Vec<(i16, i16)> = Vec::new();
    assert(0 <= (radius as i32) * (radius as i32) <= 10000) by (nonlinear_arith)
        requires
            0 <= radius <= 100,
    ;
    let r2 = (radius as i32) * (radius as i32);
    let w = 2 * (radius as i32) + 1;
    let mut y: i16 = -radius;
    while y <= radius
        invariant
            0 <= radius <= 100,
            -radius <= y <= radius + 1,
            r2 == radius * radius,
            w == 2 * radius + 1,
            point_views(mask@) == disc(radius as int, (y + radius) * w),
        decreases radius + 1 - y,
    {
        let mut x: i16 = -radius;
        while x <= radius
            invariant
                0 <= radius <= 100,
                -radius <= y <= radius,
                -radius <= x <= radius + 1,
                r2 == radius * radius,
                w == 2 * radius + 1,
                point_views(mask@) == disc(radius as int, (y + radius) * w + (x + radius)),
            decreases radius + 1 - x,
        {
            let xi = x as i32;
            let yi = y as i32;
            assert(0 <= xi * xi <= 10000 && 0 <= yi * yi <= 10000) by (nonlinear_arith)
                requires
                    -100 <= xi <= 100,
                    -100 <= yi <= 100,
            ;
            let ghost n: int = (y + radius) * (w as int) + (x + radius);
            proof {
                assert((n % (w as int)) == x + radius && n / (w as int) == y + radius) by {
                    vstd::arithmetic::div_mod::lemma_fundamental_div_mod_converse(n, w as int, (y + radius) as int, (x + radius) as int);
                }
            }
            let ghost before = point_views(mask@);
            if xi * xi + yi * yi <= r2 {
                mask.push((x, y));
                assert(point_views(mask@) =~= before.push((x as int, y as int)));
            }
            assert(point_views(mask@) =~= disc(radius as int, n + 1));
            x += 1;
        }
        assert((y + radius) * w + (radius + 1 + radius) == (y + 1 + radius) * w) by (nonlinear_arith)
            requires
                w == 2 * radius + 1,
        ;
        y += 1;
    }
    assert((radius + 1 + radius) * w == (2 * radius + 1) * (2 * radius + 1));
    mask
}

/// The picture being drawn: `width` by `height` pin strengths, row by row.
#[derive(Clone, Debug)]
pub struct PixelCanvas {
    pub width: usize,
    pub height: usize,
    pub pixels: Vec<u8>,
}

impl PixelCanvas {
    /// The canvas holds one strength per pin.
    pub open spec fn wf(&self) -> bool {
        self.pixels@.len() == self.width * self.height
    }

    /// A blank canvas.
    pub fn new(width: usize, height: usize) -> (r: Self)
        requires
            width * height <= usize::MAX,
        ensures
            r.wf(),
            r.width == width,
            r.height == height,
            r.pixels@ == Seq::new((width * height) as nat, |i: int| 0u8),
    {
        let n: usize = width * height;
        let mut pixels: Vec<u8> = Vec::new();
        while pixels.len() < n
            invariant
                pixels@.len() <= n,
                forall|i: int| 0 <= i < pixels@.len() ==> #[trigger] pixels@[i] == 0u8,
            decreases n - pixels@.len(),
        {
            pixels.push(0);
        }
        assert(pixels@ =~= Seq::new((width * height) as nat, |i: int| 0u8));
        PixelCanvas { width, height, pixels }
    }
}

/// The strength a tool puts down: full for drawing, none for erasing; the brush
/// size tool puts down nothing.
pub open spec fn tool_strength(m: EditorMode) -> Option<u8> {
    match m {
        EditorMode::Draw => Some(255u8),
        EditorMode::Erase => Some(0u8),
        EditorMode::BrushSizeChange => None,
    }
}

/// Whether one of the first `k` offsets of the brush, put at column `cx` and row
/// `cy`, covers pin `i` of a `width` by `height` canvas.
pub open spec fn brush_covers(mask: Seq<(i16, i16)>, k: int, cx: i16, cy: i16, width: int, height: int, i: int) -> bool {
    exists|j: int| #![trigger mask[j]] 0 <= j < k && {
        let px = cx + mask[j].0;
        let py = cy + mask[j].1;
        0 <= px < width && 0 <= py < height && py * width + px == i
    }
}

/// The pins after the brush, with the first `k` offsets of its mask, was put
/// down at column `cx` and row `cy` with strength `v`: the covered pins take `v`,
/// the others keep theirs.
pub open spec fn stamped(pixels: Seq<u8>, mask: Seq<(i16, i16)>, k: int, cx: i16, cy: i16, width: int, height: int, v: u8) -> Seq<u8> {
    Seq::new(pixels.len(), |i: int| if brush_covers(mask, k, cx, cy, width, height, i) { v } else { pixels[i] })
}

/// Puts the brush down at column `cx` and row `cy` with the current tool: each
/// offset of the mask that lands on the canvas sets that pin to the tool's
/// strength. The brush size tool leaves the canvas as it is.
pub fn plot_pixel(canvas: &mut PixelCanvas, mode: EditorMode, mask: &Vec<(i16, i16)>, cx: i16, cy: i16)
    requires
        old(canvas).wf(),
        old(canvas).width <= 30000,
        old(canvas).height <= 30000,
    ensures
        final(canvas).wf(),
        final(canvas).width == old(canvas).width,
        final(canvas).height == old(canvas).height,
        final(canvas).pixels@ == match tool_strength(mode) {
            Some(v) => stamped(old(canvas).pixels@, mask@, mask@.len() as int, cx, cy, old(canvas).width as int, old(canvas).height as int, v),
            None => old(canvas).pixels@,
        },
{
    let v: u8 = match mode {
        EditorMode::Draw => 255,
        EditorMode::Erase => 0,
        EditorMode::BrushSizeChange => return,
    };
    let w: i32 = canvas.width as i32;
    let h: i32 = canvas.height as i32;
    let ghost start = canvas.pixels@;
    let ghost wi = canvas.width as int;
    let ghost hi = canvas.height as int;
    let mut k: usize = 0;
    assert(canvas.pixels@ =~= stamped(start, mask@, 0, cx, cy, wi, hi, v));
    while k < mask.len()
        invariant
            k <= mask@.len(),
            canvas.width as int == wi,
            canvas.height as int == hi,
            w as int == wi,
            h as int == hi,
            0 <= wi <= 30000,
            0 <= hi <= 30000,
            canvas.wf(),
            start.len() == wi * hi,
            canvas.pixels@ == stamped(start, mask@, k as int, cx, cy, wi, hi, v),
        decreases mask@.len() - k,
    {
        let (dx, dy) = mask[k];
        let px: i32 = cx as i32 + dx as i32;
        let py: i32 = cy as i32 + dy as i32;
        let ghost before = canvas.pixels@;
        if px >= 0 && py >= 0 && px < w && py < h {
            assert(0 <= py * wi + px < wi * hi) by (nonlinear_arith)
                requires 0 <= px < wi, 0 <= py < hi;
            assert(py * wi <= 30000 * 30000) by (nonlinear_arith)
                requires 0 <= py < hi, hi <= 30000, 0 <= wi <= 30000;
            let idx: usize = py as usize * canvas.width + px as usize;
            canvas.pixels.set(idx, v);
            assert forall|i: int| 0 <= i < start.len() implies
                #[trigger] canvas.pixels@[i] == stamped(start, mask@, k + 1, cx, cy, wi, hi, v)[i] by {
                if i == idx as int {
                    assert(brush_covers(mask@, k + 1, cx, cy, wi, hi, i)) by {
                        assert(mask@[k as int] == mask@[k as int]);
                    }
                } else {
                    if brush_covers(mask@, k + 1, cx, cy, wi, hi, i) {
                        let j = choose|j: int| #![trigger mask@[j]] 0 <= j < k + 1 && {
                            let qx = cx + mask@[j].0;
                            let qy = cy + mask@[j].1;
                            0 <= qx < wi && 0 <= qy < hi && qy * wi + qx == i
                        };
                        assert(j != k);
                        assert(brush_covers(mask@, k as int, cx, cy, wi, hi, i));
                    } else {
                        assert(!brush_covers(mask@, k as int, cx, cy, wi, hi, i)) by {
                            if brush_covers(mask@, k as int, cx, cy, wi, hi, i) {
                                let j = choose|j: int| #![trigger mask@[j]] 0 <= j < k && {
                                    let qx = cx + mask@[j].0;
                                    let qy = cy + mask@[j].1;
                                    0 <= qx < wi && 0 <= qy < hi && qy * wi + qx == i
                                };
                                assert(0 <= j < k + 1);
                            }
                        }
                    }
                }
            }
        } else {
            assert forall|i: int| 0 <= i < start.len() implies
                #[trigger] canvas.pixels@[i] == stamped(start, mask@, k + 1, cx, cy, wi, hi, v)[i] by {
                if brush_covers(mask@, k + 1, cx, cy, wi, hi, i) {
                    let j = choose|j: int| #![trigger mask@[j]] 0 <= j < k + 1 && {
                        let qx = cx + mask@[j].0;
                        let qy = cy + mask@[j].1;
                        0 <= qx < wi && 0 <= qy < hi && qy * wi + qx == i
                    };
                    assert(j != k);
                    assert(brush_covers(mask@, k as int, cx, cy, wi, hi, i));
                } else {
                    if brush_covers(mask@, k as int, cx, cy, wi, hi, i) {
                        let j = choose|j: int| #![trigger mask@[j]] 0 <= j < k && {
                            let qx = cx + mask@[j].0;
                            let qy = cy + mask@[j].1;
                            0 <= qx < wi && 0 <= qy < hi && qy * wi + qx == i
                        };
                        assert(0 <= j < k + 1);
                    }
                }
            }
        }
        assert(canvas.pixels@ =~= stamped(start, mask@, k as int + 1, cx, cy, wi, hi, v));
        k += 1;
    }
}

/// Height of the tool menu's panel at the bottom of the display: a box and a
/// margin and outline above and below it.
pub const MENU_HEIGHT: i16 = 9;
/// Width of a tool box, and the space between two.
pub const MENU_ITEM_WIDTH: i16 = 5;
pub const MENU_ITEM_SPACING: i16 = 2;

/// The tools of the menu, in order.
pub open spec fn menu_tools() -> Seq<EditorMode> {
    seq![EditorMode::Draw, EditorMode::Erase, EditorMode::BrushSizeChange]
}

/// The tools of the menu, in order.
pub fn menu_items() -> (r: Vec<EditorMode>)
    ensures
        r@ == menu_tools(),
{
    let r = vec![EditorMode::Draw, EditorMode::Erase, EditorMode::BrushSizeChange];
    assert(r@ =~= menu_tools());
    r
}

/// The menu as it opens on a display `width` pins wide with `current` the tool
/// in use: the width of the strip the boxes scroll on (the boxes and four pins
/// of margin, or the display's width if wider) and the position of the current
/// tool.
pub fn open_menu(width: i16, current: EditorMode) -> (r: (i16, usize))
    ensures
        r.0 == (if width > 3 * (MENU_ITEM_WIDTH + MENU_ITEM_SPACING) + 4 { width as int } else { 3 * (MENU_ITEM_WIDTH + MENU_ITEM_SPACING) + 4 }),
        r.1 < 3,
        menu_tools()[r.1 as int] == current,
{
    let total: i16 = 3 * (MENU_ITEM_WIDTH + MENU_ITEM_SPACING) + 4;
    let w = if width > total { width } else { total };
    let i: usize = match current {
        EditorMode::Draw => 0,
        EditorMode::Erase => 1,
        EditorMode::BrushSizeChange => 2,
    };
    (w, i)
}

/// A key pressed in the tool menu with the tool at `selected` highlighted:
/// Center takes that tool, Menu closes the menu; moving between the tools is
/// the item bar's.
pub fn menu_key(selected: usize, code: KeyCode) -> (r: MenuAction)
    requires
        selected < 3,
    ensures
        code == KeyCode::Center ==> r == MenuAction::SelectMode(menu_tools()[selected as int]),
        code == KeyCode::Menu ==> r == MenuAction::Close,
        code != KeyCode::Center && code != KeyCode::Menu ==> r == MenuAction::Idle,
{
    let items = menu_items();
    match code {
        KeyCode::Center => MenuAction::SelectMode(items[selected]),
        KeyCode::Menu => MenuAction::Close,
        _ => MenuAction::Idle,
    }
}

pub open spec fn close_tools_text(lang: Language) -> Seq<char> {
    match lang {
        Language::Ko => "도구 닫기"@,
        Language::En => "Close tools"@,
        Language::Ja => "ツールを閉じる"@,
    }
}

/// What is said when the tool menu closes.
pub fn close_tools(lang: Language) -> (r: &'static str)
    ensures
        r@ == close_tools_text(lang),
{
    match lang {
        Language::Ko => "도구 닫기",
        Language::En => "Close tools",
        Language::Ja => "ツールを閉じる",
    }
}

/// Whether the pin in column `i` and row `j` of the menu panel (starting at row
/// `start_y` of a display `width` wide) is on its outline.
pub open spec fn on_panel_outline(width: int, start_y: int, i: int, j: int) -> bool {
    j == start_y || j == start_y + MENU_HEIGHT - 1 || i == 0 || i == width - 1
}

/// The pins of the menu panel along the bottom of a `width` by `height` display,
/// row by row: each with its column, its row and whether it is on the outline
/// (raised) or inside (cleared).
pub fn menu_panel_pins(width: i16, height: i16) -> (r: Vec<(i16, i16, bool)>)
    requires
        0 <= width <= 1000,
        0 <= height <= 1000,
    ensures
        r@.len() == MENU_HEIGHT * width,
        forall|j: int, i: int| 0 <= j < MENU_HEIGHT && 0 <= i < width ==> {
            let start_y = height - MENU_HEIGHT;
            #[trigger] r@[j * width + i] == ((i as i16), ((start_y + j) as i16), on_panel_outline(width as int, start_y, i, start_y + j))
        },
{
    let start_y: i16 = height - MENU_HEIGHT;
    let mut v: Vec<(i16, i16, bool)> = Vec::new();
    let mut j: i16 = start_y;
    while j < start_y + MENU_HEIGHT
        invariant
            0 <= width <= 1000,
            0 <= height <= 1000,
            start_y == height - MENU_HEIGHT,
            start_y <= j <= start_y + MENU_HEIGHT,
            v@.len() == (j - start_y) * width,
            forall|jj: int, i: int| 0 <= jj < j - start_y && 0 <= i < width ==>
                #[trigger] v@[jj * width + i] == ((i as i16), ((start_y + jj) as i16), on_panel_outline(width as int, start_y as int, i, start_y + jj)),
        decreases start_y + MENU_HEIGHT - j,
    {
        let mut i: i16 = 0;
        let ghost row = (j - start_y) as int;
        while i < width
            invariant
                0 <= width <= 1000,
                0 <= height <= 1000,
                start_y == height - MENU_HEIGHT,
                start_y <= j < start_y + MENU_HEIGHT,
                row == j - start_y,
                0 <= i <= width,
                v@.len() == row * width + i,
                forall|jj: int, ii: int| 0 <= jj < row && 0 <= ii < width ==>
                    #[trigger] v@[jj * width + ii] == ((ii as i16), ((start_y + jj) as i16), on_panel_outline(width as int, start_y as int, ii, start_y + jj)),
                forall|ii: int| 0 <= ii < i ==>
                    #[trigger] v@[row * width + ii] == ((ii as i16), (j as i16), on_panel_outline(width as int, start_y as int, ii, j as int)),
            decreases width - i,
        {
            let border = j == start_y || j == start_y + MENU_HEIGHT - 1 || i == 0 || i == width - 1;
            let ghost before = v@;
            v.push((i, j, border));
            assert forall|jj: int, ii: int| 0 <= jj < row && 0 <= ii < width implies
                #[trigger] v@[jj * width + ii] == ((ii as i16), ((start_y + jj) as i16), on_panel_outline(width as int, start_y as int, ii, start_y + jj)) by {
                assert(jj * width + ii < row * width) by (nonlinear_arith)
                    requires 0 <= jj < row, 0 <= ii < width;
                assert(v@[jj * width + ii] == before[jj * width + ii]);
            }
            i += 1;
        }
        assert forall|jj: int, ii: int| 0 <= jj < row + 1 && 0 <= ii < width implies
            #[trigger] v@[jj * width + ii] == ((ii as i16), ((start_y + jj) as i16), on_panel_outline(width as int, start_y as int, ii, start_y + jj)) by {
            if jj == row {
                assert(v@[row * width + ii] == ((ii as i16), (j as i16), on_panel_outline(width as int, start_y as int, ii, j as int)));
            }
        }
        assert(v@.len() == (row + 1) * width) by (nonlinear_arith)
            requires v@.len() == row * width + width;
        j += 1;
    }
    v
}

} // verus!
