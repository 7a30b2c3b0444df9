//! Cross Memory: dots appear around a central cross, one after another, and the
//! player repeats the order on the direction keys.
//!
//! Times are milliseconds of a monotonic clock, handed in by the caller.
use vstd::prelude::*;
use crate::input::{KeyCode, Language};
use crate::text::{decimal, decimal_string};

verus! {

broadcast use vstd::string::group_string_axioms;

/// How long a dot of the sequence is shown at the start.
pub const BASE_SHOW_ON_MS: u32 = 500;
/// Pause between two dots of the sequence.
pub const SHOW_OFF_MS: u32 = 250;
/// How much faster the dots are shown after each round in speed mode.
pub const SHOW_SPEED_REDUCE_MS: u32 = 50;
/// The shortest time a dot is shown.
pub const MIN_SHOW_ON_MS: u32 = 100;
/// Length of the sequence in speed mode.
pub const SPEED_MODE_SEQ_LEN: usize = 5;
/// Time the player has to repeat a sequence.
pub const INPUT_TIME_LIMIT_MS: u32 = 10_000;
/// How long the dot of a pressed key stays lit.
pub const INPUT_FLASH_MS: u32 = 200;
/// Pause before a sequence is shown.
pub const WAIT_DURATION_MS: u32 = 1_500;
/// Delay before spoken feedback on an answer.
pub const FEEDBACK_TTS_DELAY_MS: u32 = 600;
/// Pause between steps of the tutorial.
pub const TUTORIAL_STEP_DELAY_MS: u32 = 1_500;

/// The ways to play.
#[derive(Clone, Copy, Debug, PartialEq, Eq, Structural)]
pub enum GameMode {
    Tutorial,
    Length,
    Speed,
}

impl GameMode {
    /// The mode after this one in the menu, wrapping around.
    pub fn next(&self) -> (r: Self)
        ensures
            r == next_mode(*self),
    {
        match self {
            GameMode::Tutorial => GameMode::Length,
            GameMode::Length => GameMode::Speed,
            GameMode::Speed => GameMode::Tutorial,
        }
    }

    /// The mode before this one in the menu, wrapping around.
    pub fn prev(&self) -> (r: Self)
        ensures
            r == prev_mode(*self),
    {
        match self {
            GameMode::Tutorial => GameMode::Speed,
            GameMode::Length => GameMode::Tutorial,
            GameMode::Speed => GameMode::Length,
        }
    }

    /// The spoken name of the mode.
    pub fn name(&self) -> (r: &'static str)
        ensures
            r@ == mode_name(*self),
    {
        match self {
            GameMode::Tutorial => "튜토리얼 모드",
            GameMode::Length => "길이 증가 모드",
            GameMode::Speed => "속도 증가 모드",
        }
    }
}

pub open spec fn mode_name(m: GameMode) -> Seq<char> {
    match m {
        GameMode::Tutorial => "튜토리얼 모드"@,
        GameMode::Length => "길이 증가 모드"@,
        GameMode::Speed => "속도 증가 모드"@,
    }
}

pub open spec fn next_mode(m: GameMode) -> GameMode {
    match m {
        GameMode::Tutorial => GameMode::Length,
        GameMode::Length => GameMode::Speed,
        GameMode::Speed => GameMode::Tutorial,
    }
}

pub open spec fn prev_mode(m: GameMode) -> GameMode {
    match m {
        GameMode::Tutorial => GameMode::Speed,
        GameMode::Length => GameMode::Tutorial,
        GameMode::Speed => GameMode::Length,
    }
}

/// Stepping forward then back through the modes, or back then forward, returns to
/// the start; three steps forward go round the whole menu.
pub proof fn law_mode_cycle(m: GameMode)
    ensures
        prev_mode(next_mode(m)) == m,
        next_mode(prev_mode(m)) == m,
        next_mode(next_mode(next_mode(m))) == m,
{
}

/// A square of the cross.
#[derive(Clone, Copy, Debug, PartialEq, Eq, Structural)]
pub enum Direction {
    Up,
    Down,
    Left,
    Right,
    Center,
}

/// A sound asset of the game.
#[derive(Clone, Copy, Debug, PartialEq, Eq, Structural)]
pub enum SoundAsset {
    Up,
    Down,
    Left,
    Right,
    Center,
}

impl Direction {
    /// The sound played when this square lights up.
    pub fn sound_bytes(&self) -> (r: SoundAsset)
        ensures
            r == direction_sound(*self),
    {
        match self {
            Direction::Up => SoundAsset::Up,
            Direction::Down => SoundAsset::Down,
            Direction::Left => SoundAsset::Left,
            Direction::Right => SoundAsset::Right,
            Direction::Center => SoundAsset::Center,
        }
    }

    /// The spoken name of the square.
    pub fn name(&self) -> (r: &'static str)
        ensures
            r@ == direction_name(*self),
    {
        match self {
            Direction::Up => "위쪽",
            Direction::Down => "아래쪽",
            Direction::Left => "왼쪽",
            Direction::Right => "오른쪽",
            Direction::Center => "가운데",
        }
    }
}

pub open spec fn direction_sound(d: Direction) -> SoundAsset {
    match d {
        Direction::Up => SoundAsset::Up,
        Direction::Down => SoundAsset::Down,
        Direction::Left => SoundAsset::Left,
        Direction::Right => SoundAsset::Right,
        Direction::Center => SoundAsset::Center,
    }
}

pub open spec fn direction_name(d: Direction) -> Seq<char> {
    match d {
        Direction::Up => "위쪽"@,
        Direction::Down => "아래쪽"@,
        Direction::Left => "왼쪽"@,
        Direction::Right => "오른쪽"@,
        Direction::Center => "가운데"@,
    }
}

/// The five squares in their fixed order.
pub open spec fn all_directions() -> Seq<Direction> {
    seq![Direction::Up, Direction::Down, Direction::Left, Direction::Right, Direction::Center]
}

/// The square at index `i` (`0..5`) of the fixed order.
pub fn direction_at(i: usize) -> (r: Direction)
    requires
        i < 5,
    ensures
        r == all_directions()[i as int],
{
    if i == 0 {
        Direction::Up
    } else if i == 1 {
        Direction::Down
    } else if i == 2 {
        Direction::Left
    } else if i == 3 {
        Direction::Right
    } else {
        Direction::Center
    }
}

pub open spec fn key_direction(code: KeyCode) -> Option<Direction> {
    match code {
        KeyCode::Up => Some(Direction::Up),
        KeyCode::Down => Some(Direction::Down),
        KeyCode::Left => Some(Direction::Left),
        KeyCode::Right => Some(Direction::Right),
        KeyCode::Center => Some(Direction::Center),
        _ => None,
    }
}

/// The square a key stands for; keys off the cross stand for none.
pub fn keycode_to_direction(code: KeyCode) -> (r: Option<Direction>)
    ensures
        r == key_direction(code),
{
    match code {
        KeyCode::Up => Some(Direction::Up),
        KeyCode::Down => Some(Direction::Down),
        KeyCode::Left => Some(Direction::Left),
        KeyCode::Right => Some(Direction::Right),
        KeyCode::Center => Some(Direction::Center),
        _ => None,
    }
}

/// The steps of the tutorial.
#[derive(Clone, Copy, Debug, PartialEq, Eq, Structural)]
pub enum TutorialStep {
    Introduction,
    IdentifyCross,
    SinglePracticeInit(usize),
    SinglePracticeWait(usize),
    SequencePracticeInit,
    SequencePracticeShow(usize),
    SequencePracticeInput(usize),
    Complete,
}

/// The stages of the game.
#[derive(Clone, Copy, Debug, PartialEq, Eq, Structural)]
pub enum GameState {
    Ready,
    Locating,
    Showing,
    Waiting,
    Input,
    Tutorial(TutorialStep),
    End,
}

/// What one key press during input did.
#[derive(Clone, Copy, Debug, PartialEq, Eq, Structural)]
pub enum InputResult {
    Correct,
    Wrong,
    RoundComplete,
    Ignored,
}

/// What happens once the dot of the last pressed key goes out.
#[derive(Clone, Debug)]
pub enum PendingTransition {
    Idle,
    NextRound,
    GameOver(String),
}

/// A pending transition as plain values.
pub enum PendingModel {
    Idle,
    NextRound,
    GameOver(Seq<char>),
}

impl PendingTransition {
    pub open spec fn view(&self) -> PendingModel {
        match self {
            PendingTransition::Idle => PendingModel::Idle,
            PendingTransition::NextRound => PendingModel::NextRound,
            PendingTransition::GameOver(s) => PendingModel::GameOver(s@),
        }
    }
}

/// Xorshift generator of the game's sequences.
pub struct Rng {
    state: u64,
}

/// One xorshift step (shifts 13, 7, 17).
pub open spec fn xorshift(s: u64) -> u64 {
    let a = s ^ ((s << 13u64) as u64);
    let b = a ^ (a >> 7u64);
    b ^ ((b << 17u64) as u64)
}

impl Rng {
    /// The generator's state.
    pub closed spec fn view(&self) -> u64 {
        self.state
    }

    /// A generator seeded with `seed` (made odd, so the state is never zero).
    pub fn new(seed: u64) -> (r: Self)
        ensures
            r@ == (seed | 1u64),
    {
        Rng { state: seed | 1 }
    }

    /// Advances the state one xorshift step and returns bits 16 to 47 of it.
    pub fn next_u32(&mut self) -> (r: u32)
        ensures
            final(self)@ == xorshift(old(self)@),
            r == ((xorshift(old(self)@) >> 16u64) as u32),
    {
        self.state = self.state ^ (self.state << 13);
        self.state = self.state ^ (self.state >> 7);
        self.state = self.state ^ (self.state << 17);
        (self.state >> 16) as u32
    }
}


/// What the game says.
#[derive(Clone, Copy, Debug, PartialEq, Eq, Structural)]
pub enum CrossMessage {
    /// Greeting on start, with how to pick a mode.
    Welcome,
    ModeName(GameMode),
    TutorialIntro,
    TutorialFindCross,
    FindCross,
    GameStart,
    /// A square of the tutorial went out; press its key.
    DotGone(Direction),
    SequenceIntro,
    PressInOrder,
    WrongTryAgain,
    WrongShowAgain,
    TutorialDone,
    /// Wrong key; the score so far.
    WrongScore(u32),
    /// A round was repeated; the score so far.
    RoundSuccess(u32),
    /// Time ran out; the score so far.
    TimeOut(u32),
}

/// What the game asks its host to do.
#[derive(Clone, Copy, Debug, PartialEq, Eq, Structural)]
pub enum CrossEffect {
    Say(CrossMessage),
    Play(SoundAsset),
}

pub open spec fn lang_text(lang: Language, ko: Seq<char>, en: Seq<char>, ja: Seq<char>) -> Seq<char> {
    match lang {
        Language::Ko => ko,
        Language::En => en,
        Language::Ja => ja,
    }
}

/// The spoken parts of a message.
pub open spec fn message_segments(msg: CrossMessage, lang: Language) -> Seq<Seq<char>> {
    match msg {
        CrossMessage::Welcome => seq![lang_text(lang,
            "크로스 메모리. 상하 방향키로 모드를 선택하고 가운데 키를 누르세요."@,
            "Cross Memory. Select a mode using the up and down arrow keys, then press the center key."@,
            "クロスメモリー。上下の方向キーでモードを選択し、中央のキーを押してください。"@)],
        CrossMessage::ModeName(m) => seq![mode_name(m)],
        CrossMessage::TutorialIntro => seq![lang_text(lang,
            "크로스 메모리 튜토리얼입니다. 이 게임은 중앙을 기준으로 상하좌우에 있는 점의 위치를 기억하는 게임입니다."@,
            "This is the Cross Memory tutorial. It is a game where you remember the positions of dots located above, below, left, and right of the center."@,
            "クロスメモリーのチュートリアルです。このゲームは、中央を基準にして上下左右にある点の位置を記憶するゲームです。"@)],
        CrossMessage::TutorialFindCross => seq![lang_text(lang,
            "먼저 화면 중앙에 점멸되는 십자가를 찾아 손가락을 올린 뒤 가운데 키를 눌러 주세요"@,
            "First, find the blinking cross in the center of the screen, place your finger on it, and press the center key."@,
            "まず、画面中央で点滅している十字を探して指をのせ、中央のキーを押してください。"@)],
        CrossMessage::FindCross => seq![lang_text(lang,
            "화면 중앙에 점멸되는 십자가를 찾아 손가락을 올린 뒤, 가운데 키를 눌러 주세요"@,
            "Find the blinking cross in the center of the screen, place your finger on it, and press the center key."@,
            "画面中央で点滅している十字を探して指をのせ、中央のキーを押してください。"@)],
        CrossMessage::GameStart => seq![lang_text(lang, "게임 시작"@, "Game Start"@, "ゲーム開始"@)],
        CrossMessage::DotGone(d) => seq![direction_name(d), " 점이 사라졌습니다. "@, direction_name(d), " 키를 눌러보세요."@],
        CrossMessage::SequenceIntro => seq![lang_text(lang,
            "이제 두 개의 점이 순서대로 사라집니다. 잘 듣고 기억해 보세요."@,
            "Now two dots will disappear in order. Listen carefully and remember."@,
            "これから2つの点が順番に消えます。よく聞いて覚えてみてください。"@)],
        CrossMessage::PressInOrder => seq![lang_text(lang,
            "방금 사라진 순서대로 키를 눌러보세요."@,
            "Press the keys in the order they just disappeared."@,
            "先ほど消えた順番通りにキーを押してみてください。"@)],
        CrossMessage::WrongTryAgain => seq!["틀렸습니다. 다시 눌러보세요."@],
        CrossMessage::WrongShowAgain => seq!["틀렸습니다. 다시 보여드릴게요."@],
        CrossMessage::TutorialDone => seq!["잘하셨습니다! 이제 모든 준비가 끝났습니다. 가운데 키를 누르면 메인 화면으로 돌아갑니다."@],
        CrossMessage::WrongScore(n) => seq!["틀렸습니다. "@, decimal(n as nat), "점"@],
        CrossMessage::RoundSuccess(n) => seq![decimal(n as nat), "단계 성공"@],
        CrossMessage::TimeOut(n) => seq!["시간 초과. "@, decimal(n as nat), "점"@],
    }
}

pub open spec fn string_views(v: Seq<String>) -> Seq<Seq<char>> {
    v.map_values(|s: String| s@)
}

fn pick(lang: Language, ko: &str, en: &str, ja: &str) -> (r: String)
    ensures
        r@ == lang_text(lang, ko@, en@, ja@),
{
    match lang {
        Language::Ko => ko.to_string(),
        Language::En => en.to_string(),
        Language::Ja => ja.to_string(),
    }
}

fn one(s: String) -> (r: Vec<String>)
    ensures
        string_views(r@) == seq![s@],
{
    let mut v: Vec<String> = Vec::new();
    v.push(s);
    assert(string_views(v@) =~= seq![s@]);
    v
}

fn parts(a: String, b: String, c: String) -> (r: Vec<String>)
    ensures
        string_views(r@) == seq![a@, b@, c@],
{
    let mut v: Vec<String> = Vec::new();
    v.push(a);
    v.push(b);
    v.push(c);
    assert(string_views(v@) =~= seq![a@, b@, c@]);
    v
}

impl CrossMessage {
    /// The spoken parts of the message in a language (messages that the game only
    /// has in Korean are Korean in every language).
    pub fn segments(&self, lang: Language) -> (r: Vec<String>)
        ensures
            string_views(r@) == message_segments(*self, lang),
    {
        match self {
            CrossMessage::Welcome => one(pick(lang,
                "크로스 메모리. 상하 방향키로 모드를 선택하고 가운데 키를 누르세요.",
                "Cross Memory. Select a mode using the up and down arrow keys, then press the center key.",
                "クロスメモリー。上下の方向キーでモードを選択し、中央のキーを押してください。")),
            CrossMessage::ModeName(m) => one(m.name().to_string()),
            CrossMessage::TutorialIntro => one(pick(lang,
                "크로스 메모리 튜토리얼입니다. 이 게임은 중앙을 기준으로 상하좌우에 있는 점의 위치를 기억하는 게임입니다.",
                "This is the Cross Memory tutorial. It is a game where you remember the positions of dots located above, below, left, and right of the center.",
                "クロスメモリーのチュートリアルです。このゲームは、中央を基準にして上下左右にある点の位置を記憶するゲームです。")),
            CrossMessage::TutorialFindCross => one(pick(lang,
                "먼저 화면 중앙에 점멸되는 십자가를 찾아 손가락을 올린 뒤 가운데 키를 눌러 주세요",
                "First, find the blinking cross in the center of the screen, place your finger on it, and press the center key.",
                "まず、画面中央で点滅している十字を探して指をのせ、中央のキーを押してください。")),
            CrossMessage::FindCross => one(pick(lang,
                "화면 중앙에 점멸되는 십자가를 찾아 손가락을 올린 뒤, 가운데 키를 눌러 주세요",
                "Find the blinking cross in the center of the screen, place your finger on it, and press the center key.",
                "画面中央で点滅している十字を探して指をのせ、中央のキーを押してください。")),
            CrossMessage::GameStart => one(pick(lang, "게임 시작", "Game Start", "ゲーム開始")),
            CrossMessage::DotGone(d) => {
                let mut v = parts(d.name().to_string(), " 점이 사라졌습니다. ".to_string(), d.name().to_string());
                let ghost before = string_views(v@);
                v.push(" 키를 눌러보세요.".to_string());
                assert(string_views(v@) =~= before.push(" 키를 눌러보세요."@));
                v
            },
            CrossMessage::SequenceIntro => one(pick(lang,
                "이제 두 개의 점이 순서대로 사라집니다. 잘 듣고 기억해 보세요.",
                "Now two dots will disappear in order. Listen carefully and remember.",
                "これから2つの点が順番に消えます。よく聞いて覚えてみてください。")),
            CrossMessage::PressInOrder => one(pick(lang,
                "방금 사라진 순서대로 키를 눌러보세요.",
                "Press the keys in the order they just disappeared.",
                "先ほど消えた順番通りにキーを押してみてください。")),
            CrossMessage::WrongTryAgain => one("틀렸습니다. 다시 눌러보세요.".to_string()),
            CrossMessage::WrongShowAgain => one("틀렸습니다. 다시 보여드릴게요.".to_string()),
            CrossMessage::TutorialDone => one("잘하셨습니다! 이제 모든 준비가 끝났습니다. 가운데 키를 누르면 메인 화면으로 돌아갑니다.".to_string()),
            CrossMessage::WrongScore(n) => parts("틀렸습니다. ".to_string(), decimal_string(*n as u64), "점".to_string()),
            CrossMessage::RoundSuccess(n) => {
                let mut v = one(decimal_string(*n as u64));
                let ghost before = string_views(v@);
                v.push("단계 성공".to_string());
                assert(string_views(v@) =~= before.push("단계 성공"@));
                v
            },
            CrossMessage::TimeOut(n) => parts("시간 초과. ".to_string(), decimal_string(*n as u64), "점".to_string()),
        }
    }
}


/// The game.
pub struct CrossMemory {
    pub state: GameState,
    pub need_draw: bool,
    pub mode: GameMode,
    pub sequence: Vec<Direction>,
    pub show_index: usize,
    pub input_index: usize,
    pub active_square: Option<Direction>,
    pub is_locating_visible: bool,
    pub score: u32,
    pub show_on_ms: u32,
    pub end_message: String,
    pub pending: PendingTransition,
    /// Spoken feedback waiting for its time (in ms).
    pub pending_feedback: Option<(CrossMessage, u64)>,
    pub show_step_start: u64,
    pub input_start: u64,
    pub flash_start: u64,
    pub wait_start: u64,
    pub rng: Rng,
}

/// The game as plain values.
pub struct CrossModel {
    pub state: GameState,
    pub need_draw: bool,
    pub mode: GameMode,
    pub sequence: Seq<Direction>,
    pub show_index: usize,
    pub input_index: usize,
    pub active_square: Option<Direction>,
    pub is_locating_visible: bool,
    pub score: u32,
    pub show_on_ms: u32,
    pub end_message: Seq<char>,
    pub pending: PendingModel,
    pub pending_feedback: Option<(CrossMessage, u64)>,
    pub show_step_start: u64,
    pub input_start: u64,
    pub flash_start: u64,
    pub wait_start: u64,
    pub rng: u64,
}

/// Milliseconds from `start` to `now`, kept to 32 bits.
pub open spec fn elapsed(now: u64, start: u64) -> u32 {
    ((now - start) % 0x1_0000_0000) as u32
}

/// A sequence of `len` squares drawn from the generator, and the generator's state after.
pub open spec fn gen_seq(rng: u64, len: nat) -> (Seq<Direction>, u64)
    decreases len,
{
    if len == 0 {
        (Seq::empty(), rng)
    } else {
        let (s, r) = gen_seq(rng, (len - 1) as nat);
        let r2 = xorshift(r);
        (s.push(all_directions()[(((r2 >> 16u64) as u32) as int) % 5]), r2)
    }
}

pub open spec fn with_sequence(m: CrossModel, len: nat) -> CrossModel {
    CrossModel { sequence: gen_seq(m.rng, len).0, rng: gen_seq(m.rng, len).1, ..m }
}

pub open spec fn begin_locating_m(m: CrossModel, now: u64) -> CrossModel {
    CrossModel {
        state: GameState::Locating,
        active_square: None,
        is_locating_visible: true,
        wait_start: now,
        need_draw: true,
        ..m
    }
}

/// The blinking cross: shown in the first half of every second.
pub open spec fn blink_m(m: CrossModel, now: u64) -> CrossModel {
    let vis = (elapsed(now, m.wait_start) / 500) % 2 == 0;
    if m.is_locating_visible != vis {
        CrossModel { is_locating_visible: vis, need_draw: true, ..m }
    } else {
        m
    }
}

pub open spec fn start_tutorial_m(m: CrossModel, now: u64) -> CrossModel {
    CrossModel {
        state: GameState::Tutorial(TutorialStep::Introduction),
        wait_start: now,
        is_locating_visible: false,
        need_draw: true,
        ..m
    }
}

pub open spec fn begin_waiting_m(m: CrossModel, now: u64) -> CrossModel {
    CrossModel { state: GameState::Waiting, active_square: None, wait_start: now, need_draw: true, ..m }
}

pub open spec fn begin_showing_m(m: CrossModel, now: u64) -> CrossModel {
    CrossModel {
        state: GameState::Showing,
        show_index: 0,
        active_square: None,
        show_step_start: now,
        need_draw: true,
        ..m
    }
}

pub open spec fn begin_input_m(m: CrossModel, now: u64) -> CrossModel {
    CrossModel { state: GameState::Input, input_index: 0, active_square: None, input_start: now, need_draw: true, ..m }
}

pub open spec fn start_game_m(m: CrossModel, now: u64) -> CrossModel {
    let len: nat = if m.mode == GameMode::Length { 1 } else { SPEED_MODE_SEQ_LEN as nat };
    begin_waiting_m(with_sequence(CrossModel { score: 0, show_on_ms: BASE_SHOW_ON_MS, ..m }, len), now)
}

pub open spec fn end_game_m(m: CrossModel, msg: Seq<char>) -> CrossModel {
    CrossModel { state: GameState::End, active_square: None, end_message: msg, need_draw: true, ..m }
}

pub open spec fn schedule_m(m: CrossModel, msg: CrossMessage, now: u64) -> CrossModel {
    CrossModel { pending_feedback: Some((msg, (now + FEEDBACK_TTS_DELAY_MS) as u64)), ..m }
}

/// The next round: one square longer in length mode; a fresh sequence of five shown
/// faster (down to the minimum) otherwise.
pub open spec fn advance_round_m(m: CrossModel) -> CrossModel {
    if m.mode == GameMode::Length {
        with_sequence(m, m.sequence.len() + 1)
    } else {
        let faster = if m.show_on_ms >= SHOW_SPEED_REDUCE_MS { m.show_on_ms - SHOW_SPEED_REDUCE_MS } else { 0 };
        with_sequence(
            CrossModel { show_on_ms: if faster > MIN_SHOW_ON_MS { faster as u32 } else { MIN_SHOW_ON_MS }, ..m },
            SPEED_MODE_SEQ_LEN as nat,
        )
    }
}

impl CrossMemory {
    pub open spec fn model(&self) -> CrossModel {
        CrossModel {
            state: self.state,
            need_draw: self.need_draw,
            mode: self.mode,
            sequence: self.sequence@,
            show_index: self.show_index,
            input_index: self.input_index,
            active_square: self.active_square,
            is_locating_visible: self.is_locating_visible,
            score: self.score,
            show_on_ms: self.show_on_ms,
            end_message: self.end_message@,
            pending: self.pending@,
            pending_feedback: self.pending_feedback,
            show_step_start: self.show_step_start,
            input_start: self.input_start,
            flash_start: self.flash_start,
            wait_start: self.wait_start,
            rng: self.rng@,
        }
    }

    /// A game in the mode menu, with the generator seeded from `seed`.
    pub fn new(seed: u64) -> (r: Self)
        ensures
            r.model() == (CrossModel {
                state: GameState::Ready,
                need_draw: false,
                mode: GameMode::Tutorial,
                sequence: Seq::empty(),
                show_index: 0,
                input_index: 0,
                active_square: None,
                is_locating_visible: true,
                score: 0,
                show_on_ms: BASE_SHOW_ON_MS,
                end_message: Seq::empty(),
                pending: PendingModel::Idle,
                pending_feedback: None,
                show_step_start: 0,
                input_start: 0,
                flash_start: 0,
                wait_start: 0,
                rng: seed | 1u64,
            }),
    {
        CrossMemory {
            state: GameState::Ready,
            need_draw: false,
            mode: GameMode::Tutorial,
            sequence: Vec::new(),
            show_index: 0,
            input_index: 0,
            active_square: None,
            is_locating_visible: true,
            score: 0,
            show_on_ms: BASE_SHOW_ON_MS,
            end_message: String::new(),
            pending: PendingTransition::Idle,
            pending_feedback: None,
            show_step_start: 0,
            input_start: 0,
            flash_start: 0,
            wait_start: 0,
            rng: Rng::new(seed),
        }
    }

    /// Selects the next mode of the menu.
    pub fn next_mode(&mut self)
        ensures
            final(self).model() == (CrossModel { mode: next_mode(old(self).mode), need_draw: true, ..old(self).model() }),
    {
        self.mode = self.mode.next();
        self.need_draw = true;
    }

    /// Selects the previous mode of the menu.
    pub fn prev_mode(&mut self)
        ensures
            final(self).model() == (CrossModel { mode: prev_mode(old(self).mode), need_draw: true, ..old(self).model() }),
    {
        self.mode = self.mode.prev();
        self.need_draw = true;
    }

    /// Shows the blinking cross and waits for the player to find it.
    pub fn begin_locating(&mut self, now: u64)
        ensures
            final(self).model() == begin_locating_m(old(self).model(), now),
    {
        self.state = GameState::Locating;
        self.active_square = None;
        self.is_locating_visible = true;
        self.wait_start = now;
        self.need_draw = true;
    }

    /// Blinks the cross while the player looks for it.
    pub fn handle_locating_tick(&mut self, now: u64)
        requires
            old(self).wait_start <= now,
        ensures
            final(self).model() == blink_m(old(self).model(), now),
    {
        let e = elapsed_ms(now, self.wait_start);
        let vis = (e / 500) % 2 == 0;
        if self.is_locating_visible != vis {
            self.is_locating_visible = vis;
            self.need_draw = true;
        }
    }

    /// Starts the tutorial with its introduction.
    pub fn start_tutorial(&mut self, now: u64, effects: &mut Vec<CrossEffect>)
        ensures
            final(self).model() == start_tutorial_m(old(self).model(), now),
            final(effects)@ == old(effects)@.push(CrossEffect::Say(CrossMessage::TutorialIntro)),
    {
        self.state = GameState::Tutorial(TutorialStep::Introduction);
        self.wait_start = now;
        self.is_locating_visible = false;
        effects.push(CrossEffect::Say(CrossMessage::TutorialIntro));
        self.need_draw = true;
    }

    /// Replaces the sequence with `len` squares drawn from the generator.
    fn generate_sequence(&mut self, len: usize)
        ensures
            final(self).model() == with_sequence(old(self).model(), len as nat),
    {
        self.sequence.clear();
        let mut i: usize = 0;
        while i < len
            invariant
                i <= len,
                self.model() == with_sequence(old(self).model(), i as nat),
            decreases len - i,
        {
            let r = self.rng.next_u32();
            let d = direction_at((r as usize) % 5);
            self.sequence.push(d);
            i += 1;
        }
    }

    /// A new game: score reset, first sequence drawn, short pause before it shows.
    pub fn start_game(&mut self, now: u64)
        ensures
            final(self).model() == start_game_m(old(self).model(), now),
    {
        self.score = 0;
        self.show_on_ms = BASE_SHOW_ON_MS;
        let len = match self.mode {
            GameMode::Length => 1,
            _ => SPEED_MODE_SEQ_LEN,
        };
        self.generate_sequence(len);
        self.begin_waiting(now);
    }

    /// Says `message` after the feedback delay.
    pub fn schedule_feedback(&mut self, message: CrossMessage, now: u64)
        requires
            now <= u64::MAX - FEEDBACK_TTS_DELAY_MS,
        ensures
            final(self).model() == schedule_m(old(self).model(), message, now),
    {
        self.pending_feedback = Some((message, now + FEEDBACK_TTS_DELAY_MS as u64));
    }

    /// The scheduled feedback once its time has come (it is then no longer pending).
    pub fn take_due_feedback(&mut self, now: u64) -> (r: Option<CrossMessage>)
        ensures
            match old(self).pending_feedback {
                Some((msg, due)) => if now >= due {
                    r == Some(msg) && final(self).model() == (CrossModel { pending_feedback: None, ..old(self).model() })
                } else {
                    r is None && final(self).model() == old(self).model()
                },
                None => r is None && final(self).model() == old(self).model(),
            },
    {
        match self.pending_feedback {
            Some((msg, due)) => {
                if now >= due {
                    self.pending_feedback = None;
                    Some(msg)
                } else {
                    None
                }
            },
            None => None,
        }
    }

    fn begin_showing(&mut self, now: u64)
        ensures
            final(self).model() == begin_showing_m(old(self).model(), now),
    {
        self.state = GameState::Showing;
        self.show_index = 0;
        self.active_square = None;
        self.show_step_start = now;
        self.need_draw = true;
    }

    fn begin_waiting(&mut self, now: u64)
        ensures
            final(self).model() == begin_waiting_m(old(self).model(), now),
    {
        self.state = GameState::Waiting;
        self.active_square = None;
        self.wait_start = now;
        self.need_draw = true;
    }

    /// After the pause, the sequence starts to show.
    pub fn handle_waiting_tick(&mut self, now: u64)
        requires
            old(self).wait_start <= now,
        ensures
            final(self).model() == if elapsed(now, old(self).wait_start) >= WAIT_DURATION_MS {
                begin_showing_m(old(self).model(), now)
            } else {
                old(self).model()
            },
    {
        let e = elapsed_ms(now, self.wait_start);
        if e >= WAIT_DURATION_MS {
            self.begin_showing(now);
        }
    }

    fn begin_input(&mut self, now: u64)
        ensures
            final(self).model() == begin_input_m(old(self).model(), now),
    {
        self.state = GameState::Input;
        self.input_index = 0;
        self.active_square = None;
        self.input_start = now;
        self.need_draw = true;
    }

    /// Milliseconds left to repeat the sequence (the progress bar shows this out of
    /// `INPUT_TIME_LIMIT_MS`).
    pub fn remaining_ms(&self, now: u64) -> (r: u32)
        requires
            self.input_start <= now,
        ensures
            r == if elapsed(now, self.input_start) >= INPUT_TIME_LIMIT_MS {
                0
            } else {
                INPUT_TIME_LIMIT_MS - elapsed(now, self.input_start)
            },
    {
        let e = elapsed_ms(now, self.input_start);
        if e >= INPUT_TIME_LIMIT_MS {
            0
        } else {
            INPUT_TIME_LIMIT_MS - e
        }
    }

    /// Ends the game with a message for the end screen.
    pub fn end_game(&mut self, message: &str)
        ensures
            final(self).model() == end_game_m(old(self).model(), message@),
    {
        self.state = GameState::End;
        self.active_square = None;
        self.end_message = message.to_string();
        self.need_draw = true;
    }

    fn advance_round(&mut self)
        requires
            old(self).sequence.len() < usize::MAX,
        ensures
            final(self).model() == advance_round_m(old(self).model()),
    {
        match self.mode {
            GameMode::Length => {
                let new_len = self.sequence.len() + 1;
                self.generate_sequence(new_len);
            },
            _ => {
                let faster = self.show_on_ms.saturating_sub(SHOW_SPEED_REDUCE_MS);
                self.show_on_ms = if faster > MIN_SHOW_ON_MS { faster } else { MIN_SHOW_ON_MS };
                self.generate_sequence(SPEED_MODE_SEQ_LEN);
            },
        }
    }
}

/// Milliseconds from `start` to `now`, kept to 32 bits.
fn elapsed_ms(now: u64, start: u64) -> (r: u32)
    requires
        start <= now,
    ensures
        r == elapsed(now, start),
{
    let d = now - start;
    let r = #[verifier::truncate] (d as u32);
    assert(d as u32 == d % 0x1_0000_0000) by (bit_vector);
    r
}


/// One tick while the sequence shows: each square is lit for `show_on_ms` (its
/// sound plays as it lights), then dark for `SHOW_OFF_MS`; after the last one the
/// player's turn begins.
pub open spec fn showing_tick_m(m: CrossModel, now: u64) -> (CrossModel, Seq<CrossEffect>) {
    let e = elapsed(now, m.show_step_start);
    if m.show_index >= m.sequence.len() {
        (begin_input_m(m, now), Seq::empty())
    } else if e < m.show_on_ms {
        let d = m.sequence[m.show_index as int];
        if m.active_square != Some(d) {
            (CrossModel { active_square: Some(d), ..m }, seq![CrossEffect::Play(direction_sound(d))])
        } else {
            (m, Seq::empty())
        }
    } else if e < m.show_on_ms + SHOW_OFF_MS {
        (CrossModel { active_square: None, ..m }, Seq::empty())
    } else {
        (CrossModel { show_index: (m.show_index + 1) as usize, show_step_start: now, ..m }, Seq::empty())
    }
}

/// One tick of the player's turn: once the pressed square has flashed, the pending
/// transition is taken; when time runs out the game ends.
pub open spec fn input_tick_m(m: CrossModel, now: u64) -> CrossModel {
    if m.active_square is Some && elapsed(now, m.flash_start) >= INPUT_FLASH_MS {
        let m1 = CrossModel { active_square: None, pending: PendingModel::Idle, ..m };
        match m.pending {
            PendingModel::NextRound => begin_waiting_m(m1, now),
            PendingModel::GameOver(msg) => end_game_m(m1, msg),
            PendingModel::Idle => m1,
        }
    } else if elapsed(now, m.input_start) >= INPUT_TIME_LIMIT_MS {
        end_game_m(m, "시간 초과"@)
    } else {
        m
    }
}

/// A key during the player's turn: a square key flashes its square and plays its
/// sound; a wrong square ends the game once the flash is over; the right one moves
/// on, and the last one scores the round and draws the next sequence.
pub open spec fn input_key_m(m: CrossModel, code: KeyCode, now: u64) -> (CrossModel, Seq<CrossEffect>, InputResult) {
    match key_direction(code) {
        None => (m, Seq::empty(), InputResult::Ignored),
        Some(d) => {
            let m1 = CrossModel { active_square: Some(d), flash_start: now, ..m };
            let eff = seq![CrossEffect::Play(direction_sound(d))];
            if d != m.sequence[m.input_index as int] {
                (CrossModel { pending: PendingModel::GameOver("틀렸습니다"@), ..m1 }, eff, InputResult::Wrong)
            } else {
                let m2 = CrossModel { input_index: (m.input_index + 1) as usize, ..m1 };
                if m2.input_index >= m2.sequence.len() {
                    (
                        CrossModel {
                            pending: PendingModel::NextRound,
                            ..advance_round_m(CrossModel { score: (m.score + 1) as u32, ..m2 })
                        },
                        eff,
                        InputResult::RoundComplete,
                    )
                } else {
                    (m2, eff, InputResult::Correct)
                }
            }
        },
    }
}

impl CrossMemory {
    /// One tick while the sequence shows.
    pub fn handle_showing_tick(&mut self, now: u64, effects: &mut Vec<CrossEffect>)
        requires
            old(self).show_step_start <= now,
            old(self).show_on_ms <= BASE_SHOW_ON_MS,
        ensures
            final(self).model() == showing_tick_m(old(self).model(), now).0,
            final(effects)@ == old(effects)@ + showing_tick_m(old(self).model(), now).1,
    {
        let e = elapsed_ms(now, self.show_step_start);
        let step_total = self.show_on_ms + SHOW_OFF_MS;
        if self.show_index >= self.sequence.len() {
            self.begin_input(now);
            assert(effects@ =~= old(effects)@ + Seq::empty());
            return;
        }
        if e < self.show_on_ms {
            let d = self.sequence[self.show_index];
            if self.active_square != Some(d) {
                self.active_square = Some(d);
                effects.push(CrossEffect::Play(d.sound_bytes()));
                assert(effects@ =~= old(effects)@ + seq![CrossEffect::Play(direction_sound(d))]);
            } else {
                assert(effects@ =~= old(effects)@ + Seq::empty());
            }
        } else if e < step_total {
            self.active_square = None;
            assert(effects@ =~= old(effects)@ + Seq::empty());
        } else {
            self.show_index = self.show_index + 1;
            self.show_step_start = now;
            assert(effects@ =~= old(effects)@ + Seq::empty());
        }
    }

    /// One tick of the player's turn.
    pub fn handle_input_tick(&mut self, now: u64)
        requires
            old(self).flash_start <= now,
            old(self).input_start <= now,
        ensures
            final(self).model() == input_tick_m(old(self).model(), now),
    {
        if self.active_square.is_some() {
            let fe = elapsed_ms(now, self.flash_start);
            if fe >= INPUT_FLASH_MS {
                self.active_square = None;
                let mut p = PendingTransition::Idle;
                std::mem::swap(&mut p, &mut self.pending);
                match p {
                    PendingTransition::NextRound => self.begin_waiting(now),
                    PendingTransition::GameOver(msg) => self.end_game(msg.as_str()),
                    PendingTransition::Idle => {},
                }
                return;
            }
        }
        if self.remaining_ms(now) == 0 {
            self.end_game("시간 초과");
        }
    }

    /// A key during the player's turn.
    pub fn handle_input_key(&mut self, code: KeyCode, now: u64, effects: &mut Vec<CrossEffect>) -> (r: InputResult)
        requires
            key_direction(code) is Some ==> old(self).input_index < old(self).sequence.len(),
            old(self).score < u32::MAX,
            old(self).sequence.len() < usize::MAX,
        ensures
            final(self).model() == input_key_m(old(self).model(), code, now).0,
            final(effects)@ == old(effects)@ + input_key_m(old(self).model(), code, now).1,
            r == input_key_m(old(self).model(), code, now).2,
    {
        let d = match keycode_to_direction(code) {
            Some(d) => d,
            None => {
                assert(effects@ =~= old(effects)@ + Seq::empty());
                return InputResult::Ignored;
            },
        };
        self.active_square = Some(d);
        self.flash_start = now;
        effects.push(CrossEffect::Play(d.sound_bytes()));
        assert(effects@ =~= old(effects)@ + seq![CrossEffect::Play(direction_sound(d))]);
        if d != self.sequence[self.input_index] {
            self.pending = PendingTransition::GameOver("틀렸습니다".to_string());
            return InputResult::Wrong;
        }
        self.input_index = self.input_index + 1;
        if self.input_index >= self.sequence.len() {
            self.score = self.score + 1;
            self.advance_round();
            self.pending = PendingTransition::NextRound;
            InputResult::RoundComplete
        } else {
            InputResult::Correct
        }
    }
}


/// The tutorial step indices stand inside what they index.
pub open spec fn steps_ok(m: CrossModel) -> bool {
    match m.state {
        GameState::Tutorial(TutorialStep::SinglePracticeWait(i)) => i < 5,
        GameState::Tutorial(TutorialStep::SequencePracticeInput(i)) => i < m.sequence.len(),
        _ => true,
    }
}

/// Whether a step of the tutorial lights squares at the player's keys.
pub open spec fn flashing_step(step: TutorialStep) -> bool {
    match step {
        TutorialStep::SinglePracticeInit(_) => true,
        TutorialStep::SinglePracticeWait(_) => true,
        TutorialStep::SequencePracticeInput(_) => true,
        TutorialStep::SequencePracticeInit => true,
        _ => false,
    }
}

/// The tutorial's pacing, step by step.
pub open spec fn tutorial_step_m(m0: CrossModel, step: TutorialStep, m: CrossModel, now: u64) -> (CrossModel, Seq<CrossEffect>) {
    let e = elapsed(now, m.wait_start);
    match step {
        TutorialStep::Introduction => if e > 9000 {
            (
                CrossModel {
                    state: GameState::Tutorial(TutorialStep::IdentifyCross),
                    wait_start: now,
                    is_locating_visible: true,
                    need_draw: true,
                    ..m0
                },
                seq![CrossEffect::Say(CrossMessage::TutorialFindCross)],
            )
        } else {
            (m0, Seq::empty())
        },
        TutorialStep::IdentifyCross => (blink_m(m0, now), Seq::empty()),
        TutorialStep::SinglePracticeInit(idx) => if e > TUTORIAL_STEP_DELAY_MS && idx < 5 {
            let d = all_directions()[idx as int];
            (
                CrossModel {
                    active_square: Some(d),
                    state: GameState::Tutorial(TutorialStep::SinglePracticeWait(idx)),
                    wait_start: now,
                    need_draw: true,
                    ..m0
                },
                seq![CrossEffect::Play(direction_sound(d))],
            )
        } else {
            (m0, Seq::empty())
        },
        TutorialStep::SinglePracticeWait(idx) => {
            let d = all_directions()[idx as int];
            if e > 1000 && m0.active_square == Some(d) && elapsed(now, m.flash_start) >= INPUT_FLASH_MS {
                (
                    CrossModel { active_square: None, need_draw: true, ..m0 },
                    seq![CrossEffect::Say(CrossMessage::DotGone(d))],
                )
            } else {
                (m0, Seq::empty())
            }
        },
        TutorialStep::SequencePracticeInit => if e > 500 {
            (
                CrossModel {
                    sequence: seq![Direction::Left, Direction::Right],
                    state: GameState::Tutorial(TutorialStep::SequencePracticeShow(0)),
                    wait_start: now,
                    need_draw: true,
                    ..m0
                },
                seq![CrossEffect::Say(CrossMessage::SequenceIntro)],
            )
        } else {
            (m0, Seq::empty())
        },
        TutorialStep::SequencePracticeShow(idx) => {
            let wait: u32 = if idx == 0 { 5000 } else { TUTORIAL_STEP_DELAY_MS };
            if e > wait {
                if idx < m0.sequence.len() {
                    let d = m0.sequence[idx as int];
                    (
                        CrossModel {
                            active_square: Some(d),
                            state: GameState::Tutorial(TutorialStep::SequencePracticeShow((idx + 1) as usize)),
                            wait_start: now,
                            need_draw: true,
                            ..m0
                        },
                        seq![CrossEffect::Play(direction_sound(d))],
                    )
                } else {
                    (
                        CrossModel {
                            active_square: None,
                            state: GameState::Tutorial(TutorialStep::SequencePracticeInput(0)),
                            need_draw: true,
                            ..m0
                        },
                        seq![CrossEffect::Say(CrossMessage::PressInOrder)],
                    )
                }
            } else if e > 800 && m0.active_square is Some && elapsed(now, m.flash_start) >= INPUT_FLASH_MS {
                (CrossModel { active_square: None, need_draw: true, ..m0 }, Seq::empty())
            } else {
                (m0, Seq::empty())
            }
        },
        _ => (m0, Seq::empty()),
    }
}

/// One tick of the tutorial: a square lit by the player's key goes out after its
/// flash, then the current step moves on when its time has come.
pub open spec fn tutorial_tick_m(m: CrossModel, now: u64) -> (CrossModel, Seq<CrossEffect>) {
    match m.state {
        GameState::Tutorial(step) => {
            let m0 = if m.active_square is Some && flashing_step(step) && m.flash_start >= m.wait_start
                && elapsed(now, m.flash_start) >= INPUT_FLASH_MS {
                CrossModel { active_square: None, need_draw: true, ..m }
            } else {
                m
            };
            tutorial_step_m(m0, step, m, now)
        },
        _ => (m, Seq::empty()),
    }
}

impl CrossMemory {
    /// One tick of the tutorial.
    pub fn handle_tutorial_tick(&mut self, now: u64, effects: &mut Vec<CrossEffect>)
        requires
            old(self).wait_start <= now,
            old(self).flash_start <= now,
            steps_ok(old(self).model()),
        ensures
            final(self).model() == tutorial_tick_m(old(self).model(), now).0,
            final(effects)@ == old(effects)@ + tutorial_tick_m(old(self).model(), now).1,
    {
        let step = match self.state {
            GameState::Tutorial(s) => s,
            _ => {
                assert(effects@ =~= old(effects)@ + Seq::empty());
                return;
            },
        };
        let e = elapsed_ms(now, self.wait_start);
        let flashing = match step {
            TutorialStep::SinglePracticeInit(_) => true,
            TutorialStep::SinglePracticeWait(_) => true,
            TutorialStep::SequencePracticeInput(_) => true,
            TutorialStep::SequencePracticeInit => true,
            _ => false,
        };
        if self.active_square.is_some() && flashing && self.flash_start >= self.wait_start {
            let fe = elapsed_ms(now, self.flash_start);
            if fe >= INPUT_FLASH_MS {
                self.active_square = None;
                self.need_draw = true;
            }
        }
        let ghost m0 = self.model();
        match step {
            TutorialStep::Introduction => {
                if e > 9000 {
                    self.state = GameState::Tutorial(TutorialStep::IdentifyCross);
                    self.wait_start = now;
                    self.is_locating_visible = true;
                    effects.push(CrossEffect::Say(CrossMessage::TutorialFindCross));
                    self.need_draw = true;
                } else {
                    assert(effects@ =~= old(effects)@ + Seq::empty());
                }
            },
            TutorialStep::IdentifyCross => {
                let vis = (e / 500) % 2 == 0;
                if self.is_locating_visible != vis {
                    self.is_locating_visible = vis;
                    self.need_draw = true;
                }
                assert(effects@ =~= old(effects)@ + Seq::empty());
            },
            TutorialStep::SinglePracticeInit(idx) => {
                if e > TUTORIAL_STEP_DELAY_MS && idx < 5 {
                    let d = direction_at(idx);
                    effects.push(CrossEffect::Play(d.sound_bytes()));
                    self.active_square = Some(d);
                    self.state = GameState::Tutorial(TutorialStep::SinglePracticeWait(idx));
                    self.wait_start = now;
                    self.need_draw = true;
                } else {
                    assert(effects@ =~= old(effects)@ + Seq::empty());
                }
            },
            TutorialStep::SinglePracticeWait(idx) => {
                let d = direction_at(idx);
                if e > 1000 && self.active_square == Some(d) {
                    let fe = elapsed_ms(now, self.flash_start);
                    if fe >= INPUT_FLASH_MS {
                        effects.push(CrossEffect::Say(CrossMessage::DotGone(d)));
                        self.active_square = None;
                        self.need_draw = true;
                    } else {
                        assert(effects@ =~= old(effects)@ + Seq::empty());
                    }
                } else {
                    assert(effects@ =~= old(effects)@ + Seq::empty());
                }
            },
            TutorialStep::SequencePracticeInit => {
                if e > 500 {
                    let mut sq: Vec<Direction> = Vec::new();
                    sq.push(Direction::Left);
                    sq.push(Direction::Right);
                    assert(sq@ =~= seq![Direction::Left, Direction::Right]);
                    self.sequence = sq;
                    effects.push(CrossEffect::Say(CrossMessage::SequenceIntro));
                    self.state = GameState::Tutorial(TutorialStep::SequencePracticeShow(0));
                    self.wait_start = now;
                    self.need_draw = true;
                } else {
                    assert(effects@ =~= old(effects)@ + Seq::empty());
                }
            },
            TutorialStep::SequencePracticeShow(idx) => {
                let wait_ms: u32 = if idx == 0 { 5000 } else { TUTORIAL_STEP_DELAY_MS };
                if e > wait_ms {
                    if idx < self.sequence.len() {
                        let d = self.sequence[idx];
                        effects.push(CrossEffect::Play(d.sound_bytes()));
                        self.active_square = Some(d);
                        self.state = GameState::Tutorial(TutorialStep::SequencePracticeShow(idx + 1));
                        self.wait_start = now;
                        self.need_draw = true;
                    } else {
                        effects.push(CrossEffect::Say(CrossMessage::PressInOrder));
                        self.active_square = None;
                        self.state = GameState::Tutorial(TutorialStep::SequencePracticeInput(0));
                        self.need_draw = true;
                    }
                } else if e > 800 && self.active_square.is_some() {
                    let fe = elapsed_ms(now, self.flash_start);
                    if fe >= INPUT_FLASH_MS {
                        self.active_square = None;
                        self.need_draw = true;
                    }
                    assert(effects@ =~= old(effects)@ + Seq::empty());
                } else {
                    assert(effects@ =~= old(effects)@ + Seq::empty());
                }
            },
            _ => {
                assert(effects@ =~= old(effects)@ + Seq::empty());
            },
        }
    }
}


/// The step after a right answer in the single-square practice.
pub open spec fn after_single(idx: usize) -> TutorialStep {
    if idx + 1 < 5 {
        TutorialStep::SinglePracticeInit((idx + 1) as usize)
    } else {
        TutorialStep::SequencePracticeInit
    }
}

/// A key press in each stage: the menu picks a mode and starts it; the located
/// cross starts the game; the tutorial checks the practice answers; the player's
/// turn checks the sequence and schedules spoken feedback; the end screen returns
/// to the menu.
pub open spec fn keypad_m(m: CrossModel, code: KeyCode, now: u64) -> (CrossModel, Seq<CrossEffect>) {
    match m.state {
        GameState::Ready => match code {
            KeyCode::Up => (
                CrossModel { mode: prev_mode(m.mode), need_draw: true, ..m },
                seq![CrossEffect::Say(CrossMessage::ModeName(prev_mode(m.mode)))],
            ),
            KeyCode::Down => (
                CrossModel { mode: next_mode(m.mode), need_draw: true, ..m },
                seq![CrossEffect::Say(CrossMessage::ModeName(next_mode(m.mode)))],
            ),
            KeyCode::Center => if m.mode == GameMode::Tutorial {
                (start_tutorial_m(m, now), seq![CrossEffect::Say(CrossMessage::TutorialIntro)])
            } else {
                (begin_locating_m(m, now), seq![CrossEffect::Say(CrossMessage::FindCross)])
            },
            _ => (m, Seq::empty()),
        },
        GameState::Locating => if code == KeyCode::Center {
            (start_game_m(m, now), seq![CrossEffect::Say(CrossMessage::GameStart)])
        } else {
            (m, Seq::empty())
        },
        GameState::Tutorial(step) => match step {
            TutorialStep::IdentifyCross => if code == KeyCode::Center {
                (
                    CrossModel {
                        state: GameState::Tutorial(TutorialStep::SinglePracticeInit(0)),
                        wait_start: now,
                        need_draw: true,
                        ..m
                    },
                    Seq::empty(),
                )
            } else {
                (m, Seq::empty())
            },
            TutorialStep::SinglePracticeWait(idx) => match key_direction(code) {
                None => (m, Seq::empty()),
                Some(d) => {
                    let m1 = CrossModel { active_square: Some(d), flash_start: now, need_draw: true, ..m };
                    let eff = seq![CrossEffect::Play(direction_sound(d))];
                    if d == all_directions()[idx as int] {
                        (
                            CrossModel { state: GameState::Tutorial(after_single(idx)), wait_start: now, ..m1 },
                            eff,
                        )
                    } else {
                        (schedule_m(m1, CrossMessage::WrongTryAgain, now), eff)
                    }
                },
            },
            TutorialStep::SequencePracticeInput(idx) => match key_direction(code) {
                None => (m, Seq::empty()),
                Some(d) => {
                    let m1 = CrossModel { active_square: Some(d), flash_start: now, need_draw: true, ..m };
                    let eff = seq![CrossEffect::Play(direction_sound(d))];
                    let m2 = if d == m.sequence[idx as int] {
                        if idx + 1 < m.sequence.len() {
                            CrossModel {
                                state: GameState::Tutorial(TutorialStep::SequencePracticeInput((idx + 1) as usize)),
                                ..m1
                            }
                        } else {
                            schedule_m(
                                CrossModel { state: GameState::Tutorial(TutorialStep::Complete), ..m1 },
                                CrossMessage::TutorialDone,
                                now,
                            )
                        }
                    } else {
                        CrossModel {
                            state: GameState::Tutorial(TutorialStep::SequencePracticeInit),
                            ..schedule_m(m1, CrossMessage::WrongShowAgain, now)
                        }
                    };
                    (CrossModel { wait_start: now, need_draw: true, ..m2 }, eff)
                },
            },
            TutorialStep::Complete => if code == KeyCode::Center {
                (
                    CrossModel { state: GameState::Ready, need_draw: true, ..m },
                    seq![CrossEffect::Say(CrossMessage::ModeName(m.mode))],
                )
            } else {
                (m, Seq::empty())
            },
            _ => (m, Seq::empty()),
        },
        GameState::Input => {
            let (m1, eff, res) = input_key_m(m, code, now);
            match res {
                InputResult::Wrong => (schedule_m(m1, CrossMessage::WrongScore(m1.score), now), eff),
                InputResult::RoundComplete => (schedule_m(m1, CrossMessage::RoundSuccess(m1.score), now), eff),
                _ => (m1, eff),
            }
        },
        GameState::End => if code == KeyCode::Center {
            (
                CrossModel { state: GameState::Ready, need_draw: true, ..m },
                seq![CrossEffect::Say(CrossMessage::ModeName(m.mode))],
            )
        } else {
            (m, Seq::empty())
        },
        _ => (m, Seq::empty()),
    }
}

/// What a key press asks of the game for it not to fail: the indices it reads stand
/// inside what they index, and the counters it moves have room.
pub open spec fn key_ok(m: CrossModel, code: KeyCode, now: u64) -> bool {
    &&& steps_ok(m)
    &&& (m.state == GameState::Input && key_direction(code) is Some ==> m.input_index < m.sequence.len())
    &&& m.score < u32::MAX
    &&& m.sequence.len() < usize::MAX
    &&& now <= u64::MAX - FEEDBACK_TTS_DELAY_MS
}

impl CrossMemory {
    /// Handles one key press.
    pub fn handle_keypad_event(&mut self, code: KeyCode, now: u64, effects: &mut Vec<CrossEffect>)
        requires
            key_ok(old(self).model(), code, now),
        ensures
            final(self).model() == keypad_m(old(self).model(), code, now).0,
            final(effects)@ == old(effects)@ + keypad_m(old(self).model(), code, now).1,
    {
        match self.state {
            GameState::Ready => match code {
                KeyCode::Up => {
                    self.prev_mode();
                    effects.push(CrossEffect::Say(CrossMessage::ModeName(self.mode)));
                },
                KeyCode::Down => {
                    self.next_mode();
                    effects.push(CrossEffect::Say(CrossMessage::ModeName(self.mode)));
                },
                KeyCode::Center => match self.mode {
                    GameMode::Tutorial => self.start_tutorial(now, effects),
                    _ => {
                        self.begin_locating(now);
                        effects.push(CrossEffect::Say(CrossMessage::FindCross));
                    },
                },
                _ => {},
            },
            GameState::Locating => {
                if code == KeyCode::Center {
                    self.start_game(now);
                    effects.push(CrossEffect::Say(CrossMessage::GameStart));
                }
            },
            GameState::Tutorial(step) => match step {
                TutorialStep::IdentifyCross => {
                    if code == KeyCode::Center {
                        self.state = GameState::Tutorial(TutorialStep::SinglePracticeInit(0));
                        self.wait_start = now;
                        self.need_draw = true;
                    }
                },
                TutorialStep::SinglePracticeWait(idx) => {
                    match keycode_to_direction(code) {
                        Some(d) => {
                            effects.push(CrossEffect::Play(d.sound_bytes()));
                            self.active_square = Some(d);
                            self.flash_start = now;
                            self.need_draw = true;
                            if d == direction_at(idx) {
                                if idx + 1 < 5 {
                                    self.state = GameState::Tutorial(TutorialStep::SinglePracticeInit(idx + 1));
                                } else {
                                    self.state = GameState::Tutorial(TutorialStep::SequencePracticeInit);
                                }
                                self.wait_start = now;
                            } else {
                                self.schedule_feedback(CrossMessage::WrongTryAgain, now);
                            }
                        },
                        None => {},
                    }
                },
                TutorialStep::SequencePracticeInput(idx) => {
                    match keycode_to_direction(code) {
                        Some(d) => {
                            effects.push(CrossEffect::Play(d.sound_bytes()));
                            self.active_square = Some(d);
                            self.flash_start = now;
                            self.need_draw = true;
                            if d == self.sequence[idx] {
                                if idx + 1 < self.sequence.len() {
                                    self.state = GameState::Tutorial(TutorialStep::SequencePracticeInput(idx + 1));
                                } else {
                                    self.state = GameState::Tutorial(TutorialStep::Complete);
                                    self.schedule_feedback(CrossMessage::TutorialDone, now);
                                }
                            } else {
                                self.schedule_feedback(CrossMessage::WrongShowAgain, now);
                                self.state = GameState::Tutorial(TutorialStep::SequencePracticeInit);
                            }
                            self.wait_start = now;
                            self.need_draw = true;
                        },
                        None => {},
                    }
                },
                TutorialStep::Complete => {
                    if code == KeyCode::Center {
                        self.state = GameState::Ready;
                        self.need_draw = true;
                        effects.push(CrossEffect::Say(CrossMessage::ModeName(self.mode)));
                    }
                },
                _ => {},
            },
            GameState::Input => {
                let res = self.handle_input_key(code, now, effects);
                match res {
                    InputResult::Wrong => self.schedule_feedback(CrossMessage::WrongScore(self.score), now),
                    InputResult::RoundComplete => self.schedule_feedback(CrossMessage::RoundSuccess(self.score), now),
                    _ => {},
                }
            },
            GameState::End => {
                if code == KeyCode::Center {
                    self.state = GameState::Ready;
                    self.need_draw = true;
                    effects.push(CrossEffect::Say(CrossMessage::ModeName(self.mode)));
                }
            },
            _ => {},
        }
        assert(effects@ =~= old(effects)@ + keypad_m(old(self).model(), code, now).1);
    }
}


/// Whether the screen needs drawing; the flag is cleared once read.
pub open spec fn redraw_m(m: CrossModel) -> (CrossModel, bool) {
    if m.need_draw {
        (CrossModel { need_draw: false, ..m }, true)
    } else {
        (m, false)
    }
}

/// Spoken feedback whose time has come, taken off the schedule.
pub open spec fn due_m(m: CrossModel, now: u64) -> (CrossModel, Seq<CrossEffect>) {
    match m.pending_feedback {
        Some((msg, due)) => if now >= due {
            (CrossModel { pending_feedback: None, ..m }, seq![CrossEffect::Say(msg)])
        } else {
            (m, Seq::empty())
        },
        None => (m, Seq::empty()),
    }
}

/// The timed part of an update, after the keys: due feedback is said, then the
/// current stage advances. Returns whether the screen must be drawn again.
pub open spec fn tick_m(m: CrossModel, now: u64) -> (CrossModel, Seq<CrossEffect>, bool) {
    let (m1, fb) = due_m(m, now);
    match m1.state {
        GameState::Waiting => {
            let m2 = if elapsed(now, m1.wait_start) >= WAIT_DURATION_MS { begin_showing_m(m1, now) } else { m1 };
            (redraw_m(m2).0, fb, redraw_m(m2).1)
        },
        GameState::Locating => {
            let m2 = blink_m(m1, now);
            (redraw_m(m2).0, fb, redraw_m(m2).1)
        },
        GameState::Tutorial(_) => {
            let (m2, e) = tutorial_tick_m(m1, now);
            (redraw_m(m2).0, fb + e, redraw_m(m2).1)
        },
        GameState::Showing => {
            let (m2, e) = showing_tick_m(m1, now);
            (m2, fb + e, true)
        },
        GameState::Input => {
            let m2 = input_tick_m(m1, now);
            if m2.state == GameState::End {
                (m2, fb.push(CrossEffect::Say(CrossMessage::TimeOut(m2.score))), true)
            } else {
                (m2, fb, true)
            }
        },
        _ => (redraw_m(m1).0, fb, redraw_m(m1).1),
    }
}

/// What the timed part of an update asks for it not to fail: no start time lies
/// after `now`, the tutorial's indices stand inside what they index, and the show
/// time is at most its starting value.
pub open spec fn tick_ok(m: CrossModel, now: u64) -> bool {
    &&& m.wait_start <= now
    &&& m.flash_start <= now
    &&& m.input_start <= now
    &&& m.show_step_start <= now
    &&& steps_ok(m)
    &&& m.show_on_ms <= BASE_SHOW_ON_MS
}

impl CrossMemory {
    fn take_redraw(&mut self) -> (r: bool)
        ensures
            (final(self).model(), r) == redraw_m(old(self).model()),
    {
        if self.need_draw {
            self.need_draw = false;
            true
        } else {
            false
        }
    }

    /// The timed part of an update. Returns whether the screen must be drawn again.
    pub fn tick(&mut self, now: u64, effects: &mut Vec<CrossEffect>) -> (r: bool)
        requires
            tick_ok(old(self).model(), now),
        ensures
            final(self).model() == tick_m(old(self).model(), now).0,
            final(effects)@ == old(effects)@ + tick_m(old(self).model(), now).1,
            r == tick_m(old(self).model(), now).2,
    {
        match self.take_due_feedback(now) {
            Some(msg) => effects.push(CrossEffect::Say(msg)),
            None => {},
        }
        let ghost e1 = effects@;
        assert(e1 =~= old(effects)@ + due_m(old(self).model(), now).1);
        match self.state {
            GameState::Waiting => {
                self.handle_waiting_tick(now);
                self.take_redraw()
            },
            GameState::Locating => {
                self.handle_locating_tick(now);
                self.take_redraw()
            },
            GameState::Tutorial(_) => {
                self.handle_tutorial_tick(now, effects);
                assert(effects@ =~= old(effects)@ + tick_m(old(self).model(), now).1);
                self.take_redraw()
            },
            GameState::Showing => {
                self.handle_showing_tick(now, effects);
                assert(effects@ =~= old(effects)@ + tick_m(old(self).model(), now).1);
                true
            },
            GameState::Input => {
                self.handle_input_tick(now);
                if self.state == GameState::End {
                    effects.push(CrossEffect::Say(CrossMessage::TimeOut(self.score)));
                }
                assert(effects@ =~= old(effects)@ + tick_m(old(self).model(), now).1);
                true
            },
            _ => self.take_redraw(),
        }
    }

    /// Whether a key press can be handled now (see `key_ok`).
    pub fn accepts_key(&self, code: KeyCode, now: u64) -> (r: bool)
        ensures
            r == key_ok(self.model(), code, now),
    {
        let steps = self.steps_in_range();
        let input = match self.state {
            GameState::Input => keycode_to_direction(code).is_none() || self.input_index < self.sequence.len(),
            _ => true,
        };
        steps && input && self.score < u32::MAX && self.sequence.len() < usize::MAX
            && now <= u64::MAX - FEEDBACK_TTS_DELAY_MS as u64
    }

    /// Whether the timed part of an update can run now (see `tick_ok`).
    pub fn accepts_tick(&self, now: u64) -> (r: bool)
        ensures
            r == tick_ok(self.model(), now),
    {
        self.wait_start <= now && self.flash_start <= now && self.input_start <= now && self.show_step_start
            <= now && self.steps_in_range() && self.show_on_ms <= BASE_SHOW_ON_MS
    }

    fn steps_in_range(&self) -> (r: bool)
        ensures
            r == steps_ok(self.model()),
    {
        match self.state {
            GameState::Tutorial(TutorialStep::SinglePracticeWait(i)) => i < 5,
            GameState::Tutorial(TutorialStep::SequencePracticeInput(i)) => i < self.sequence.len(),
            _ => true,
        }
    }
}


/// The pin of a square of the cross around `(cx, cy)` (squares are one pin, with
/// no gap).
pub open spec fn square_pos(d: Direction, cx: int, cy: int) -> (int, int) {
    match d {
        Direction::Center => (cx, cy),
        Direction::Up => (cx, cy - 1),
        Direction::Down => (cx, cy + 1),
        Direction::Left => (cx - 1, cy),
        Direction::Right => (cx + 1, cy),
    }
}

/// The pin of a square of the cross.
pub fn square_position(d: Direction, cx: i16, cy: i16) -> (r: (i16, i16))
    requires
        i16::MIN < cx < i16::MAX,
        i16::MIN < cy < i16::MAX,
    ensures
        (r.0 as int, r.1 as int) == square_pos(d, cx as int, cy as int),
{
    match d {
        Direction::Center => (cx, cy),
        Direction::Up => (cx, cy - 1),
        Direction::Down => (cx, cy + 1),
        Direction::Left => (cx - 1, cy),
        Direction::Right => (cx + 1, cy),
    }
}

/// The pins of the first `n` squares of the cross in the fixed order, leaving out
/// the lit one.
pub open spec fn cross_upto(cx: int, cy: int, active: Option<Direction>, n: int) -> Seq<(int, int)>
    decreases n,
{
    if n <= 0 {
        Seq::empty()
    } else {
        let d = all_directions()[n - 1];
        cross_upto(cx, cy, active, n - 1) + if active != Some(d) { seq![square_pos(d, cx, cy)] } else { Seq::empty() }
    }
}

/// The pins of the cross, leaving out the lit square.
pub fn cross_pattern(cx: i16, cy: i16, active: Option<Direction>) -> (r: Vec<(i16, i16)>)
    requires
        i16::MIN < cx < i16::MAX,
        i16::MIN < cy < i16::MAX,
    ensures
        r@.map_values(|p: (i16, i16)| (p.0 as int, p.1 as int)) == cross_upto(cx as int, cy as int, active, 5),
{
    let mut v: Vec<(i16, i16)> = Vec::new();
    let mut i: usize = 0;
    while i < 5
        invariant
            i <= 5,
            i16::MIN < cx < i16::MAX,
            i16::MIN < cy < i16::MAX,
            v@.map_values(|p: (i16, i16)| (p.0 as int, p.1 as int)) == cross_upto(cx as int, cy as int, active, i as int),
        decreases 5 - i,
    {
        let d = direction_at(i);
        let ghost before = v@.map_values(|p: (i16, i16)| (p.0 as int, p.1 as int));
        if active != Some(d) {
            let p = square_position(d, cx, cy);
            v.push(p);
            assert(v@.map_values(|p: (i16, i16)| (p.0 as int, p.1 as int)) =~= before.push(square_pos(d, cx as int, cy as int)));
        }
        assert(v@.map_values(|p: (i16, i16)| (p.0 as int, p.1 as int)) =~= cross_upto(cx as int, cy as int, active, i + 1));
        i += 1;
    }
    v
}

/// The band of the mode menu that is filled for the selected mode: the display's
/// height in thirds, the last taking what is left.
pub fn mode_band(mode: GameMode, height: i16) -> (r: (i16, i16))
    requires
        0 <= height,
    ensures
        r == match mode {
            GameMode::Tutorial => (0i16, (height / 3) as i16),
            GameMode::Length => ((height / 3) as i16, (2 * (height / 3)) as i16),
            GameMode::Speed => ((2 * (height / 3)) as i16, height),
        },
{
    let h = height / 3;
    match mode {
        GameMode::Tutorial => (0, h),
        GameMode::Length => (h, h * 2),
        GameMode::Speed => (h * 2, height),
    }
}


pub proof fn lemma_gen_seq_len(rng: u64, len: nat)
    ensures
        gen_seq(rng, len).0.len() == len,
    decreases len,
{
    if len > 0 {
        lemma_gen_seq_len(rng, (len - 1) as nat);
    }
}

/// In length mode each completed round asks one square more; in the other modes
/// the sequence is five squares and the showing time never drops below its
/// minimum.
pub proof fn law_rounds_grow(m: CrossModel)
    requires
        m.show_on_ms >= MIN_SHOW_ON_MS,
    ensures
        m.mode == GameMode::Length ==> advance_round_m(m).sequence.len() == m.sequence.len() + 1,
        m.mode != GameMode::Length ==> advance_round_m(m).sequence.len() == SPEED_MODE_SEQ_LEN
            && MIN_SHOW_ON_MS <= advance_round_m(m).show_on_ms <= m.show_on_ms,
{
    lemma_gen_seq_len(m.rng, m.sequence.len() + 1);
    lemma_gen_seq_len(m.rng, SPEED_MODE_SEQ_LEN as nat);
}

/// Speed mode gets faster: each finished round shows every square 50 ms
/// shorter, down to the minimum, so the showing time strictly drops until it
/// reaches the minimum; length mode keeps it. The score is left as it was.
pub proof fn law_speed_mode_gets_faster(m: CrossModel)
    requires
        m.show_on_ms >= MIN_SHOW_ON_MS,
    ensures
        m.mode != GameMode::Length ==> advance_round_m(m).show_on_ms as int == (if m.show_on_ms - 50 > 100 { m.show_on_ms - 50 } else { 100 }),
        m.mode != GameMode::Length && m.show_on_ms > 100 ==> advance_round_m(m).show_on_ms < m.show_on_ms,
        m.mode != GameMode::Length && m.show_on_ms >= 150 ==> advance_round_m(m).show_on_ms == m.show_on_ms - 50,
        m.mode == GameMode::Length ==> advance_round_m(m).show_on_ms == m.show_on_ms,
        advance_round_m(m).score == m.score,
{
}

} // verus!
