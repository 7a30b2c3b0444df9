//! The rhythm game: its screens and keys, the judging tally, the vibration
//! modes, what it says and the parts of its screen that need no fractions. Note
//! timing is fractional seconds and stays with the host.
use vstd::prelude::*;
use crate::input::{KeyCode, Language};
use crate::text::{decimal, push_decimal, push_str};

verus! {

broadcast use vstd::string::group_string_axioms;

/// How the upcoming note is announced by vibration.
#[derive(Clone, Copy, Debug, PartialEq, Eq, Structural)]
pub enum VibrationMode {
    /// Strength rising from nothing to full, as in the boot animation.
    Swell,
    /// The hardware's eight blink steps.
    HardwareSteps,
}

pub open spec fn next_vibration(m: VibrationMode) -> VibrationMode {
    match m {
        VibrationMode::Swell => VibrationMode::HardwareSteps,
        VibrationMode::HardwareSteps => VibrationMode::Swell,
    }
}

pub open spec fn vibration_label(m: VibrationMode, lang: Language) -> Seq<char> {
    match (m, lang) {
        (VibrationMode::Swell, Language::Ko) => "세기 차오름. 부팅 애니메이션과 같은 방식입니다."@,
        (VibrationMode::HardwareSteps, Language::Ko) => "점멸 8단계. 하드웨어가 직접 깜빡입니다."@,
        (VibrationMode::Swell, Language::Ja) => "強さの立ち上がり。起動アニメーションと同じ方式です。"@,
        (VibrationMode::HardwareSteps, Language::Ja) => "点滅8段階。ハードウェアが点滅します。"@,
        (VibrationMode::Swell, _) => "Intensity swell, same as the boot animation."@,
        (VibrationMode::HardwareSteps, _) => "Eight blink steps, driven by the hardware."@,
    }
}

impl VibrationMode {
    /// The other mode (the Function key switches between the two).
    pub fn next(self) -> (r: Self)
        ensures
            r == next_vibration(self),
    {
        match self {
            VibrationMode::Swell => VibrationMode::HardwareSteps,
            VibrationMode::HardwareSteps => VibrationMode::Swell,
        }
    }

    /// The spoken name of the mode.
    pub fn label(self, lang: Language) -> (r: &'static str)
        ensures
            r@ == vibration_label(self, lang),
    {
        match (self, lang) {
            (VibrationMode::Swell, Language::Ko) => "세기 차오름. 부팅 애니메이션과 같은 방식입니다.",
            (VibrationMode::HardwareSteps, Language::Ko) => "점멸 8단계. 하드웨어가 직접 깜빡입니다.",
            (VibrationMode::Swell, Language::Ja) => "強さの立ち上がり。起動アニメーションと同じ方式です。",
            (VibrationMode::HardwareSteps, Language::Ja) => "点滅8段階。ハードウェアが点滅します。",
            (VibrationMode::Swell, _) => "Intensity swell, same as the boot animation.",
            (VibrationMode::HardwareSteps, _) => "Eight blink steps, driven by the hardware.",
        }
    }
}

/// The judgement of a hit.
#[derive(Clone, Copy, Debug, PartialEq, Eq, Structural)]
pub enum Judge {
    Perfect,
    Good,
    Miss,
}

pub open spec fn judge_points(j: Judge) -> u32 {
    match j {
        Judge::Perfect => 100,
        Judge::Good => 50,
        Judge::Miss => 0,
    }
}

impl Judge {
    /// Points for a judgement.
    pub fn score(self) -> (r: u32)
        ensures
            r == judge_points(self),
    {
        match self {
            Judge::Perfect => 100,
            Judge::Good => 50,
            Judge::Miss => 0,
        }
    }
}

/// The counts of a song's play.
#[derive(Clone, Copy, Debug, PartialEq, Eq, Structural)]
pub struct Tally {
    pub score: u32,
    pub combo: u32,
    pub max_combo: u32,
    pub perfect: u32,
    pub good: u32,
    pub miss: u32,
    pub last_judge: Option<Judge>,
}

/// The tally is consistent: the score is what the judgements earned, the combo is
/// at most the best combo, and no combo is longer than the hits.
pub open spec fn tally_ok(t: Tally) -> bool {
    &&& t.score == 100 * t.perfect + 50 * t.good
    &&& t.combo <= t.max_combo
    &&& t.max_combo <= t.perfect + t.good
}

impl Tally {
    /// Nothing judged yet.
    pub fn new() -> (r: Self)
        ensures
            r == (Tally { score: 0, combo: 0, max_combo: 0, perfect: 0, good: 0, miss: 0, last_judge: None }),
    {
        Tally { score: 0, combo: 0, max_combo: 0, perfect: 0, good: 0, miss: 0, last_judge: None }
    }

    /// Counts a judgement: a hit extends the combo, a miss breaks it; the best
    /// combo and the score follow.
    pub fn apply_judge(&mut self, judge: Judge)
        requires
            old(self).perfect < 10_000_000,
            old(self).good < 10_000_000,
            old(self).miss < u32::MAX,
            old(self).combo < u32::MAX,
            old(self).score <= u32::MAX - 100,
        ensures
            *final(self) == judged(*old(self), judge),
    {
        match judge {
            Judge::Perfect => {
                self.perfect += 1;
                self.combo += 1;
            },
            Judge::Good => {
                self.good += 1;
                self.combo += 1;
            },
            Judge::Miss => {
                self.miss += 1;
                self.combo = 0;
            },
        }
        if self.combo > self.max_combo {
            self.max_combo = self.combo;
        }
        self.score += judge.score();
        self.last_judge = Some(judge);
    }
}

/// The tally after a judgement: a hit extends the combo, a miss breaks it; the
/// best combo and the score follow.
pub open spec fn judged(t: Tally, j: Judge) -> Tally {
    let combo = if j == Judge::Miss { 0 } else { (t.combo + 1) as u32 };
    Tally {
        perfect: (t.perfect + if j == Judge::Perfect { 1int } else { 0 }) as u32,
        good: (t.good + if j == Judge::Good { 1int } else { 0 }) as u32,
        miss: (t.miss + if j == Judge::Miss { 1int } else { 0 }) as u32,
        combo: combo,
        max_combo: if combo > t.max_combo { combo } else { t.max_combo },
        score: (t.score + judge_points(j)) as u32,
        last_judge: Some(j),
    }
}

/// Counting a judgement keeps the tally consistent: the score stays one hundred
/// per perfect and fifty per good hit, and the combo never passes the best combo
/// nor the number of hits.
pub proof fn law_tally_stays_consistent(t: Tally, j: Judge)
    requires
        tally_ok(t),
        t.perfect < 10_000_000,
        t.good < 10_000_000,
        t.miss < u32::MAX,
        t.combo < u32::MAX,
    ensures
        tally_ok(judged(t, j)),
{
}

/// The screens of the game.
#[derive(Clone, Copy, Debug, PartialEq, Eq, Structural)]
pub enum RhythmState {
    /// Choosing a song.
    SongSelect,
    /// A song plays.
    Playing,
    /// The results of the last song.
    Result,
}

/// What the host does after a key.
#[derive(Clone, Copy, Debug, PartialEq, Eq, Structural)]
pub enum RhythmKeyAction {
    /// Nothing changed.
    Nothing,
    /// Draw again.
    Redraw,
    /// The vibration mode changed: announce its label and draw again.
    VibrationChanged,
    /// A song starts: play its music and take now as its start; draw again.
    StartSong,
    /// The player hit: judge the upcoming note and draw again.
    Hit,
    /// Play stopped: silence the music and draw again.
    StopMusic,
    /// Silence the music and leave the game.
    Exit,
}

/// The game apart from the songs' timings: the screen, the chosen song among
/// `song_count`, the vibration mode, the first note not judged yet and the tally.
#[derive(Clone, Copy, Debug, PartialEq, Eq, Structural)]
pub struct RhythmSession {
    pub state: RhythmState,
    pub selected: usize,
    pub song_count: usize,
    pub vibration_mode: VibrationMode,
    pub next_note: usize,
    pub tally: Tally,
}

/// The session after a key press, and what the host does.
pub open spec fn session_key(s: RhythmSession, code: KeyCode) -> (RhythmSession, RhythmKeyAction) {
    let n = s.song_count as int;
    if code == KeyCode::Function {
        (RhythmSession { vibration_mode: next_vibration(s.vibration_mode), ..s }, RhythmKeyAction::VibrationChanged)
    } else {
        match s.state {
            RhythmState::SongSelect => {
                if code == KeyCode::Left || code == KeyCode::Up {
                    if n > 0 {
                        (RhythmSession { selected: ((s.selected + n - 1) % n) as usize, ..s }, RhythmKeyAction::Redraw)
                    } else {
                        (s, RhythmKeyAction::Nothing)
                    }
                } else if code == KeyCode::Right || code == KeyCode::Down {
                    if n > 0 {
                        (RhythmSession { selected: ((s.selected + 1) % n) as usize, ..s }, RhythmKeyAction::Redraw)
                    } else {
                        (s, RhythmKeyAction::Nothing)
                    }
                } else if code == KeyCode::Center {
                    if s.selected < s.song_count {
                        (RhythmSession { state: RhythmState::Playing, next_note: 0, tally: fresh_tally(), ..s },
                            RhythmKeyAction::StartSong)
                    } else {
                        (s, RhythmKeyAction::Redraw)
                    }
                } else if code == KeyCode::Menu {
                    (s, RhythmKeyAction::Exit)
                } else {
                    (s, RhythmKeyAction::Nothing)
                }
            },
            RhythmState::Playing => {
                if code == KeyCode::Center {
                    (s, RhythmKeyAction::Hit)
                } else if code == KeyCode::Menu {
                    (RhythmSession { state: RhythmState::SongSelect, ..s }, RhythmKeyAction::StopMusic)
                } else {
                    (s, RhythmKeyAction::Nothing)
                }
            },
            RhythmState::Result => {
                if code == KeyCode::Center {
                    (RhythmSession { state: RhythmState::SongSelect, ..s }, RhythmKeyAction::Redraw)
                } else if code == KeyCode::Menu {
                    (s, RhythmKeyAction::Exit)
                } else {
                    (s, RhythmKeyAction::Nothing)
                }
            },
        }
    }
}

pub open spec fn fresh_tally() -> Tally {
    Tally { score: 0, combo: 0, max_combo: 0, perfect: 0, good: 0, miss: 0, last_judge: None }
}

/// What is said on the song list: the song's number (from one) and title, and
/// how to start.
pub open spec fn select_text(lang: Language, number: nat, title: Seq<char>) -> Seq<char> {
    match lang {
        Language::Ko => decimal(number) + "번, "@ + title + ". 시작하려면 가운데 키를 누르세요."@,
        Language::Ja => decimal(number) + "番、"@ + title + "。開始するには中央キーを押してください。"@,
        Language::En => "Track "@ + decimal(number) + ", "@ + title + ". Press the center key to start."@,
    }
}

pub open spec fn no_songs_text(lang: Language) -> Seq<char> {
    match lang {
        Language::Ko => "재생할 수 있는 곡이 없습니다."@,
        Language::Ja => "再生できる曲がありません。"@,
        Language::En => "No playable songs."@,
    }
}

/// What is said when a song ends: the score, the accuracy in percent, the best
/// combo and (but in Japanese) the counts of each judgement.
pub open spec fn result_text(lang: Language, t: Tally, accuracy_percent: u32) -> Seq<char> {
    match lang {
        Language::Ko => "연주 종료. 점수 "@ + decimal(t.score as nat) + "점, 정확도 "@ + decimal(accuracy_percent as nat)
            + "퍼센트, 최대 콤보 "@ + decimal(t.max_combo as nat) + ". 퍼펙트 "@ + decimal(t.perfect as nat) + ", 굿 "@
            + decimal(t.good as nat) + ", 미스 "@ + decimal(t.miss as nat)
            + ". 곡 선택으로 돌아가려면 가운데 키를 누르세요."@,
        Language::Ja => "演奏終了。スコア"@ + decimal(t.score as nat) + "点、正確度"@ + decimal(accuracy_percent as nat)
            + "パーセント、最大コンボ"@ + decimal(t.max_combo as nat) + "。"@,
        Language::En => "Finished. Score "@ + decimal(t.score as nat) + ", accuracy "@ + decimal(accuracy_percent as nat)
            + " percent, max combo "@ + decimal(t.max_combo as nat) + ". Perfect "@ + decimal(t.perfect as nat) + ", good "@
            + decimal(t.good as nat) + ", miss "@ + decimal(t.miss as nat)
            + ". Press the center key to pick another track."@,
    }
}

/// What the game says on each screen (nothing while a song plays, so as not
/// to talk over the music).
pub open spec fn session_speech(s: RhythmSession, lang: Language, title: Seq<char>, accuracy_percent: u32) -> Option<Seq<char>> {
    match s.state {
        RhythmState::SongSelect => if s.selected < s.song_count {
            Some(select_text(lang, (s.selected + 1) as nat, title))
        } else {
            Some(no_songs_text(lang))
        },
        RhythmState::Playing => None,
        RhythmState::Result => Some(result_text(lang, s.tally, accuracy_percent)),
    }
}

impl RhythmSession {
    /// The song list, with the first of `song_count` songs chosen, swelling
    /// vibration and nothing judged.
    pub fn new(song_count: usize) -> (r: Self)
        ensures
            r == (RhythmSession { state: RhythmState::SongSelect, selected: 0, song_count, vibration_mode: VibrationMode::Swell, next_note: 0, tally: fresh_tally() }),
    {
        RhythmSession { state: RhythmState::SongSelect, selected: 0, song_count, vibration_mode: VibrationMode::Swell, next_note: 0, tally: Tally::new() }
    }

    /// A key press. The Function key switches the vibration mode on any screen.
    /// On the song list Left and Up choose the song before, Right and Down the one
    /// after (round the list), Center starts the chosen song and Menu leaves. While
    /// a song plays Center hits and Menu stops back to the list. On the results
    /// Center goes back to the list and Menu leaves.
    pub fn handle_key(&mut self, code: KeyCode) -> (r: RhythmKeyAction)
        requires
            old(self).selected < usize::MAX,
        ensures
            (*final(self), r) == session_key(*old(self), code),
    {
        if code == KeyCode::Function {
            self.vibration_mode = self.vibration_mode.next();
            return RhythmKeyAction::VibrationChanged;
        }
        let n: usize = self.song_count;
        match self.state {
            RhythmState::SongSelect => {
                if code == KeyCode::Left || code == KeyCode::Up {
                    if n > 0 {
                        let sel: usize = self.selected;
                        let back: usize = if sel % n == 0 { n - 1 } else { sel % n - 1 };
                        proof {
                            lemma_step_back(sel as int, n as int);
                        }
                        self.selected = back;
                        RhythmKeyAction::Redraw
                    } else {
                        RhythmKeyAction::Nothing
                    }
                } else if code == KeyCode::Right || code == KeyCode::Down {
                    if n > 0 {
                        self.selected = (self.selected + 1) % n;
                        RhythmKeyAction::Redraw
                    } else {
                        RhythmKeyAction::Nothing
                    }
                } else if code == KeyCode::Center {
                    if self.selected < n {
                        self.state = RhythmState::Playing;
                        self.next_note = 0;
                        self.tally = Tally::new();
                        RhythmKeyAction::StartSong
                    } else {
                        RhythmKeyAction::Redraw
                    }
                } else if code == KeyCode::Menu {
                    RhythmKeyAction::Exit
                } else {
                    RhythmKeyAction::Nothing
                }
            },
            RhythmState::Playing => {
                if code == KeyCode::Center {
                    RhythmKeyAction::Hit
                } else if code == KeyCode::Menu {
                    self.state = RhythmState::SongSelect;
                    RhythmKeyAction::StopMusic
                } else {
                    RhythmKeyAction::Nothing
                }
            },
            RhythmState::Result => {
                if code == KeyCode::Center {
                    self.state = RhythmState::SongSelect;
                    RhythmKeyAction::Redraw
                } else if code == KeyCode::Menu {
                    RhythmKeyAction::Exit
                } else {
                    RhythmKeyAction::Nothing
                }
            },
        }
    }

    /// The upcoming note was judged (a hit in its window, or a note let pass):
    /// the next note is up and the tally counts the judgement.
    pub fn judge_note(&mut self, judge: Judge)
        requires
            old(self).next_note < usize::MAX,
            old(self).tally.perfect < 10_000_000,
            old(self).tally.good < 10_000_000,
            old(self).tally.miss < u32::MAX,
            old(self).tally.combo < u32::MAX,
            old(self).tally.score <= u32::MAX - 100,
        ensures
            *final(self) == (RhythmSession { next_note: (old(self).next_note + 1) as usize, tally: judged(old(self).tally, judge), ..*old(self) }),
    {
        self.next_note = self.next_note + 1;
        self.tally.apply_judge(judge);
    }

    /// What the game says now (see `session_speech`); `title` is the chosen
    /// song's title in `lang` and `accuracy_percent` the last song's accuracy.
    pub fn speech(&self, lang: Language, title: &str, accuracy_percent: u32) -> (r: Option<String>)
        ensures
            match r {
                Some(t) => session_speech(*self, lang, title@, accuracy_percent) == Some(t@),
                None => session_speech(*self, lang, title@, accuracy_percent) is None,
            },
    {
        match self.state {
            RhythmState::SongSelect => {
                if self.selected < self.song_count {
                    let mut t = String::new();
                    let n: u64 = self.selected as u64 + 1;
                    match lang {
                        Language::Ko => {
                            push_decimal(&mut t, n);
                            push_str(&mut t, "번, ");
                            push_str(&mut t, title);
                            push_str(&mut t, ". 시작하려면 가운데 키를 누르세요.");
                        },
                        Language::Ja => {
                            push_decimal(&mut t, n);
                            push_str(&mut t, "番、");
                            push_str(&mut t, title);
                            push_str(&mut t, "。開始するには中央キーを押してください。");
                        },
                        Language::En => {
                            push_str(&mut t, "Track ");
                            push_decimal(&mut t, n);
                            push_str(&mut t, ", ");
                            push_str(&mut t, title);
                            push_str(&mut t, ". Press the center key to start.");
                        },
                    }
                    Some(t)
                } else {
                    let t = match lang {
                        Language::Ko => "재생할 수 있는 곡이 없습니다.",
                        Language::Ja => "再生できる曲がありません。",
                        Language::En => "No playable songs.",
                    };
                    Some(t.to_string())
                }
            },
            RhythmState::Playing => None,
            RhythmState::Result => Some(result_speech(lang, self.tally, accuracy_percent)),
        }
    }
}

/// The Function key switches between the two vibration modes: pressed twice, on
/// any screen, it leaves the game as it was.
pub proof fn law_function_key_twice(s: RhythmSession)
    ensures
        session_key(session_key(s, KeyCode::Function).0, KeyCode::Function).0 == s,
        next_vibration(next_vibration(s.vibration_mode)) == s.vibration_mode,
{
}

/// The song list wraps round: one step forward then one back comes back to the
/// chosen song.
pub proof fn law_song_choice_wraps(s: RhythmSession)
    requires
        s.state == RhythmState::SongSelect,
        s.selected < s.song_count,
    ensures
        session_key(session_key(s, KeyCode::Right).0, KeyCode::Left).0 == s,
{
    let n = s.song_count as int;
    let t = session_key(s, KeyCode::Right).0;
    assert(t.selected == (s.selected + 1) % n);
    if s.selected + 1 < n {
        vstd::arithmetic::div_mod::lemma_small_mod((s.selected + 1) as nat, n as nat);
        vstd::arithmetic::div_mod::lemma_small_mod(s.selected as nat, n as nat);
        vstd::arithmetic::div_mod::lemma_fundamental_div_mod_converse(s.selected + 1 + n - 1, n, 1, s.selected as int);
    } else {
        vstd::arithmetic::div_mod::lemma_mod_self_0(n);
        vstd::arithmetic::div_mod::lemma_small_mod((n - 1) as nat, n as nat);
    }
}

/// One step back round a list of `n` items lands where the remainders say.
proof fn lemma_step_back(sel: int, n: int)
    requires
        sel >= 0,
        n > 0,
    ensures
        (sel + n - 1) % n == (if sel % n == 0 { n - 1 } else { sel % n - 1 }),
{
    let q = sel / n;
    let r = sel % n;
    assert(sel == q * n + r) by (nonlinear_arith)
        requires n > 0, q == sel / n, r == sel % n;
    assert(sel + n - 1 == q * n + (r + n - 1)) by (nonlinear_arith)
        requires sel == q * n + r;
    if r == 0 {
        vstd::arithmetic::div_mod::lemma_fundamental_div_mod_converse(sel + n - 1, n, q, n - 1);
    } else {
        assert(sel + n - 1 == (q + 1) * n + (r - 1)) by (nonlinear_arith)
            requires sel == q * n + r;
        vstd::arithmetic::div_mod::lemma_fundamental_div_mod_converse(sel + n - 1, n, q + 1, r - 1);
    }
}

fn result_speech(lang: Language, t: Tally, accuracy_percent: u32) -> (r: String)
    ensures
        r@ == result_text(lang, t, accuracy_percent),
{
    let mut s = String::new();
    match lang {
        Language::Ko => {
            push_str(&mut s, "연주 종료. 점수 ");
            push_decimal(&mut s, t.score as u64);
            push_str(&mut s, "점, 정확도 ");
            push_decimal(&mut s, accuracy_percent as u64);
            push_str(&mut s, "퍼센트, 최대 콤보 ");
            push_decimal(&mut s, t.max_combo as u64);
            push_str(&mut s, ". 퍼펙트 ");
            push_decimal(&mut s, t.perfect as u64);
            push_str(&mut s, ", 굿 ");
            push_decimal(&mut s, t.good as u64);
            push_str(&mut s, ", 미스 ");
            push_decimal(&mut s, t.miss as u64);
            push_str(&mut s, ". 곡 선택으로 돌아가려면 가운데 키를 누르세요.");
        },
        Language::Ja => {
            push_str(&mut s, "演奏終了。スコア");
            push_decimal(&mut s, t.score as u64);
            push_str(&mut s, "点、正確度");
            push_decimal(&mut s, accuracy_percent as u64);
            push_str(&mut s, "パーセント、最大コンボ");
            push_decimal(&mut s, t.max_combo as u64);
            push_str(&mut s, "。");
        },
        Language::En => {
            push_str(&mut s, "Finished. Score ");
            push_decimal(&mut s, t.score as u64);
            push_str(&mut s, ", accuracy ");
            push_decimal(&mut s, accuracy_percent as u64);
            push_str(&mut s, " percent, max combo ");
            push_decimal(&mut s, t.max_combo as u64);
            push_str(&mut s, ". Perfect ");
            push_decimal(&mut s, t.perfect as u64);
            push_str(&mut s, ", good ");
            push_decimal(&mut s, t.good as u64);
            push_str(&mut s, ", miss ");
            push_decimal(&mut s, t.miss as u64);
            push_str(&mut s, ". Press the center key to pick another track.");
        },
    }
    s
}

/// The outer diameter of the centre circle on a display: eight pins less than
/// its smaller side, kept between six and forty.
pub open spec fn diameter_spec(width: int, height: int) -> int {
    let d = (if width <= height { width } else { height }) - 8;
    if d < 6 { 6 } else if d > 40 { 40 } else { d }
}

pub fn circle_diameter(width: i16, height: i16) -> (r: i16)
    ensures
        r == diameter_spec(width as int, height as int),
{
    let m: i32 = if width <= height { width as i32 } else { height as i32 };
    let d: i32 = m - 8;
    if d < 6 { 6 } else if d > 40 { 40 } else { d as i16 }
}

/// The length of the line flashed along the top after a judgement: the whole
/// width for a perfect hit, half for a good one, a sixth for a miss; at least one.
pub fn flash_length(judge: Judge, width: i16) -> (r: i16)
    requires
        width >= 0,
    ensures
        ({
            let len = match judge {
                Judge::Perfect => width as int,
                Judge::Good => width / 2,
                Judge::Miss => width / 6,
            };
            r == if len < 1 { 1 } else { len }
        }),
{
    let len: i16 = match judge {
        Judge::Perfect => width,
        Judge::Good => width / 2,
        Judge::Miss => width / 6,
    };
    if len < 1 { 1 } else { len }
}

/// The dots of the song list along the second row from the bottom, three pins
/// apart round the centre column: column, row and whether it is the chosen song.
/// An empty list still shows one dot.
pub fn select_dots(width: i16, height: i16, song_count: usize, selected: usize) -> (r: Vec<(i16, i16, bool)>)
    requires
        0 < width <= 10000,
        0 < height <= 10000,
        song_count <= 1000,
    ensures
        ({
            let count: int = if song_count == 0 { 1 } else { song_count as int };
            let start = width / 2 - ((count - 1) * 3) / 2;
            &&& r@.len() == count
            &&& forall|i: int| 0 <= i < count ==>
                #[trigger] r@[i] == ((start + i * 3) as i16, (height - 2) as i16, i == selected)
        }),
{
    let count: i16 = if song_count == 0 { 1 } else { song_count as i16 };
    let gap: i16 = 3;
    let total_w: i16 = (count - 1) * gap;
    let start_x: i16 = width / 2 - total_w / 2;
    let mut v: Vec<(i16, i16, bool)> = Vec::new();
    let mut i: i16 = 0;
    while i < count
        invariant
            0 <= i <= count,
            1 <= count <= 1000,
            count == (if song_count == 0 { 1 } else { song_count as int }),
            0 < width <= 10000,
            0 < height <= 10000,
            gap == 3,
            start_x == width / 2 - ((count - 1) * 3) / 2,
            -1500 <= start_x <= 5000,
            v@.len() == i,
            forall|j: int| 0 <= j < i ==>
                #[trigger] v@[j] == ((start_x + j * 3) as i16, (height - 2) as i16, j == selected),
        decreases count - i,
    {
        v.push((start_x + i * gap, height - 2, i as usize == selected));
        i += 1;
    }
    v
}

} // verus!
