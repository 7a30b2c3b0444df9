//! The audio test applet: six speech and sound tests picked with Up and Down and
//! run with Center.
use vstd::prelude::*;
use crate::input::{KeyCode, Language};

verus! {

broadcast use vstd::string::group_string_axioms;

/// Number of samples of the test beep (half a second at 8000 Hz).
pub const NUM_SAMPLES: usize = 4000;
/// Size of a WAV header.
pub const WAV_HEADER_SIZE: usize = 44;
/// Size of the test beep.
pub const TOTAL_BYTES: usize = 4044;

/// One period of the beep's wave (ten samples, 8 bits, silence at 128).
pub open spec fn wave(k: int) -> int {
    if k == 0 { 128 } else if k == 1 { 202 } else if k == 2 { 248 } else if k == 3 { 248 }
    else if k == 4 { 202 } else if k == 5 { 128 } else if k == 6 { 53 } else if k == 7 { 7 }
    else if k == 8 { 7 } else { 53 }
}

/// Division rounding toward zero, as Rust's integer division does.
pub open spec fn tdiv(a: int, b: int) -> int {
    if a >= 0 { a / b } else { -((-a) / b) }
}

/// Sample `i` of the beep: the wave, faded in over the first thousand samples and
/// out over the last thousand.
pub open spec fn beep_sample(i: int) -> u8 {
    let c = wave(i % 10) - 128;
    if i < 1000 {
        (128 + tdiv(c * i, 1000)) as u8
    } else if i >= 3000 {
        (128 + tdiv(c * (4000 - i), 1000)) as u8
    } else {
        wave(i % 10) as u8
    }
}

/// The WAV header of the beep: RIFF, PCM, one channel, 8000 Hz, 8 bits.
pub open spec fn beep_header() -> Seq<u8> {
    seq![
        82u8, 73, 70, 70, 0xd4, 0x0f, 0, 0, 87, 65, 86, 69, 102, 109, 116, 32,
        16, 0, 0, 0, 1, 0, 1, 0, 0x40, 0x1f, 0, 0, 0x40, 0x1f, 0, 0,
        1, 0, 8, 0, 100, 97, 116, 97, 0xa0, 0x0f, 0, 0,
    ]
}

/// The test beep: its header, then its samples.
pub open spec fn beep_bytes() -> Seq<u8> {
    beep_header() + Seq::new(4000, |i: int| beep_sample(i))
}

fn wave_at(k: usize) -> (r: i32)
    requires
        k < 10,
    ensures
        r == wave(k as int),
{
    if k == 0 { 128 } else if k == 1 { 202 } else if k == 2 { 248 } else if k == 3 { 248 }
    else if k == 4 { 202 } else if k == 5 { 128 } else if k == 6 { 53 } else if k == 7 { 7 }
    else if k == 8 { 7 } else { 53 }
}

/// The test beep as WAV bytes.
pub fn beep_sound() -> (r: Vec<u8>)
    ensures
        r@ == beep_bytes(),
{
    let mut buf: Vec<u8> = Vec::new();
    let header: [u8; 44] = [
        82, 73, 70, 70, 0xd4, 0x0f, 0, 0, 87, 65, 86, 69, 102, 109, 116, 32,
        16, 0, 0, 0, 1, 0, 1, 0, 0x40, 0x1f, 0, 0, 0x40, 0x1f, 0, 0,
        1, 0, 8, 0, 100, 97, 116, 97, 0xa0, 0x0f, 0, 0,
    ];
    let mut h: usize = 0;
    while h < 44
        invariant
            h <= 44,
            header@ == beep_header(),
            buf@ == beep_header().take(h as int),
        decreases 44 - h,
    {
        buf.push(header[h]);
        assert(beep_header().take(h + 1) =~= beep_header().take(h as int).push(beep_header()[h as int]));
        h += 1;
    }
    assert(beep_header().take(44) =~= beep_header());
    let mut i: usize = 0;
    while i < NUM_SAMPLES
        invariant
            i <= NUM_SAMPLES,
            buf@ == beep_header() + Seq::new(i as nat, |k: int| beep_sample(k)),
        decreases NUM_SAMPLES - i,
    {
        let p = wave_at(i % 10);
        let c = p - 128;
        let s: u8 = if i < 1000 {
            let ii = i as i32;
            assert(-121000 <= c * ii <= 120000) by (nonlinear_arith)
                requires
                    -121 <= c <= 120,
                    0 <= ii < 1000,
            ;
            let scaled = (c * ii) / 1000;
            assert(scaled == tdiv(c * ii, 1000));
            (128 + scaled) as u8
        } else if i >= NUM_SAMPLES - 1000 {
            let remaining = (NUM_SAMPLES - i) as i32;
            assert(-121000 <= c * remaining <= 121000) by (nonlinear_arith)
                requires
                    -121 <= c <= 120,
                    0 < remaining <= 1000,
            ;
            let scaled = (c * remaining) / 1000;
            assert(scaled == tdiv(c * remaining, 1000));
            (128 + scaled) as u8
        } else {
            p as u8
        };
        assert(s == beep_sample(i as int));
        buf.push(s);
        assert(buf@ =~= beep_header() + Seq::new((i + 1) as nat, |k: int| beep_sample(k)));
        i += 1;
    }
    buf
}

/// The name of a test (`0..6`; empty past the last).

pub open spec fn test_name(lang: Language, idx: int) -> Seq<char> {
    match lang {
        Language::Ko => if idx == 0 { "일반 상태 출력 테스트"@ } else if idx == 1 { "강제 출력 액션 테스트"@ } else if idx == 2 { "중요 메시지 더킹 테스트"@ } else if idx == 3 { "오디오 시퀀스 혼합 테스트"@ } else if idx == 4 { "단순 효과음 중첩 테스트"@ } else if idx == 5 { "단일 효과음 볼륨 조절 테스트"@ } else { ""@ },
        Language::En => if idx == 0 { "Normal status output test"@ } else if idx == 1 { "Forced output action test"@ } else if idx == 2 { "Important message ducking test"@ } else if idx == 3 { "Audio sequence mixing test"@ } else if idx == 4 { "Simple sound effect overlapping test"@ } else if idx == 5 { "Single sound effect volume control test"@ } else { ""@ },
        Language::Ja => if idx == 0 { "一般状態出力テスト"@ } else if idx == 1 { "強制出力アクションテスト"@ } else if idx == 2 { "重要メッセージダッキングテスト"@ } else if idx == 3 { "オーディオシーケンス混合テスト"@ } else if idx == 4 { "単純効果音重複テスト"@ } else if idx == 5 { "単一効果音音量調節テスト"@ } else { ""@ },
    }
}

fn test_name_exec(lang: Language, idx: usize) -> (r: &'static str)
    ensures
        r@ == test_name(lang, idx as int),
{
    match lang {
        Language::Ko => if idx == 0 { "일반 상태 출력 테스트" } else if idx == 1 { "강제 출력 액션 테스트" } else if idx == 2 { "중요 메시지 더킹 테스트" } else if idx == 3 { "오디오 시퀀스 혼합 테스트" } else if idx == 4 { "단순 효과음 중첩 테스트" } else if idx == 5 { "단일 효과음 볼륨 조절 테스트" } else { "" },
        Language::En => if idx == 0 { "Normal status output test" } else if idx == 1 { "Forced output action test" } else if idx == 2 { "Important message ducking test" } else if idx == 3 { "Audio sequence mixing test" } else if idx == 4 { "Simple sound effect overlapping test" } else if idx == 5 { "Single sound effect volume control test" } else { "" },
        Language::Ja => if idx == 0 { "一般状態出力テスト" } else if idx == 1 { "強制出力アクションテスト" } else if idx == 2 { "重要メッセージダッキングテスト" } else if idx == 3 { "オーディオシーケンス混合テスト" } else if idx == 4 { "単純効果音重複テスト" } else if idx == 5 { "単一効果音音量調節テスト" } else { "" },
    }
}

/// The instruction said after a test's name.

pub open spec fn run_instruction(lang: Language) -> Seq<char> {
    match lang {
        Language::Ko => "실행하려면 가운데 버튼을 누르세요"@,
        Language::En => "Press the center button to run"@,
        Language::Ja => "実行するには中央ボタンを押してください"@,
    }
}

fn run_instruction_exec(lang: Language) -> (r: &'static str)
    ensures
        r@ == run_instruction(lang),
{
    match lang {
        Language::Ko => "실행하려면 가운데 버튼을 누르세요",
        Language::En => "Press the center button to run",
        Language::Ja => "実行するには中央ボタンを押してください",
    }
}

/// What a test says before the count when it runs.

pub open spec fn run_text(lang: Language, idx: int) -> Seq<char> {
    match lang {
        Language::Ko => if idx == 0 { "일반 메시지입니다. 카운트 "@ } else if idx == 1 { "중복을 허용하는 강제 출력입니다. 카운트 "@ } else if idx == 2 { "일반 소리를 줄여주는 중요 메시지입니다. 카운트 "@ } else if idx == 3 { "시퀀스 시작, 카운트 "@ } else if idx == 4 { "효과음과 함께 출력되는 TTS입니다. 카운트 "@ } else if idx == 5 { "20% 볼륨으로 재생되는 효과음입니다. 카운트 "@ } else { ""@ },
        Language::En => if idx == 0 { "This is a normal message. Count "@ } else if idx == 1 { "This is a forced output allowing overlap. Count "@ } else if idx == 2 { "This is an important message that ducks other sounds. Count "@ } else if idx == 3 { "Sequence start, count "@ } else if idx == 4 { "TTS outputted with sound effect. Count "@ } else if idx == 5 { "Sound effect played at 20 percent volume. Count "@ } else { ""@ },
        Language::Ja => if idx == 0 { "一般メッセージです。カウント "@ } else if idx == 1 { "重複を許容する強制出力です。カウント "@ } else if idx == 2 { "一般音量を下げる重要メッセージです。カウント "@ } else if idx == 3 { "シーケンス開始、カウント "@ } else if idx == 4 { "効果音と共に出力されるTTSです。カウント "@ } else if idx == 5 { "20パーセントの音量で再生される効果音です。カウント "@ } else { ""@ },
    }
}

fn run_text_exec(lang: Language, idx: usize) -> (r: &'static str)
    ensures
        r@ == run_text(lang, idx as int),
{
    match lang {
        Language::Ko => if idx == 0 { "일반 메시지입니다. 카운트 " } else if idx == 1 { "중복을 허용하는 강제 출력입니다. 카운트 " } else if idx == 2 { "일반 소리를 줄여주는 중요 메시지입니다. 카운트 " } else if idx == 3 { "시퀀스 시작, 카운트 " } else if idx == 4 { "효과음과 함께 출력되는 TTS입니다. 카운트 " } else if idx == 5 { "20% 볼륨으로 재생되는 효과음입니다. 카운트 " } else { "" },
        Language::En => if idx == 0 { "This is a normal message. Count " } else if idx == 1 { "This is a forced output allowing overlap. Count " } else if idx == 2 { "This is an important message that ducks other sounds. Count " } else if idx == 3 { "Sequence start, count " } else if idx == 4 { "TTS outputted with sound effect. Count " } else if idx == 5 { "Sound effect played at 20 percent volume. Count " } else { "" },
        Language::Ja => if idx == 0 { "一般メッセージです。カウント " } else if idx == 1 { "重複を許容する強制出力です。カウント " } else if idx == 2 { "一般音量を下げる重要メッセージです。カウント " } else if idx == 3 { "シーケンス開始、カウント " } else if idx == 4 { "効果音と共に出力されるTTSです。カウント " } else if idx == 5 { "20パーセントの音量で再生される効果音です。カウント " } else { "" },
    }
}

/// What the sequence test says at its end.

pub open spec fn end_text(lang: Language) -> Seq<char> {
    match lang {
        Language::Ko => "테스트 종료."@,
        Language::En => "Test ended."@,
        Language::Ja => "テスト終了。"@,
    }
}

fn end_text_exec(lang: Language) -> (r: &'static str)
    ensures
        r@ == end_text(lang),
{
    match lang {
        Language::Ko => "테스트 종료.",
        Language::En => "Test ended.",
        Language::Ja => "テスト終了。",
    }
}

/// A part of what is said.
pub enum Segment {
    Text(String),
    /// The test beep.
    Beep,
    /// A pause, in milliseconds.
    Silence(u32),
}

/// A part of what is said, as plain values.
pub enum SegmentView {
    Text(Seq<char>),
    Beep,
    Silence(u32),
}

impl Segment {
    pub open spec fn view(&self) -> SegmentView {
        match self {
            Segment::Text(s) => SegmentView::Text(s@),
            Segment::Beep => SegmentView::Beep,
            Segment::Silence(ms) => SegmentView::Silence(*ms),
        }
    }
}

pub open spec fn segment_views(v: Seq<Segment>) -> Seq<SegmentView> {
    v.map_values(|s: Segment| s@)
}

/// How speech meets what is already being said.
#[derive(Clone, Copy, Debug, PartialEq, Eq, Structural)]
pub enum SpeechMode {
    Normal,
    /// Said even when it repeats what was just said.
    Forced,
    /// Other sounds are lowered while it is said.
    Important,
}

/// The selected test and how often it ran since it was selected.
pub struct AudioTestApp {
    pub selected_index: usize,
    pub trigger_count: u64,
}

/// What the app says: before a run, the test's name and how to run it; after a
/// run, the test's text and the count (the sequence test adds the beep, half a
/// second of silence and a closing line). Nothing for an index past the last.
pub open spec fn speech_spec(idx: usize, count: u64, lang: Language, formatted_count: Seq<char>) -> Option<(Seq<SegmentView>, SpeechMode)> {
    if count == 0 {
        Some((seq![SegmentView::Text(test_name(lang, idx as int)), SegmentView::Text(run_instruction(lang))], SpeechMode::Normal))
    } else if idx > 5 {
        None
    } else {
        let head = seq![SegmentView::Text(run_text(lang, idx as int)), SegmentView::Text(formatted_count)];
        if idx == 3 {
            Some((head + seq![SegmentView::Beep, SegmentView::Silence(500), SegmentView::Text(end_text(lang))], SpeechMode::Important))
        } else {
            Some((head, if idx == 1 { SpeechMode::Forced } else if idx == 2 { SpeechMode::Important } else { SpeechMode::Normal }))
        }
    }
}

impl AudioTestApp {
    /// The first test, not yet run.
    pub fn new() -> (r: Self)
        ensures
            r.selected_index == 0,
            r.trigger_count == 0,
    {
        AudioTestApp { selected_index: 0, trigger_count: 0 }
    }

    /// A key press: Up and Down pick the previous or next of the six tests
    /// (resetting the count), Center runs the selected test (the beep test plays
    /// the beep). Returns whether to redraw and whether to play the beep.
    pub fn handle_key(&mut self, code: KeyCode) -> (r: (bool, bool))
        requires
            old(self).trigger_count < u64::MAX,
        ensures
            code == KeyCode::Up && old(self).selected_index > 0 ==> final(self).selected_index == old(self).selected_index - 1
                && final(self).trigger_count == 0 && r == (true, false),
            code == KeyCode::Down && old(self).selected_index < 5 ==> final(self).selected_index == old(self).selected_index + 1
                && final(self).trigger_count == 0 && r == (true, false),
            code == KeyCode::Center ==> final(self).selected_index == old(self).selected_index
                && final(self).trigger_count == old(self).trigger_count + 1 && r == (true, old(self).selected_index == 4),
            !(code == KeyCode::Up && old(self).selected_index > 0) && !(code == KeyCode::Down && old(self).selected_index < 5)
                && code != KeyCode::Center ==> final(self).selected_index == old(self).selected_index
                && final(self).trigger_count == old(self).trigger_count && r == (false, false),
    {
        match code {
            KeyCode::Up => {
                if self.selected_index > 0 {
                    self.selected_index -= 1;
                    self.trigger_count = 0;
                    return (true, false);
                }
                (false, false)
            },
            KeyCode::Down => {
                if self.selected_index < 5 {
                    self.selected_index += 1;
                    self.trigger_count = 0;
                    return (true, false);
                }
                (false, false)
            },
            KeyCode::Center => {
                self.trigger_count += 1;
                (true, self.selected_index == 4)
            },
            _ => (false, false),
        }
    }

    /// What to say now (see `speech_spec`); `formatted_count` is the count as
    /// the language reads numbers.
    pub fn on_speech(&self, lang: Language, formatted_count: &str) -> (r: Option<(Vec<Segment>, SpeechMode)>)
        ensures
            match r {
                Some((v, m)) => speech_spec(self.selected_index, self.trigger_count, lang, formatted_count@) == Some((segment_views(v@), m)),
                None => speech_spec(self.selected_index, self.trigger_count, lang, formatted_count@) is None,
            },
    {
        let mut v: Vec<Segment> = Vec::new();
        if self.trigger_count == 0 {
            v.push(Segment::Text(test_name_exec(lang, self.selected_index).to_string()));
            v.push(Segment::Text(run_instruction_exec(lang).to_string()));
            assert(segment_views(v@) =~= seq![SegmentView::Text(test_name(lang, self.selected_index as int)), SegmentView::Text(run_instruction(lang))]);
            return Some((v, SpeechMode::Normal));
        }
        if self.selected_index > 5 {
            return None;
        }
        v.push(Segment::Text(run_text_exec(lang, self.selected_index).to_string()));
        v.push(Segment::Text(formatted_count.to_string()));
        let ghost head = segment_views(v@);
        assert(head =~= seq![SegmentView::Text(run_text(lang, self.selected_index as int)), SegmentView::Text(formatted_count@)]);
        if self.selected_index == 3 {
            v.push(Segment::Beep);
            v.push(Segment::Silence(500));
            v.push(Segment::Text(end_text_exec(lang).to_string()));
            assert(segment_views(v@) =~= head + seq![SegmentView::Beep, SegmentView::Silence(500), SegmentView::Text(end_text(lang))]);
            Some((v, SpeechMode::Important))
        } else if self.selected_index == 1 {
            Some((v, SpeechMode::Forced))
        } else if self.selected_index == 2 {
            Some((v, SpeechMode::Important))
        } else {
            Some((v, SpeechMode::Normal))
        }
    }
}

} // verus!
