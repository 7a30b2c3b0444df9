//! The tactile test: after an optional guide, ten fixed questions each asking
//! which of three boxes vibrates like the quiz box.
//!
//! The one-minute countdown is fractional and the host's; the test tells it when
//! to start, refill or reset it.
use vstd::prelude::*;
use crate::input::{KeyCode, Language};
use crate::speech::string_views;
use crate::cross_memory::{Rng, xorshift};

verus! {

broadcast use vstd::string::group_string_axioms;

/// The stages of the test.
#[derive(Clone, Copy, Debug, PartialEq, Eq, Structural)]
pub enum GameState {
    Ready,
    Guide,
    Playing,
}

pub open spec fn tt_state_text(s: GameState, lang: Language) -> Seq<char> {
    match lang {
        Language::Ko => match s {
            GameState::Ready => "준비"@,
            GameState::Guide => "가이드"@,
            GameState::Playing => "게임 시작"@,
        },
        Language::En => match s {
            GameState::Ready => "Ready"@,
            GameState::Guide => "Guide"@,
            GameState::Playing => "Game Start"@,
        },
        Language::Ja => match s {
            GameState::Ready => "準備"@,
            GameState::Guide => "ガイド"@,
            GameState::Playing => "ゲーム開始"@,
        },
    }
}

impl GameState {
    /// The spoken name of the stage.
    pub fn gamestate_text(&self, lang: Language) -> (r: String)
        ensures
            r@ == tt_state_text(*self, lang),
    {
        let t: &str = match lang {
            Language::Ko => match self {
                GameState::Ready => "준비",
                GameState::Guide => "가이드",
                GameState::Playing => "게임 시작",
            },
            Language::En => match self {
                GameState::Ready => "Ready",
                GameState::Guide => "Guide",
                GameState::Playing => "Game Start",
            },
            Language::Ja => match self {
                GameState::Ready => "準備",
                GameState::Guide => "ガイド",
                GameState::Playing => "ゲーム開始",
            },
        };
        t.to_string()
    }
}

/// A question: the strength of the quiz box (1 to 5) and the position of the
/// box that matches it (1 to 3).
#[derive(Clone, Copy, Debug, PartialEq, Eq, Structural)]
pub struct Pattern {
    pub vibration: u8,
    pub answer_pos: usize,
}

/// The ten questions in order.
pub open spec fn patterns() -> Seq<Pattern> {
    seq![
        Pattern { vibration: 1, answer_pos: 3 },
        Pattern { vibration: 3, answer_pos: 1 },
        Pattern { vibration: 5, answer_pos: 2 },
        Pattern { vibration: 4, answer_pos: 3 },
        Pattern { vibration: 2, answer_pos: 1 },
        Pattern { vibration: 4, answer_pos: 1 },
        Pattern { vibration: 3, answer_pos: 2 },
        Pattern { vibration: 2, answer_pos: 3 },
        Pattern { vibration: 5, answer_pos: 2 },
        Pattern { vibration: 1, answer_pos: 2 },
    ]
}

/// Question `i` (`0..10`).
pub fn pattern_at(i: usize) -> (r: Pattern)
    requires
        i < 10,
    ensures
        r == patterns()[i as int],
{
    let v: [Pattern; 10] = [
        Pattern { vibration: 1, answer_pos: 3 },
        Pattern { vibration: 3, answer_pos: 1 },
        Pattern { vibration: 5, answer_pos: 2 },
        Pattern { vibration: 4, answer_pos: 3 },
        Pattern { vibration: 2, answer_pos: 1 },
        Pattern { vibration: 4, answer_pos: 1 },
        Pattern { vibration: 3, answer_pos: 2 },
        Pattern { vibration: 2, answer_pos: 3 },
        Pattern { vibration: 5, answer_pos: 2 },
        Pattern { vibration: 1, answer_pos: 2 },
    ];
    assert(v@ =~= patterns());
    v[i]
}

/// What the tactile test says.
#[derive(Clone, Copy, Debug, PartialEq, Eq, Structural)]
pub enum TtMessage {
    /// Greeting, with how to reach the guide or the test.
    Welcome,
    Guide1,
    Guide2,
    Guide3,
    Guide4,
    Guide5,
    Guide6,
    Guide7,
    Guide8,
    /// The test begins.
    StartTest,
    /// All questions were asked.
    TestComplete,
}

/// The spoken parts of a message.
pub open spec fn tt_segments(m: TtMessage, lang: Language) -> Seq<Seq<char>> {
    match m {
        TtMessage::Welcome => match lang {
            Language::Ko => seq!["촉지시험 테스트전에 패턴소개 페이지입니다."@, " 가이드 화면으로 넘어가려면 중앙키를,"@, " 테스트화면으로 넘어가려면 메뉴키를 눌러주세요,"@],
            Language::En => seq!["This is the pattern introduction page before the tactile test."@, " Press the center key to go to the guide screen, "@, "or the menu key to go to the test screen."@],
            Language::Ja => seq!["触覚試験テスト前のパターン紹介ページです。"@, "ガイド画面に移動するには中央キーを、"@, "テスト画面に移動するにはメニューキーを押してください。"@],
        },
        TtMessage::Guide1 => seq!["지금부터 점자 촉지게임 테스트 설명을 시작하겠습니다."@, "설명하는 부분이 깜박이고, 중앙키를 누르면 다음으로 넘어갑니다."@, "이전 설명을 다시 듣고 싶다면 기능키를 눌러주세요."@, "테스트를 시작하고 싶으시면 메뉴키를 눌러주세요."@],
        TtMessage::Guide2 => seq!["화면 위쪽에는 큰 사각형이 있어요."@, "이 사각형 안에서 점들이 일정한 빠르기로 움직여요."@],
        TtMessage::Guide3 => seq!["화면 아래쪽에는 작은 사각형이 3개 있어요."@, "이 사각형들 안에서도 점들이 움직이는데, 각각 빠르기가 달라요."@],
        TtMessage::Guide4 => seq!["아래쪽 사각형은 왼쪽부터 차례로 1번, 2번, 3번이에요."@],
        TtMessage::Guide5 => seq!["맨 아래의 타이머바는 1분동안 줄어들어요."@],
        TtMessage::Guide6 => seq!["먼저, 왼손이나 오른손 손가락으로 위쪽 큰 사각형을 만져서, 점이 움직이는 빠르기를 느껴 보세요."@],
        TtMessage::Guide7 => seq!["그 다음, 아래쪽에 있는 3개의 사각형을 하나씩 만져 보세요."@, "그 중에서 위쪽 사각형과 똑같은 빠르기로 움직이는 사각형을 찾은 다음 사각형의 번호를 말해보세요."@],
        TtMessage::Guide8 => seq!["가이드화면이 끝났어요 문제는 모두 10개예요."@, "준비되면 중앙키를 눌러주세요."@, "다시 들으시려면 기능키를 눌러주세요."@],
        TtMessage::StartTest => match lang {
            Language::Ko => seq!["지금부터 점자 디스플레이로 촉지게임 테스트를 시작하겠습니다. 게임시작"@],
            Language::En => seq!["We will now begin the tactile game test using the braille display. Game start."@],
            Language::Ja => seq!["ただいまから点字ディスプレイによる触覚ゲームテストを開始します。ゲーム開始"@],
        },
        TtMessage::TestComplete => match lang {
            Language::Ko => seq!["테스트를 모두 마쳤습니다. 고생했어요. 감사합니다."@],
            Language::En => seq!["The test is complete. Thank you for your hard work."@],
            Language::Ja => seq!["テストをすべて終了しました。お疲れ様でした。ありがとうございました。"@],
        },
    }
}

impl TtMessage {
    /// The spoken parts of the message in a language.
    pub fn segments(&self, lang: Language) -> (r: Vec<String>)
        ensures
            string_views(r@) == tt_segments(*self, lang),
    {
        let mut v: Vec<String> = Vec::new();
        match self {
            TtMessage::Welcome => {
                match lang {
                    Language::Ko => {
                        v.push("촉지시험 테스트전에 패턴소개 페이지입니다.".to_string());
                        v.push(" 가이드 화면으로 넘어가려면 중앙키를,".to_string());
                        v.push(" 테스트화면으로 넘어가려면 메뉴키를 눌러주세요,".to_string());
                        assert(string_views(v@) =~= seq!["촉지시험 테스트전에 패턴소개 페이지입니다."@, " 가이드 화면으로 넘어가려면 중앙키를,"@, " 테스트화면으로 넘어가려면 메뉴키를 눌러주세요,"@]);
                    },
                    Language::En => {
                        v.push("This is the pattern introduction page before the tactile test.".to_string());
                        v.push(" Press the center key to go to the guide screen, ".to_string());
                        v.push("or the menu key to go to the test screen.".to_string());
                        assert(string_views(v@) =~= seq!["This is the pattern introduction page before the tactile test."@, " Press the center key to go to the guide screen, "@, "or the menu key to go to the test screen."@]);
                    },
                    Language::Ja => {
                        v.push("触覚試験テスト前のパターン紹介ページです。".to_string());
                        v.push("ガイド画面に移動するには中央キーを、".to_string());
                        v.push("テスト画面に移動するにはメニューキーを押してください。".to_string());
                        assert(string_views(v@) =~= seq!["触覚試験テスト前のパターン紹介ページです。"@, "ガイド画面に移動するには中央キーを、"@, "テスト画面に移動するにはメニューキーを押してください。"@]);
                    },
                }
            },
            TtMessage::Guide1 => {
                v.push("지금부터 점자 촉지게임 테스트 설명을 시작하겠습니다.".to_string());
                v.push("설명하는 부분이 깜박이고, 중앙키를 누르면 다음으로 넘어갑니다.".to_string());
                v.push("이전 설명을 다시 듣고 싶다면 기능키를 눌러주세요.".to_string());
                v.push("테스트를 시작하고 싶으시면 메뉴키를 눌러주세요.".to_string());
                assert(string_views(v@) =~= seq!["지금부터 점자 촉지게임 테스트 설명을 시작하겠습니다."@, "설명하는 부분이 깜박이고, 중앙키를 누르면 다음으로 넘어갑니다."@, "이전 설명을 다시 듣고 싶다면 기능키를 눌러주세요."@, "테스트를 시작하고 싶으시면 메뉴키를 눌러주세요."@]);
            },
            TtMessage::Guide2 => {
                v.push("화면 위쪽에는 큰 사각형이 있어요.".to_string());
                v.push("이 사각형 안에서 점들이 일정한 빠르기로 움직여요.".to_string());
                assert(string_views(v@) =~= seq!["화면 위쪽에는 큰 사각형이 있어요."@, "이 사각형 안에서 점들이 일정한 빠르기로 움직여요."@]);
            },
            TtMessage::Guide3 => {
                v.push("화면 아래쪽에는 작은 사각형이 3개 있어요.".to_string());
                v.push("이 사각형들 안에서도 점들이 움직이는데, 각각 빠르기가 달라요.".to_string());
                assert(string_views(v@) =~= seq!["화면 아래쪽에는 작은 사각형이 3개 있어요."@, "이 사각형들 안에서도 점들이 움직이는데, 각각 빠르기가 달라요."@]);
            },
            TtMessage::Guide4 => {
                v.push("아래쪽 사각형은 왼쪽부터 차례로 1번, 2번, 3번이에요.".to_string());
                assert(string_views(v@) =~= seq!["아래쪽 사각형은 왼쪽부터 차례로 1번, 2번, 3번이에요."@]);
            },
            TtMessage::Guide5 => {
                v.push("맨 아래의 타이머바는 1분동안 줄어들어요.".to_string());
                assert(string_views(v@) =~= seq!["맨 아래의 타이머바는 1분동안 줄어들어요."@]);
            },
            TtMessage::Guide6 => {
                v.push("먼저, 왼손이나 오른손 손가락으로 위쪽 큰 사각형을 만져서, 점이 움직이는 빠르기를 느껴 보세요.".to_string());
                assert(string_views(v@) =~= seq!["먼저, 왼손이나 오른손 손가락으로 위쪽 큰 사각형을 만져서, 점이 움직이는 빠르기를 느껴 보세요."@]);
            },
            TtMessage::Guide7 => {
                v.push("그 다음, 아래쪽에 있는 3개의 사각형을 하나씩 만져 보세요.".to_string());
                v.push("그 중에서 위쪽 사각형과 똑같은 빠르기로 움직이는 사각형을 찾은 다음 사각형의 번호를 말해보세요.".to_string());
                assert(string_views(v@) =~= seq!["그 다음, 아래쪽에 있는 3개의 사각형을 하나씩 만져 보세요."@, "그 중에서 위쪽 사각형과 똑같은 빠르기로 움직이는 사각형을 찾은 다음 사각형의 번호를 말해보세요."@]);
            },
            TtMessage::Guide8 => {
                v.push("가이드화면이 끝났어요 문제는 모두 10개예요.".to_string());
                v.push("준비되면 중앙키를 눌러주세요.".to_string());
                v.push("다시 들으시려면 기능키를 눌러주세요.".to_string());
                assert(string_views(v@) =~= seq!["가이드화면이 끝났어요 문제는 모두 10개예요."@, "준비되면 중앙키를 눌러주세요."@, "다시 들으시려면 기능키를 눌러주세요."@]);
            },
            TtMessage::StartTest => {
                match lang {
                    Language::Ko => {
                        v.push("지금부터 점자 디스플레이로 촉지게임 테스트를 시작하겠습니다. 게임시작".to_string());
                        assert(string_views(v@) =~= seq!["지금부터 점자 디스플레이로 촉지게임 테스트를 시작하겠습니다. 게임시작"@]);
                    },
                    Language::En => {
                        v.push("We will now begin the tactile game test using the braille display. Game start.".to_string());
                        assert(string_views(v@) =~= seq!["We will now begin the tactile game test using the braille display. Game start."@]);
                    },
                    Language::Ja => {
                        v.push("ただいまから点字ディスプレイによる触覚ゲームテストを開始します。ゲーム開始".to_string());
                        assert(string_views(v@) =~= seq!["ただいまから点字ディスプレイによる触覚ゲームテストを開始します。ゲーム開始"@]);
                    },
                }
            },
            TtMessage::TestComplete => {
                match lang {
                    Language::Ko => {
                        v.push("테스트를 모두 마쳤습니다. 고생했어요. 감사합니다.".to_string());
                        assert(string_views(v@) =~= seq!["테스트를 모두 마쳤습니다. 고생했어요. 감사합니다."@]);
                    },
                    Language::En => {
                        v.push("The test is complete. Thank you for your hard work.".to_string());
                        assert(string_views(v@) =~= seq!["The test is complete. Thank you for your hard work."@]);
                    },
                    Language::Ja => {
                        v.push("テストをすべて終了しました。お疲れ様でした。ありがとうございました。".to_string());
                        assert(string_views(v@) =~= seq!["テストをすべて終了しました。お疲れ様でした。ありがとうございました。"@]);
                    },
                }
            },
        }
        v
    }
}


/// What a guide step says (nothing past the last step).
pub open spec fn guide_message(step: u8) -> Option<TtMessage> {
    if step == 1 { Some(TtMessage::Guide1) } else if step == 2 { Some(TtMessage::Guide2) }
    else if step == 3 { Some(TtMessage::Guide3) } else if step == 4 { Some(TtMessage::Guide4) }
    else if step == 5 { Some(TtMessage::Guide5) } else if step == 6 { Some(TtMessage::Guide6) }
    else if step == 7 { Some(TtMessage::Guide7) } else if step == 8 { Some(TtMessage::Guide8) }
    else { None }
}

fn guide_message_exec(step: u8) -> (r: Option<TtMessage>)
    ensures
        r == guide_message(step),
{
    match step {
        1 => Some(TtMessage::Guide1),
        2 => Some(TtMessage::Guide2),
        3 => Some(TtMessage::Guide3),
        4 => Some(TtMessage::Guide4),
        5 => Some(TtMessage::Guide5),
        6 => Some(TtMessage::Guide6),
        7 => Some(TtMessage::Guide7),
        8 => Some(TtMessage::Guide8),
        _ => None,
    }
}

/// The announcement of a question, around its ordinal as the language says it.
pub open spec fn announcement(lang: Language, ordinal: Seq<char>) -> Seq<Seq<char>> {
    match lang {
        Language::Ko => seq![ordinal, "문제입니다. 위쪽 사각형부터 만져 보세요."@],
        Language::En => seq!["This is the "@, ordinal, " question. Please feel the upper square first."@],
        Language::Ja => seq![ordinal, "番目の問題です.上部の四角形から触ってみてください."@],
    }
}

/// The parts that announce a question.
pub fn build_quiz_announcement(lang: Language, ordinal: &str) -> (r: Vec<String>)
    ensures
        string_views(r@) == announcement(lang, ordinal@),
{
    let mut v: Vec<String> = Vec::new();
    match lang {
        Language::Ko => {
            v.push(ordinal.to_string());
            v.push("문제입니다. 위쪽 사각형부터 만져 보세요.".to_string());
        },
        Language::En => {
            v.push("This is the ".to_string());
            v.push(ordinal.to_string());
            v.push(" question. Please feel the upper square first.".to_string());
        },
        Language::Ja => {
            v.push(ordinal.to_string());
            v.push("番目の問題です.上部の四角形から触ってみてください.".to_string());
        },
    }
    assert(string_views(v@) =~= announcement(lang, ordinal@));
    v
}

/// How long the opening announcement takes in a language, in milliseconds.
pub open spec fn opening_delay(lang: Language) -> u64 {
    match lang {
        Language::Ko => 5500,
        Language::En => 6000,
        Language::Ja => 6500,
    }
}

/// The strengths other than the answer, in rising order.
pub open spec fn candidates(answer: u8) -> Seq<u8> {
    seq![1u8, 2, 3, 4, 5].filter(other_than(answer))
}

/// Whether a strength differs from `answer`.
pub open spec fn other_than(answer: u8) -> spec_fn(u8) -> bool {
    |v: u8| v != answer
}

/// Fisher-Yates over `c[0..=i]` with the xorshift generator in state `s`.
pub open spec fn shuffle_candidates(c: Seq<u8>, s: u64, i: int) -> (Seq<u8>, u64)
    decreases i,
{
    if i < 1 {
        (c, s)
    } else {
        let s2 = xorshift(s);
        let j = (((s2 >> 16u64) as u32) as int) % (i + 1);
        shuffle_candidates(c.update(i, c[j]).update(j, c[i]), s2, i - 1)
    }
}

/// The three strengths of a question: the answer at its position, the first two
/// shuffled candidates in the other places, in order.
pub open spec fn quiz_levels(answer: u8, pos: int, shuffled: Seq<u8>) -> Seq<u8> {
    Seq::new(3, |k: int| if k == pos { answer } else if k < pos { shuffled[k] } else { shuffled[k - 1] })
}

/// A question as asked.
pub struct Quiz {
    pub vibration_levels: Vec<u8>,
    pub quiz_index: usize,
    pub answer: u8,
}

/// What the test asks its host to do.
#[derive(Clone, Copy, Debug, PartialEq, Eq, Structural)]
pub enum TtEffect {
    Say(TtMessage),
    /// Say the opening, then announce question `n` (its ordinal in the language).
    SayOpening(usize),
    /// Announce question `n`.
    AnnounceQuiz(usize),
    /// Fill the countdown back to its limit.
    RefillTimer,
    /// Set the limit and the countdown to one minute.
    ResetTimer,
    /// Select the first answer and scroll the answer bar back.
    ResetAnswerBar,
    /// Lay out the answer bar again.
    RebuildLayout,
}

/// The test.
pub struct TactileTest {
    pub state: GameState,
    pub previous_state: Option<GameState>,
    pub quiz_count: usize,
    pub rng: Rng,
    pub quiz_bag: Vec<usize>,
    pub quiz: Option<Quiz>,
    pub tick: i16,
    /// When the current question's countdown starts, in milliseconds.
    pub quiz_start_time: Option<u64>,
    pub should_exit: bool,
    pub guide_step: u8,
}

impl TactileTest {
    /// The test at its start page, its generator seeded from `seed`.
    pub fn new(seed: u64) -> (r: Self)
        ensures
            r.state == GameState::Ready,
            r.previous_state is None,
            r.quiz_count == 1,
            r.rng@ == (seed | 1u64),
            r.quiz is None,
            r.tick == 0,
            r.quiz_start_time is None,
            !r.should_exit,
            r.guide_step == 1,
    {
        TactileTest {
            state: GameState::Ready,
            previous_state: None,
            quiz_count: 1,
            rng: Rng::new(seed),
            quiz_bag: Vec::new(),
            quiz: None,
            tick: 0,
            quiz_start_time: None,
            should_exit: false,
            guide_step: 1,
        }
    }

    /// Asks the question of the current number (the patterns repeat after ten):
    /// the answer at its position and two shuffled other strengths elsewhere; the
    /// countdown is refilled and the answer bar reset.
    pub fn next_quiz(&mut self, effects: &mut Vec<TtEffect>)
        requires
            old(self).quiz_count >= 1,
        ensures
            ({
                let p = patterns()[(old(self).quiz_count - 1) % 10];
                let (sh, s) = shuffle_candidates(candidates(p.vibration), old(self).rng@, 3);
                &&& final(self).rng@ == s
                &&& final(self).quiz matches Some(q) && q.quiz_index == p.answer_pos - 1 && q.answer == p.vibration
                    && q.vibration_levels@ == quiz_levels(p.vibration, p.answer_pos - 1, sh)
            }),
            final(effects)@ == old(effects)@ + seq![TtEffect::RefillTimer, TtEffect::ResetAnswerBar],
            final(self).state == old(self).state,
            final(self).quiz_count == old(self).quiz_count,
            final(self).guide_step == old(self).guide_step,
            final(self).quiz_start_time == old(self).quiz_start_time,
            final(self).previous_state == old(self).previous_state,
    {
        let p = pattern_at((self.quiz_count - 1) % 10);
        let quiz_index = p.answer_pos - 1;
        let answer = p.vibration;
        let mut cands: Vec<u8> = Vec::new();
        let mut v: u8 = 1;
        let ghost all = seq![1u8, 2, 3, 4, 5];
        while v <= 5
            invariant
                1 <= v <= 6,
                all == seq![1u8, 2, 3, 4, 5],
                cands@ == all.take(v - 1).filter(other_than(answer)),
            decreases 6 - v,
        {
            proof {
                assert(all.take(v as int) =~= all.take(v - 1).push(v));
                all.take(v - 1).lemma_filter_push(v, other_than(answer));
            }
            if v != answer {
                cands.push(v);
            }
            v += 1;
        }
        assert(all.take(5) =~= all);
        assert(cands.len() == 4) by {
            assert(1 <= answer <= 5) by {
                let q = (self.quiz_count - 1) % 10;
                assert(patterns()[q as int].vibration >= 1 && patterns()[q as int].vibration <= 5);
            }
            assert(all.take(0).filter(other_than(answer)) =~= Seq::<u8>::empty()) by {
                reveal(vstd::seq::Seq::filter);
            }
            assert forall|m: int| 0 <= m <= 5 implies #[trigger] all.take(m).filter(other_than(answer)).len()
                == m - (if answer as int <= m { 1int } else { 0 }) by {
                lemma_count_filter(all, answer, m);
            }
        }
        let ghost s0 = self.rng@;
        let mut i: usize = 3;
        while i >= 1
            invariant
                i <= 3,
                cands.len() == 4,
                shuffle_candidates(cands@, self.rng@, i as int) == shuffle_candidates(candidates(answer), s0, 3),
                self.state == old(self).state,
                self.quiz_count == old(self).quiz_count,
                self.guide_step == old(self).guide_step,
                self.quiz_start_time == old(self).quiz_start_time,
                self.previous_state == old(self).previous_state,
                s0 == old(self).rng@,
            decreases i,
        {
            let ghost before = cands@;
            let r = self.rng.next_u32();
            let j = (r as usize) % (i + 1);
            let a = cands[i];
            let b = cands[j];
            cands.set(i, b);
            cands.set(j, a);
            assert(cands@ == before.update(i as int, before[j as int]).update(j as int, before[i as int]));
            i -= 1;
        }
        let mut levels: Vec<u8> = Vec::new();
        let mut k: usize = 0;
        let mut ci: usize = 0;
        while k < 3
            invariant
                k <= 3,
                quiz_index < 3,
                cands.len() == 4,
                ci as int == if k > quiz_index { k - 1 } else { k as int },
                levels@ == quiz_levels(answer, quiz_index as int, cands@).take(k as int),
            decreases 3 - k,
        {
            if k == quiz_index {
                levels.push(answer);
            } else {
                levels.push(cands[ci]);
                ci += 1;
            }
            assert(levels@ =~= quiz_levels(answer, quiz_index as int, cands@).take(k + 1));
            k += 1;
        }
        assert(quiz_levels(answer, quiz_index as int, cands@).take(3) =~= quiz_levels(answer, quiz_index as int, cands@));
        self.quiz = Some(Quiz { vibration_levels: levels, quiz_index, answer });
        effects.push(TtEffect::RefillTimer);
        effects.push(TtEffect::ResetAnswerBar);
        assert(effects@ =~= old(effects)@ + seq![TtEffect::RefillTimer, TtEffect::ResetAnswerBar]);
    }
}


pub proof fn lemma_count_filter(all: Seq<u8>, answer: u8, m: int)
    requires
        all == seq![1u8, 2, 3, 4, 5],
        1 <= answer <= 5,
        0 <= m <= 5,
    ensures
        all.take(m).filter(other_than(answer)).len() == m - (if answer as int <= m { 1int } else { 0 }),
    decreases m,
{
    if m == 0 {
        assert(all.take(0) =~= Seq::<u8>::empty());
        assert(Seq::<u8>::empty().filter(other_than(answer)) =~= Seq::<u8>::empty()) by {
            reveal(vstd::seq::Seq::filter);
        }
    } else {
        lemma_count_filter(all, answer, m - 1);
        assert(all.take(m) =~= all.take(m - 1).push(all[m - 1]));
        all.take(m - 1).lemma_filter_push(all[m - 1], other_than(answer));
        assert(all[m - 1] == m as u8);
    }
}


impl TactileTest {
    /// Back to the start page: progress, questions and guide step reset, the
    /// countdown and the answer bar set up anew.
    pub fn reset_game(&mut self, effects: &mut Vec<TtEffect>)
        ensures
            final(self).state == GameState::Ready,
            final(self).previous_state is None,
            final(self).quiz_count == 1,
            final(self).quiz is None,
            final(self).quiz_bag@.len() == 0,
            final(self).guide_step == 1,
            final(self).quiz_start_time == old(self).quiz_start_time,
            final(self).rng@ == old(self).rng@,
            final(effects)@ == old(effects)@ + seq![TtEffect::ResetTimer, TtEffect::RebuildLayout],
    {
        self.state = GameState::Ready;
        self.previous_state = None;
        self.quiz_count = 1;
        effects.push(TtEffect::ResetTimer);
        self.quiz = None;
        self.quiz_bag.clear();
        self.guide_step = 1;
        effects.push(TtEffect::RebuildLayout);
        assert(effects@ =~= old(effects)@ + seq![TtEffect::ResetTimer, TtEffect::RebuildLayout]);
    }

    /// Moves to a guide step and says it (nothing for a step past the last).
    pub fn set_guide_step(&mut self, step: u8, effects: &mut Vec<TtEffect>)
        ensures
            final(self).guide_step == step,
            final(self).tick == 0,
            final(self).state == old(self).state,
            final(self).quiz_count == old(self).quiz_count,
            final(self).rng@ == old(self).rng@,
            final(effects)@ == old(effects)@ + match guide_message(step) {
                Some(m) => seq![TtEffect::Say(m)],
                None => Seq::empty(),
            },
    {
        self.guide_step = step;
        self.tick = 0;
        match guide_message_exec(step) {
            Some(m) => {
                effects.push(TtEffect::Say(m));
                assert(effects@ =~= old(effects)@ + seq![TtEffect::Say(m)]);
            },
            None => {
                assert(effects@ =~= old(effects)@ + Seq::empty());
            },
        }
    }

    /// Starts the questions: the first one is asked, the opening and its
    /// announcement are said, and the countdown starts once they are over.
    pub fn start_real_game(&mut self, lang: Language, now: u64, effects: &mut Vec<TtEffect>)
        requires
            now <= u64::MAX - 6500,
        ensures
            final(self).state == GameState::Playing,
            final(self).quiz_count == 1,
            final(self).quiz_start_time == Some((now + opening_delay(lang)) as u64),
            final(self).guide_step == old(self).guide_step,
            final(effects)@ == old(effects)@ + seq![TtEffect::RefillTimer, TtEffect::ResetAnswerBar,
                TtEffect::SayOpening(1), TtEffect::RefillTimer],
            ({
                let p = patterns()[0];
                let (sh, s) = shuffle_candidates(candidates(p.vibration), old(self).rng@, 3);
                &&& final(self).rng@ == s
                &&& final(self).quiz matches Some(q) && q.quiz_index == p.answer_pos - 1 && q.answer == p.vibration
                    && q.vibration_levels@ == quiz_levels(p.vibration, p.answer_pos - 1, sh)
            }),
    {
        self.state = GameState::Playing;
        self.quiz_count = 1;
        self.next_quiz(effects);
        effects.push(TtEffect::SayOpening(self.quiz_count));
        let delay: u64 = match lang {
            Language::Ko => 5500,
            Language::En => 6000,
            Language::Ja => 6500,
        };
        self.quiz_start_time = Some(now + delay);
        effects.push(TtEffect::RefillTimer);
    }

    /// A key press. At the start page Center opens the guide and Menu starts the
    /// test. In the guide Center goes on (and starts the test after the last
    /// step), Menu starts the test, Function goes back a step (from the last
    /// step, to the first; at the first step it stays there and repeats it), so
    /// the guide's step stays between 1 and 8. While testing, Center asks the next
    /// question, and after the tenth ends the test.
    pub fn handle_key_event(&mut self, code: KeyCode, lang: Language, now: u64, effects: &mut Vec<TtEffect>)
        requires
            old(self).quiz_count >= 1,
            old(self).quiz_count < usize::MAX,
            now <= u64::MAX - 6500,
        ensures
            final(self).quiz_count >= 1,
            old(self).state == GameState::Guide && 1 <= old(self).guide_step <= 8 ==> final(self).state == GameState::Playing
                || (final(self).state == GameState::Guide && 1 <= final(self).guide_step <= 8),
            old(self).state == GameState::Ready ==> match code {
                KeyCode::Center => final(self).state == GameState::Guide && final(self).guide_step == 1
                    && final(effects)@ == old(effects)@.push(TtEffect::Say(TtMessage::Guide1)),
                KeyCode::Menu => final(self).state == GameState::Playing && final(self).quiz_count == 1
                    && final(self).quiz_start_time == Some((now + opening_delay(lang)) as u64),
                _ => final(self).state == old(self).state && final(effects)@ == old(effects)@,
            },
            old(self).state == GameState::Guide ==> match code {
                KeyCode::Center => if old(self).guide_step < 8 {
                    final(self).guide_step == old(self).guide_step + 1 && final(self).state == GameState::Guide
                } else {
                    final(self).state == GameState::Playing && final(self).quiz_count == 1
                },
                KeyCode::Menu => final(self).state == GameState::Playing && final(self).quiz_count == 1,
                KeyCode::Function => final(self).state == GameState::Guide && final(self).guide_step == if old(self).guide_step == 8 {
                    1
                } else if old(self).guide_step > 1 {
                    (old(self).guide_step - 1) as u8
                } else {
                    1
                },
                _ => final(self).state == old(self).state && final(effects)@ == old(effects)@,
            },
            old(self).state == GameState::Playing ==> if code == KeyCode::Center {
                if old(self).quiz_count >= 10 {
                    final(self).state == GameState::Ready && final(self).quiz_count == 1
                        && final(effects)@ == old(effects)@ + seq![TtEffect::ResetTimer, TtEffect::RebuildLayout,
                        TtEffect::Say(TtMessage::TestComplete)]
                } else {
                    final(self).state == GameState::Playing && final(self).quiz_count == old(self).quiz_count + 1
                        && final(self).quiz_start_time == Some(now)
                        && final(effects)@ == old(effects)@ + seq![TtEffect::RefillTimer, TtEffect::ResetAnswerBar,
                        TtEffect::AnnounceQuiz((old(self).quiz_count + 1) as usize)]
                }
            } else {
                final(self).state == old(self).state && final(self).quiz_count == old(self).quiz_count
                    && final(effects)@ == old(effects)@
            },
    {
        match self.state {
            GameState::Ready => {
                if code == KeyCode::Center {
                    self.state = GameState::Guide;
                    self.guide_step = 1;
                    self.set_guide_step(1, effects);
                    assert(effects@ =~= old(effects)@.push(TtEffect::Say(TtMessage::Guide1)));
                } else if code == KeyCode::Menu {
                    self.start_real_game(lang, now, effects);
                }
            },
            GameState::Guide => match code {
                KeyCode::Center => {
                    if self.guide_step < 8 {
                        self.set_guide_step(self.guide_step + 1, effects);
                    } else {
                        self.start_real_game(lang, now, effects);
                    }
                },
                KeyCode::Menu => {
                    self.start_real_game(lang, now, effects);
                },
                KeyCode::Function => {
                    if self.guide_step == 8 || self.guide_step <= 1 {
                        self.set_guide_step(1, effects);
                    } else {
                        self.set_guide_step(self.guide_step - 1, effects);
                    }
                },
                _ => {},
            },
            GameState::Playing => {
                if code == KeyCode::Center {
                    if self.quiz_count >= 10 {
                        self.reset_game(effects);
                        effects.push(TtEffect::Say(TtMessage::TestComplete));
                        assert(effects@ =~= old(effects)@ + seq![TtEffect::ResetTimer, TtEffect::RebuildLayout,
                            TtEffect::Say(TtMessage::TestComplete)]);
                    } else {
                        self.quiz_count = self.quiz_count + 1;
                        self.next_quiz(effects);
                        self.quiz_start_time = Some(now);
                        effects.push(TtEffect::AnnounceQuiz(self.quiz_count));
                        assert(effects@ =~= old(effects)@ + seq![TtEffect::RefillTimer, TtEffect::ResetAnswerBar,
                            TtEffect::AnnounceQuiz((old(self).quiz_count + 1) as usize)]);
                    }
                }
            },
        }
    }

    /// The frame's tick; returns whether the guide's blinking steps need a redraw
    /// (the countdown and the answer bar are the host's).
    pub fn advance_tick(&mut self) -> (r: bool)
        ensures
            final(self).tick == (if old(self).tick == i16::MAX { i16::MIN as int } else { old(self).tick + 1 }) as i16,
            r == (final(self).state == GameState::Guide && 2 <= final(self).guide_step <= 5),
            final(self).state == old(self).state,
            final(self).guide_step == old(self).guide_step,
    {
        self.tick = self.tick.wrapping_add(1);
        self.state == GameState::Guide && 2 <= self.guide_step && self.guide_step <= 5
    }
}


/// The blinking strength of a vibration level (1 to 5); other levels are off.
pub open spec fn level_blink(level: u8) -> Option<u8> {
    if level == 1 { Some(36u8) } else if level == 2 { Some(72u8) } else if level == 3 { Some(109u8) }
    else if level == 4 { Some(145u8) } else if level == 5 { Some(182u8) } else { None }
}

/// The blinking strength of a level, `None` when the pin is off.
pub fn get_level_intensity(level: u8) -> (r: Option<u8>)
    ensures
        r == level_blink(level),
{
    match level {
        1 => Some(36),
        2 => Some(72),
        3 => Some(109),
        4 => Some(145),
        5 => Some(182),
        _ => None,
    }
}

/// The guide's blink phase: on for 15 frames, off for 15.
pub open spec fn blink_on(tick: i16) -> bool {
    crate::audio_test::tdiv(tick as int, 15) % 2 == 0
}

/// Whether the quiz box's border shows: it blinks in step 2, shows otherwise.
pub open spec fn quiz_border_shown(step: u8, tick: i16) -> bool {
    if step == 2 { blink_on(tick) } else { true }
}

/// Whether answer box `idx` shows its border: all blink together in step 3; in
/// step 4 each blinks in turn for 25 frames of every 100; otherwise they show.
pub open spec fn panel_shown(step: u8, tick: i16, idx: int) -> bool {
    if step == 3 {
        blink_on(tick)
    } else if step == 4 {
        let sub = trem(tick as int, 100);
        let turn = if sub < 25 { 0int } else if sub < 50 { 1int } else if sub < 75 { 2int } else { 3int };
        if turn == idx { crate::audio_test::tdiv(sub, 5) % 2 == 0 } else { true }
    } else {
        true
    }
}

/// Rust's remainder, with the sign of the dividend.
pub open spec fn trem(a: int, b: int) -> int {
    if a >= 0 { a % b } else { -((-a) % b) }
}

/// Rust's remainder (sign of the dividend).
fn rem(a: i16, b: i16) -> (r: i16)
    requires
        b > 0,
    ensures
        r as int == trem(a as int, b as int),
{
    if a >= 0 {
        a % b
    } else {
        let m = (-(a as i32)) % (b as i32);
        -(m as i16)
    }
}

impl TactileTest {
    /// Whether the quiz box's border shows in the guide now.
    pub fn guide_quiz_border(&self) -> (r: bool)
        ensures
            r == quiz_border_shown(self.guide_step, self.tick),
    {
        if self.guide_step == 2 {
            let q = self.tick / 15;
            q % 2 == 0
        } else {
            true
        }
    }

    /// Whether answer box `idx` (`0..3`) shows its border in the guide now.
    pub fn guide_panel_border(&self, idx: usize) -> (r: bool)
        requires
            idx < 3,
        ensures
            r == panel_shown(self.guide_step, self.tick, idx as int),
    {
        if self.guide_step == 3 {
            let q = self.tick / 15;
            q % 2 == 0
        } else if self.guide_step == 4 {
            let sub = rem(self.tick, 100);
            let turn: usize = if sub < 25 { 0 } else if sub < 50 { 1 } else if sub < 75 { 2 } else { 3 };
            if turn == idx { (sub / 5) % 2 == 0 } else { true }
        } else {
            true
        }
    }

    /// Whether the timer bar blinks on in the guide now (step 5 only).
    pub fn guide_timer_bar(&self) -> (r: bool)
        ensures
            r == (self.guide_step == 5 && blink_on(self.tick)),
    {
        self.guide_step == 5 && (self.tick / 15) % 2 == 0
    }
}

/// The vibration level that fills answer box `idx` in the guide's step 7.
pub fn guide_fill_level(idx: usize) -> (r: u8)
    ensures
        r == if idx == 0 { 5u8 } else if idx == 1 { 2u8 } else if idx == 2 { 4u8 } else { 0u8 },
{
    match idx {
        0 => 5,
        1 => 2,
        2 => 4,
        _ => 0,
    }
}

} // verus!
