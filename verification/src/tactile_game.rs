//! The tactile game: feel the vibration of the quiz box and pick the same
//! strength on the answer bar, against a time limit.
//!
//! The time limit is a fractional countdown that the host keeps; the game tells
//! it when to refill it or cut it, and the host reports when it runs out.
use vstd::prelude::*;
use crate::input::{KeyCode, Language};
use crate::text::{decimal, decimal_string};
use crate::speech::string_views;
use crate::cross_memory::{Rng, xorshift};
use crate::tetris::lemma_swap_keeps;

verus! {

broadcast use vstd::string::group_string_axioms;

/// The five vibration strengths of the answers (on a scale of 0 to 15).
pub open spec fn vibration_levels() -> Seq<u8> {
    seq![3u8, 6, 9, 12, 15]
}

/// The stages of the game.
#[derive(Clone, Copy, Debug, PartialEq, Eq, Structural)]
pub enum GameState {
    Ready,
    Playing,
    Reset,
    GameOver,
    Stop,
}

pub open spec fn tg_state_text(s: GameState, lang: Language) -> Seq<char> {
    match lang {
        Language::Ko => match s {
            GameState::Ready => "준비"@,
            GameState::Playing => "게임 시작"@,
            GameState::Reset => "다시시작"@,
            GameState::GameOver => "게임 종료"@,
            GameState::Stop => "일시정지"@,
        },
        Language::En => match s {
            GameState::Ready => "Ready"@,
            GameState::Playing => "Game Start"@,
            GameState::Reset => "Reset"@,
            GameState::GameOver => "Game Over"@,
            GameState::Stop => "Stop"@,
        },
        Language::Ja => match s {
            GameState::Ready => "準備"@,
            GameState::Playing => "ゲーム開始"@,
            GameState::Reset => "再スタート"@,
            GameState::GameOver => "ゲーム終了"@,
            GameState::Stop => "一時停止"@,
        },
    }
}

impl GameState {
    /// The spoken name of the stage.
    pub fn gamestate_text(&self, lang: Language) -> (r: String)
        ensures
            r@ == tg_state_text(*self, lang),
    {
        let t: &str = match lang {
            Language::Ko => match self {
                GameState::Ready => "준비",
                GameState::Playing => "게임 시작",
                GameState::Reset => "다시시작",
                GameState::GameOver => "게임 종료",
                GameState::Stop => "일시정지",
            },
            Language::En => match self {
                GameState::Ready => "Ready",
                GameState::Playing => "Game Start",
                GameState::Reset => "Reset",
                GameState::GameOver => "Game Over",
                GameState::Stop => "Stop",
            },
            Language::Ja => match self {
                GameState::Ready => "準備",
                GameState::Playing => "ゲーム開始",
                GameState::Reset => "再スタート",
                GameState::GameOver => "ゲーム終了",
                GameState::Stop => "一時停止",
            },
        };
        t.to_string()
    }
}

/// What the tactile game says.
#[derive(Clone, Copy, Debug, PartialEq, Eq, Structural)]
pub enum TgMessage {
    Welcome,
    StartGame,
    ConfirmResetProgress,
    Paused,
    Correct,
    Incorrect,
    Restarting,
    BackToStart,
    Resumed,
    ConfirmReset,
    ResetDone,
    ResetCancelled,
    /// The number of the next question.
    NextQuestion(usize),
    /// Time ran out: the score, then the number of the next question.
    TimeOut(usize, usize),
    /// The answer bar moved to a level (counted from one).
    LevelVibration(usize),
}

/// The spoken parts of a message.
pub open spec fn tg_segments(m: TgMessage, lang: Language) -> Seq<Seq<char>> {
    match m {
        TgMessage::Welcome => match lang {
            Language::Ko => seq!["촉각 게임에 오신 것을 환영합니다. 센터 키를 누르면 즉시 게임이 시작됩니다."@],
            Language::En => seq!["Welcome to Tactile Game! Press Center key to start."@],
            Language::Ja => seq!["触覚ゲームへようこそ！センターキーを押すとすぐにゲームが開始されます。"@],
        },
        TgMessage::StartGame => match lang {
            Language::Ko => seq!["게임을 시작합니다. "@, "위의 퀴즈 상자를 손가락으로 만져보고, "@, "아래 선택 바에서 같은 강도의 진동을 찾아 선택해 보세요."@],
            Language::En => seq!["Start game. "@, " Feel the quiz box at the top, "@, "and choose the same vibration intensity in the answer bar below."@],
            Language::Ja => seq!["ゲームを開始します。"@, "上のクイズボックスを指で触って、"@, "下の選択バーから同じ強さの振動を探して選択してください。"@],
        },
        TgMessage::ConfirmResetProgress => match lang {
            Language::Ko => seq!["정말로 게임 점수와 진행률을 초기화하시겠습니까? 가운데 키를 누르면 완전히 초기화하고, 펑션 키를 누르면 취소합니다."@],
            Language::En => seq!["Are you sure you want to reset your score and progress? Press Center to confirm, Function to cancel."@],
            Language::Ja => seq!["本当にゲームスコアと進行状況を初期化しますか？中央キーを押すと初期化し、ファンクションキーを押すとキャンセルします。"@],
        },
        TgMessage::Paused => match lang {
            Language::Ko => seq!["일시정지"@],
            Language::En => seq!["Stop"@],
            Language::Ja => seq!["一時停止"@],
        },
        TgMessage::Correct => match lang {
            Language::Ko => seq!["정답입니다!"@],
            Language::En => seq!["Correct!"@],
            Language::Ja => seq!["正解です！"@],
        },
        TgMessage::Incorrect => match lang {
            Language::Ko => seq!["틀렸습니다. "@, "시간 패널티가 주어집니다. "@, "다시 선택해 보세요."@],
            Language::En => seq!["Incorrect. "@, "Time penalty applied. "@, "Please try choosing again."@],
            Language::Ja => seq!["違います。 "@, "時間ペナルティが与えられます。 "@, "もう一度選んでみてください。"@],
        },
        TgMessage::Restarting => match lang {
            Language::Ko => seq!["게임을 다시 시작합니다."@],
            Language::En => seq!["Restarting game."@],
            Language::Ja => seq!["ゲームを再スタートします。"@],
        },
        TgMessage::BackToStart => match lang {
            Language::Ko => seq!["대기 화면으로 돌아왔습니다."@],
            Language::En => seq!["Returned to start screen."@],
            Language::Ja => seq!["待機画面に戻りました。"@],
        },
        TgMessage::Resumed => match lang {
            Language::Ko => seq!["게임을 재개합니다."@],
            Language::En => seq!["Game resumed."@],
            Language::Ja => seq!["ゲームを再開します。"@],
        },
        TgMessage::ConfirmReset => match lang {
            Language::Ko => seq!["정말로 게임을 초기화하시겠습니까? 가운데 키를 누르면 초기화하고, 펑션 키를 누르면 취소합니다."@],
            Language::En => seq!["Are you sure you want to reset? Press Center to confirm, Function to cancel."@],
            Language::Ja => seq!["本当にゲームを初期化しますか？中央キーを押すと初期化し、ファンクションキーを押すとキャンセルします。"@],
        },
        TgMessage::ResetDone => match lang {
            Language::Ko => seq!["게임을 초기화했습니다. 메인 화면입니다."@],
            Language::En => seq!["Game has been reset. Back to main screen."@],
            Language::Ja => seq!["ゲームを初期化しました。メイン画面です。"@],
        },
        TgMessage::ResetCancelled => match lang {
            Language::Ko => seq!["초기화를 취소하고 일시정지 화면으로 돌아왔습니다."@],
            Language::En => seq!["Reset cancelled. Back to pause screen."@],
            Language::Ja => seq!["初期化をキャンセルし、一時停止画面に戻りました。"@],
        },
        TgMessage::NextQuestion(n) => match lang {
            Language::Ko => seq![decimal(n as nat), "번 문제."@],
            Language::En => seq!["Question "@, decimal(n as nat), "."@],
            Language::Ja => seq![decimal(n as nat), "番の問題"@],
        },
        TgMessage::TimeOut(score, n) => match lang {
            Language::Ko => seq!["시간이 초과되어 1점이 감점되었습니다. 현재 점수는 "@, decimal(score as nat), "점입니다. 다음 "@, decimal(n as nat), "번 문제입니다."@],
            Language::En => seq!["Time out! 1 point deducted. Current score is "@, decimal(score as nat), " points. Next, question "@, decimal(n as nat), "."@],
            Language::Ja => seq!["時間切れです！1点減点されました。現在のスコアは"@, decimal(score as nat), "点です。次の問"@, decimal(n as nat), "です。"@],
        },
        TgMessage::LevelVibration(k) => match lang {
            Language::Ko => seq![decimal(k as nat), "단계 진동"@],
            Language::En => seq!["Level "@, decimal(k as nat), " vibration"@],
            Language::Ja => seq![decimal(k as nat), "段階の振動"@],
        },
    }
}

impl TgMessage {
    /// The spoken parts of the message in a language.
    pub fn segments(&self, lang: Language) -> (r: Vec<String>)
        ensures
            string_views(r@) == tg_segments(*self, lang),
    {
        let mut v: Vec<String> = Vec::new();
        match self {
            TgMessage::Welcome => {
                match lang {
                    Language::Ko => {
                        v.push("촉각 게임에 오신 것을 환영합니다. 센터 키를 누르면 즉시 게임이 시작됩니다.".to_string());
                        assert(string_views(v@) =~= seq!["촉각 게임에 오신 것을 환영합니다. 센터 키를 누르면 즉시 게임이 시작됩니다."@]);
                    },
                    Language::En => {
                        v.push("Welcome to Tactile Game! Press Center key to start.".to_string());
                        assert(string_views(v@) =~= seq!["Welcome to Tactile Game! Press Center key to start."@]);
                    },
                    Language::Ja => {
                        v.push("触覚ゲームへようこそ！センターキーを押すとすぐにゲームが開始されます。".to_string());
                        assert(string_views(v@) =~= seq!["触覚ゲームへようこそ！センターキーを押すとすぐにゲームが開始されます。"@]);
                    },
                }
            },
            TgMessage::StartGame => {
                match lang {
                    Language::Ko => {
                        v.push("게임을 시작합니다. ".to_string());
                        v.push("위의 퀴즈 상자를 손가락으로 만져보고, ".to_string());
                        v.push("아래 선택 바에서 같은 강도의 진동을 찾아 선택해 보세요.".to_string());
                        assert(string_views(v@) =~= seq!["게임을 시작합니다. "@, "위의 퀴즈 상자를 손가락으로 만져보고, "@, "아래 선택 바에서 같은 강도의 진동을 찾아 선택해 보세요."@]);
                    },
                    Language::En => {
                        v.push("Start game. ".to_string());
                        v.push(" Feel the quiz box at the top, ".to_string());
                        v.push("and choose the same vibration intensity in the answer bar below.".to_string());
                        assert(string_views(v@) =~= seq!["Start game. "@, " Feel the quiz box at the top, "@, "and choose the same vibration intensity in the answer bar below."@]);
                    },
                    Language::Ja => {
                        v.push("ゲームを開始します。".to_string());
                        v.push("上のクイズボックスを指で触って、".to_string());
                        v.push("下の選択バーから同じ強さの振動を探して選択してください。".to_string());
                        assert(string_views(v@) =~= seq!["ゲームを開始します。"@, "上のクイズボックスを指で触って、"@, "下の選択バーから同じ強さの振動を探して選択してください。"@]);
                    },
                }
            },
            TgMessage::ConfirmResetProgress => {
                match lang {
                    Language::Ko => {
                        v.push("정말로 게임 점수와 진행률을 초기화하시겠습니까? 가운데 키를 누르면 완전히 초기화하고, 펑션 키를 누르면 취소합니다.".to_string());
                        assert(string_views(v@) =~= seq!["정말로 게임 점수와 진행률을 초기화하시겠습니까? 가운데 키를 누르면 완전히 초기화하고, 펑션 키를 누르면 취소합니다."@]);
                    },
                    Language::En => {
                        v.push("Are you sure you want to reset your score and progress? Press Center to confirm, Function to cancel.".to_string());
                        assert(string_views(v@) =~= seq!["Are you sure you want to reset your score and progress? Press Center to confirm, Function to cancel."@]);
                    },
                    Language::Ja => {
                        v.push("本当にゲームスコアと進行状況を初期化しますか？中央キーを押すと初期化し、ファンクションキーを押すとキャンセルします。".to_string());
                        assert(string_views(v@) =~= seq!["本当にゲームスコアと進行状況を初期化しますか？中央キーを押すと初期化し、ファンクションキーを押すとキャンセルします。"@]);
                    },
                }
            },
            TgMessage::Paused => {
                match lang {
                    Language::Ko => {
                        v.push("일시정지".to_string());
                        assert(string_views(v@) =~= seq!["일시정지"@]);
                    },
                    Language::En => {
                        v.push("Stop".to_string());
                        assert(string_views(v@) =~= seq!["Stop"@]);
                    },
                    Language::Ja => {
                        v.push("一時停止".to_string());
                        assert(string_views(v@) =~= seq!["一時停止"@]);
                    },
                }
            },
            TgMessage::Correct => {
                match lang {
                    Language::Ko => {
                        v.push("정답입니다!".to_string());
                        assert(string_views(v@) =~= seq!["정답입니다!"@]);
                    },
                    Language::En => {
                        v.push("Correct!".to_string());
                        assert(string_views(v@) =~= seq!["Correct!"@]);
                    },
                    Language::Ja => {
                        v.push("正解です！".to_string());
                        assert(string_views(v@) =~= seq!["正解です！"@]);
                    },
                }
            },
            TgMessage::Incorrect => {
                match lang {
                    Language::Ko => {
                        v.push("틀렸습니다. ".to_string());
                        v.push("시간 패널티가 주어집니다. ".to_string());
                        v.push("다시 선택해 보세요.".to_string());
                        assert(string_views(v@) =~= seq!["틀렸습니다. "@, "시간 패널티가 주어집니다. "@, "다시 선택해 보세요."@]);
                    },
                    Language::En => {
                        v.push("Incorrect. ".to_string());
                        v.push("Time penalty applied. ".to_string());
                        v.push("Please try choosing again.".to_string());
                        assert(string_views(v@) =~= seq!["Incorrect. "@, "Time penalty applied. "@, "Please try choosing again."@]);
                    },
                    Language::Ja => {
                        v.push("違います。 ".to_string());
                        v.push("時間ペナルティが与えられます。 ".to_string());
                        v.push("もう一度選んでみてください。".to_string());
                        assert(string_views(v@) =~= seq!["違います。 "@, "時間ペナルティが与えられます。 "@, "もう一度選んでみてください。"@]);
                    },
                }
            },
            TgMessage::Restarting => {
                match lang {
                    Language::Ko => {
                        v.push("게임을 다시 시작합니다.".to_string());
                        assert(string_views(v@) =~= seq!["게임을 다시 시작합니다."@]);
                    },
                    Language::En => {
                        v.push("Restarting game.".to_string());
                        assert(string_views(v@) =~= seq!["Restarting game."@]);
                    },
                    Language::Ja => {
                        v.push("ゲームを再スタートします。".to_string());
                        assert(string_views(v@) =~= seq!["ゲームを再スタートします。"@]);
                    },
                }
            },
            TgMessage::BackToStart => {
                match lang {
                    Language::Ko => {
                        v.push("대기 화면으로 돌아왔습니다.".to_string());
                        assert(string_views(v@) =~= seq!["대기 화면으로 돌아왔습니다."@]);
                    },
                    Language::En => {
                        v.push("Returned to start screen.".to_string());
                        assert(string_views(v@) =~= seq!["Returned to start screen."@]);
                    },
                    Language::Ja => {
                        v.push("待機画面に戻りました。".to_string());
                        assert(string_views(v@) =~= seq!["待機画面に戻りました。"@]);
                    },
                }
            },
            TgMessage::Resumed => {
                match lang {
                    Language::Ko => {
                        v.push("게임을 재개합니다.".to_string());
                        assert(string_views(v@) =~= seq!["게임을 재개합니다."@]);
                    },
                    Language::En => {
                        v.push("Game resumed.".to_string());
                        assert(string_views(v@) =~= seq!["Game resumed."@]);
                    },
                    Language::Ja => {
                        v.push("ゲームを再開します。".to_string());
                        assert(string_views(v@) =~= seq!["ゲームを再開します。"@]);
                    },
                }
            },
            TgMessage::ConfirmReset => {
                match lang {
                    Language::Ko => {
                        v.push("정말로 게임을 초기화하시겠습니까? 가운데 키를 누르면 초기화하고, 펑션 키를 누르면 취소합니다.".to_string());
                        assert(string_views(v@) =~= seq!["정말로 게임을 초기화하시겠습니까? 가운데 키를 누르면 초기화하고, 펑션 키를 누르면 취소합니다."@]);
                    },
                    Language::En => {
                        v.push("Are you sure you want to reset? Press Center to confirm, Function to cancel.".to_string());
                        assert(string_views(v@) =~= seq!["Are you sure you want to reset? Press Center to confirm, Function to cancel."@]);
                    },
                    Language::Ja => {
                        v.push("本当にゲームを初期化しますか？中央キーを押すと初期化し、ファンクションキーを押すとキャンセルします。".to_string());
                        assert(string_views(v@) =~= seq!["本当にゲームを初期化しますか？中央キーを押すと初期化し、ファンクションキーを押すとキャンセルします。"@]);
                    },
                }
            },
            TgMessage::ResetDone => {
                match lang {
                    Language::Ko => {
                        v.push("게임을 초기화했습니다. 메인 화면입니다.".to_string());
                        assert(string_views(v@) =~= seq!["게임을 초기화했습니다. 메인 화면입니다."@]);
                    },
                    Language::En => {
                        v.push("Game has been reset. Back to main screen.".to_string());
                        assert(string_views(v@) =~= seq!["Game has been reset. Back to main screen."@]);
                    },
                    Language::Ja => {
                        v.push("ゲームを初期化しました。メイン画面です。".to_string());
                        assert(string_views(v@) =~= seq!["ゲームを初期化しました。メイン画面です。"@]);
                    },
                }
            },
            TgMessage::ResetCancelled => {
                match lang {
                    Language::Ko => {
                        v.push("초기화를 취소하고 일시정지 화면으로 돌아왔습니다.".to_string());
                        assert(string_views(v@) =~= seq!["초기화를 취소하고 일시정지 화면으로 돌아왔습니다."@]);
                    },
                    Language::En => {
                        v.push("Reset cancelled. Back to pause screen.".to_string());
                        assert(string_views(v@) =~= seq!["Reset cancelled. Back to pause screen."@]);
                    },
                    Language::Ja => {
                        v.push("初期化をキャンセルし、一時停止画面に戻りました。".to_string());
                        assert(string_views(v@) =~= seq!["初期化をキャンセルし、一時停止画面に戻りました。"@]);
                    },
                }
            },
            TgMessage::NextQuestion(n) => {
                match lang {
                    Language::Ko => {
                        v.push(decimal_string(*n as u64));
                        v.push("번 문제.".to_string());
                        assert(string_views(v@) =~= seq![decimal(*n as nat), "번 문제."@]);
                    },
                    Language::En => {
                        v.push("Question ".to_string());
                        v.push(decimal_string(*n as u64));
                        v.push(".".to_string());
                        assert(string_views(v@) =~= seq!["Question "@, decimal(*n as nat), "."@]);
                    },
                    Language::Ja => {
                        v.push(decimal_string(*n as u64));
                        v.push("番の問題".to_string());
                        assert(string_views(v@) =~= seq![decimal(*n as nat), "番の問題"@]);
                    },
                }
            },
            TgMessage::TimeOut(score, n) => {
                match lang {
                    Language::Ko => {
                        v.push("시간이 초과되어 1점이 감점되었습니다. 현재 점수는 ".to_string());
                        v.push(decimal_string(*score as u64));
                        v.push("점입니다. 다음 ".to_string());
                        v.push(decimal_string(*n as u64));
                        v.push("번 문제입니다.".to_string());
                        assert(string_views(v@) =~= seq!["시간이 초과되어 1점이 감점되었습니다. 현재 점수는 "@, decimal(*score as nat), "점입니다. 다음 "@, decimal(*n as nat), "번 문제입니다."@]);
                    },
                    Language::En => {
                        v.push("Time out! 1 point deducted. Current score is ".to_string());
                        v.push(decimal_string(*score as u64));
                        v.push(" points. Next, question ".to_string());
                        v.push(decimal_string(*n as u64));
                        v.push(".".to_string());
                        assert(string_views(v@) =~= seq!["Time out! 1 point deducted. Current score is "@, decimal(*score as nat), " points. Next, question "@, decimal(*n as nat), "."@]);
                    },
                    Language::Ja => {
                        v.push("時間切れです！1点減点されました。現在のスコアは".to_string());
                        v.push(decimal_string(*score as u64));
                        v.push("点です。次の問".to_string());
                        v.push(decimal_string(*n as u64));
                        v.push("です。".to_string());
                        assert(string_views(v@) =~= seq!["時間切れです！1点減点されました。現在のスコアは"@, decimal(*score as nat), "点です。次の問"@, decimal(*n as nat), "です。"@]);
                    },
                }
            },
            TgMessage::LevelVibration(k) => {
                match lang {
                    Language::Ko => {
                        v.push(decimal_string(*k as u64));
                        v.push("단계 진동".to_string());
                        assert(string_views(v@) =~= seq![decimal(*k as nat), "단계 진동"@]);
                    },
                    Language::En => {
                        v.push("Level ".to_string());
                        v.push(decimal_string(*k as u64));
                        v.push(" vibration".to_string());
                        assert(string_views(v@) =~= seq!["Level "@, decimal(*k as nat), " vibration"@]);
                    },
                    Language::Ja => {
                        v.push(decimal_string(*k as u64));
                        v.push("段階の振動".to_string());
                        assert(string_views(v@) =~= seq![decimal(*k as nat), "段階の振動"@]);
                    },
                }
            },
        }
        v
    }
}


impl TgMessage {
    /// Whether the message interrupts what is being said.
    pub fn forced(&self) -> (r: bool)
        ensures
            r == (*self == TgMessage::StartGame || *self == TgMessage::Correct || *self is TimeOut),
    {
        match self {
            TgMessage::StartGame => true,
            TgMessage::Correct => true,
            TgMessage::TimeOut(_, _) => true,
            _ => false,
        }
    }
}

/// A question: the five strengths, the index of the right one and its strength.
pub struct Quiz {
    pub vibration_levels: Vec<u8>,
    pub quiz_index: usize,
    pub answer: u8,
}

impl Quiz {
    /// The question whose answer is the strength at `quiz_index` (`0..5`).
    pub fn new_with_index(quiz_index: usize) -> (r: Self)
        requires
            quiz_index < 5,
        ensures
            r.vibration_levels@ == vibration_levels(),
            r.quiz_index == quiz_index,
            r.answer == vibration_levels()[quiz_index as int],
    {
        let mut v: Vec<u8> = Vec::new();
        v.push(3);
        v.push(6);
        v.push(9);
        v.push(12);
        v.push(15);
        assert(v@ =~= vibration_levels());
        let answer = v[quiz_index];
        Quiz { vibration_levels: v, quiz_index, answer }
    }
}

/// What the game asks its host to do.
#[derive(Clone, Copy, Debug, PartialEq, Eq, Structural)]
pub enum TgEffect {
    Say(TgMessage),
    PlayCorrect,
    PlayIncorrect,
    /// Fill the countdown back to its limit.
    RefillTimer,
    /// Take one second off the countdown (not below zero).
    TimerPenalty,
    /// Set the limit and the countdown to their starting values.
    ResetTimer,
    /// Select the first answer and scroll the answer bar back.
    ResetAnswerBar,
    /// Lay out the answer bar again.
    RebuildLayout,
}

/// Fisher-Yates over `bag[0..=i]` with the xorshift generator in state `s`.
pub open spec fn bag_shuffle(bag: Seq<usize>, s: u64, i: int) -> (Seq<usize>, u64)
    decreases i,
{
    if i < 1 {
        (bag, s)
    } else {
        let s2 = xorshift(s);
        let j = (((s2 >> 16u64) as u32) as int) % (i + 1);
        bag_shuffle(bag.update(i, bag[j]).update(j, bag[i]), s2, i - 1)
    }
}

pub proof fn lemma_bag_shuffle_len(bag: Seq<usize>, s: u64, i: int)
    requires
        i < bag.len(),
    ensures
        bag_shuffle(bag, s, i).0.len() == bag.len(),
        forall|k: int| 0 <= k < bag.len() ==> #[trigger] bag_shuffle(bag, s, i).0[k] < 5
            || exists|m: int| 0 <= m < bag.len() && bag[m] >= 5,
    decreases i,
{
    if i >= 1 {
        let s2 = xorshift(s);
        let j = (((s2 >> 16u64) as u32) as int) % (i + 1);
        let b2 = bag.update(i, bag[j]).update(j, bag[i]);
        lemma_bag_shuffle_len(b2, s2, i - 1);
        if exists|m: int| 0 <= m < b2.len() && b2[m] >= 5 {
            let m = choose|m: int| 0 <= m < b2.len() && b2[m] >= 5;
            if m == j {
                assert(bag[i] >= 5);
            } else if m == i {
                assert(bag[j] >= 5);
            } else {
                assert(bag[m] >= 5);
            }
        }
    }
}

/// The question indices in order.
pub open spec fn fresh_bag() -> Seq<usize> {
    seq![0usize, 1, 2, 3, 4]
}

/// The game.
pub struct TactileGame {
    pub state: GameState,
    pub previous_state: Option<GameState>,
    pub quiz_count: usize,
    pub score: usize,
    pub rng: Rng,
    pub quiz_bag: Vec<usize>,
    pub quiz: Option<Quiz>,
    pub tick: i16,
    pub feedback_timer: i16,
    pub feedback_correct: Option<bool>,
}

/// The bag after the next question is drawn: refilled and shuffled when empty,
/// then its last index taken. Gives the bag, the index, and the generator state.
pub open spec fn draw_question(bag: Seq<usize>, s: u64) -> (Seq<usize>, usize, u64) {
    let (b, s2) = if bag.len() == 0 { bag_shuffle(fresh_bag(), s, 4) } else { (bag, s) };
    (b.drop_last(), b.last(), s2)
}

impl TactileGame {
    /// A game at the start screen, its generator seeded from `seed`.
    pub fn new(seed: u64) -> (r: Self)
        ensures
            r.state == GameState::Ready,
            r.previous_state is None,
            r.quiz_count == 1,
            r.score == 0,
            r.rng@ == (seed | 1u64),
            r.quiz_bag@.len() == 0,
            r.quiz is None,
            r.tick == 0,
            r.feedback_timer == 0,
            r.feedback_correct is None,
    {
        TactileGame {
            state: GameState::Ready,
            previous_state: None,
            quiz_count: 1,
            score: 0,
            rng: Rng::new(seed),
            quiz_bag: Vec::new(),
            quiz: None,
            tick: 0,
            feedback_timer: 0,
            feedback_correct: None,
        }
    }

    /// Draws the next question so that each of the five answers comes once in
    /// every five questions; the countdown is refilled and the answer bar reset.
    pub fn next_quiz(&mut self, effects: &mut Vec<TgEffect>)
        requires
            forall|k: int| 0 <= k < old(self).quiz_bag@.len() ==> #[trigger] old(self).quiz_bag@[k] < 5,
        ensures
            ({
                let (b, q, s) = draw_question(old(self).quiz_bag@, old(self).rng@);
                &&& final(self).quiz_bag@ == b
                &&& final(self).rng@ == s
                &&& final(self).quiz matches Some(qz) && qz.quiz_index == q && qz.answer == vibration_levels()[q as int]
                    && qz.vibration_levels@ == vibration_levels()
            }),
            forall|k: int| 0 <= k < final(self).quiz_bag@.len() ==> #[trigger] final(self).quiz_bag@[k] < 5,
            final(effects)@ == old(effects)@ + seq![TgEffect::RefillTimer, TgEffect::ResetAnswerBar],
            final(self).state == old(self).state,
            final(self).previous_state == old(self).previous_state,
            final(self).quiz_count == old(self).quiz_count,
            final(self).score == old(self).score,
            final(self).tick == old(self).tick,
            final(self).feedback_timer == old(self).feedback_timer,
            final(self).feedback_correct == old(self).feedback_correct,
    {
        if self.quiz_bag.len() == 0 {
            let mut bag: Vec<usize> = Vec::new();
            bag.push(0);
            bag.push(1);
            bag.push(2);
            bag.push(3);
            bag.push(4);
            assert(bag@ =~= fresh_bag());
            let ghost s0 = self.rng@;
            let mut i: usize = 4;
            while i >= 1
                invariant
                    i <= 4,
                    bag.len() == 5,
                    bag_shuffle(bag@, self.rng@, i as int) == bag_shuffle(fresh_bag(), s0, 4),
                    self.state == old(self).state,
                    self.previous_state == old(self).previous_state,
                    self.quiz_count == old(self).quiz_count,
                    self.score == old(self).score,
                    self.tick == old(self).tick,
                    self.feedback_timer == old(self).feedback_timer,
                    self.feedback_correct == old(self).feedback_correct,
                    self.quiz_bag@.len() == 0,
                    s0 == old(self).rng@,
                decreases i,
            {
                let ghost before = bag@;
                let r = self.rng.next_u32();
                let j = (r as usize) % (i + 1);
                let a = bag[i];
                let b = bag[j];
                bag.set(i, b);
                bag.set(j, a);
                assert(bag@ == before.update(i as int, before[j as int]).update(j as int, before[i as int]));
                i -= 1;
            }
            proof {
                lemma_bag_shuffle_len(fresh_bag(), s0, 4);
                assert(!exists|m: int| 0 <= m < fresh_bag().len() && fresh_bag()[m] >= 5);
            }
            self.quiz_bag = bag;
        }
        let ghost b = self.quiz_bag@;
        let idx = self.quiz_bag.pop().unwrap();
        assert(b[b.len() - 1] < 5);
        self.quiz = Some(Quiz::new_with_index(idx));
        effects.push(TgEffect::RefillTimer);
        effects.push(TgEffect::ResetAnswerBar);
        assert(effects@ =~= old(effects)@ + seq![TgEffect::RefillTimer, TgEffect::ResetAnswerBar]);
    }
}


/// The game as plain values; a question is its index and answer.
pub struct TgView {
    pub state: GameState,
    pub previous_state: Option<GameState>,
    pub quiz_count: usize,
    pub score: usize,
    pub rng: u64,
    pub bag: Seq<usize>,
    pub quiz: Option<(usize, u8)>,
    pub tick: i16,
    pub feedback_timer: i16,
    pub feedback_correct: Option<bool>,
}

/// The game after `next_quiz`.
pub open spec fn next_quiz_v(v: TgView) -> TgView {
    let (b, q, s) = draw_question(v.bag, v.rng);
    TgView { bag: b, rng: s, quiz: Some((q, vibration_levels()[q as int])), ..v }
}

pub open spec fn next_quiz_effects() -> Seq<TgEffect> {
    seq![TgEffect::RefillTimer, TgEffect::ResetAnswerBar]
}

/// The game after `reset_game`: back at the start screen with nothing asked.
pub open spec fn reset_v(v: TgView) -> TgView {
    TgView {
        state: GameState::Ready,
        previous_state: None,
        quiz_count: 1,
        score: 0,
        quiz: None,
        bag: Seq::empty(),
        feedback_correct: None,
        feedback_timer: 0,
        ..v
    }
}

pub open spec fn reset_effects() -> Seq<TgEffect> {
    seq![TgEffect::ResetTimer, TgEffect::RebuildLayout]
}

/// A new round of play: score and question number reset, first question drawn.
pub open spec fn play_v(v: TgView) -> TgView {
    next_quiz_v(TgView { state: GameState::Playing, quiz_count: 1, score: 0, ..v })
}

/// A key press in each stage (see `TactileGame::handle_key_event`); `selected` is
/// the answer bar's selection, when there is an answer bar.
pub open spec fn key_v(v: TgView, code: KeyCode, selected: Option<usize>) -> (TgView, Seq<TgEffect>) {
    let say = |m: TgMessage| TgEffect::Say(m);
    match v.state {
        GameState::Ready => if code == KeyCode::Center {
            (play_v(v), seq![TgEffect::RefillTimer] + next_quiz_effects() + seq![say(TgMessage::StartGame)])
        } else {
            (v, Seq::empty())
        },
        GameState::Playing => if v.feedback_timer > 0 {
            (v, Seq::empty())
        } else {
            match code {
                KeyCode::Menu => (
                    TgView { previous_state: Some(GameState::Playing), state: GameState::Reset, ..v },
                    seq![say(TgMessage::ConfirmResetProgress)],
                ),
                KeyCode::Function => (TgView { state: GameState::Stop, ..v }, seq![say(TgMessage::Paused)]),
                KeyCode::Center => match (v.quiz, selected) {
                    (Some((q, answer)), Some(i)) => if vibration_levels()[i as int] == answer {
                        (
                            TgView { score: (v.score + 10) as usize, feedback_correct: Some(true), feedback_timer: 20, ..v },
                            seq![TgEffect::PlayCorrect, say(TgMessage::Correct)],
                        )
                    } else {
                        (
                            TgView {
                                score: if v.score > 0 { (v.score - 1) as usize } else { 0 },
                                feedback_correct: Some(false),
                                feedback_timer: 20,
                                ..v
                            },
                            seq![TgEffect::TimerPenalty, TgEffect::PlayIncorrect, say(TgMessage::Incorrect)],
                        )
                    },
                    _ => (v, Seq::empty()),
                },
                _ => (v, Seq::empty()),
            }
        },
        GameState::GameOver => match code {
            KeyCode::Center | KeyCode::Function => (
                play_v(v),
                seq![TgEffect::RefillTimer] + next_quiz_effects() + seq![say(TgMessage::Restarting)],
            ),
            KeyCode::Menu => (reset_v(v), reset_effects() + seq![say(TgMessage::BackToStart)]),
            _ => (v, Seq::empty()),
        },
        GameState::Stop => match code {
            KeyCode::Function => (TgView { state: GameState::Playing, ..v }, seq![say(TgMessage::Resumed)]),
            KeyCode::Menu => (
                TgView { previous_state: Some(GameState::Stop), state: GameState::Reset, ..v },
                seq![say(TgMessage::ConfirmReset)],
            ),
            _ => (v, Seq::empty()),
        },
        GameState::Reset => match code {
            KeyCode::Center => (reset_v(v), reset_effects() + seq![say(TgMessage::ResetDone)]),
            KeyCode::Function => (
                TgView { state: GameState::Stop, previous_state: None, ..v },
                seq![say(TgMessage::ResetCancelled)],
            ),
            _ => (v, Seq::empty()),
        },
    }
}

/// The bag holds question indices only.
pub open spec fn bag_ok(v: TgView) -> bool {
    forall|k: int| 0 <= k < v.bag.len() ==> #[trigger] v.bag[k] < 5
}

impl TactileGame {
    pub open spec fn view(&self) -> TgView {
        TgView {
            state: self.state,
            previous_state: self.previous_state,
            quiz_count: self.quiz_count,
            score: self.score,
            rng: self.rng@,
            bag: self.quiz_bag@,
            quiz: match self.quiz {
                Some(q) => Some((q.quiz_index, q.answer)),
                None => None,
            },
            tick: self.tick,
            feedback_timer: self.feedback_timer,
            feedback_correct: self.feedback_correct,
        }
    }

    /// The question in play holds the five strengths.
    pub open spec fn wf(&self) -> bool {
        &&& bag_ok(self.view())
        &&& match self.quiz {
            Some(q) => q.vibration_levels@ == vibration_levels() && q.quiz_index < 5,
            None => true,
        }
    }

    fn draw_next(&mut self, effects: &mut Vec<TgEffect>)
        requires
            old(self).wf(),
        ensures
            final(self).wf(),
            final(self).view() == next_quiz_v(old(self).view()),
            final(effects)@ == old(effects)@ + next_quiz_effects(),
    {
        let ghost v = self.view();
        self.next_quiz(effects);
        proof {
            let (b, q, s) = draw_question(v.bag, v.rng);
            lemma_bag_shuffle_len(fresh_bag(), v.rng, 4);
            assert(!exists|m: int| 0 <= m < fresh_bag().len() && fresh_bag()[m] >= 5);
            if v.bag.len() == 0 {
                assert(bag_shuffle(fresh_bag(), v.rng, 4).0.len() == 5);
                assert(bag_shuffle(fresh_bag(), v.rng, 4).0[4] < 5);
            } else {
                assert(v.bag[v.bag.len() - 1] < 5);
            }
        }
        assert(self.view() =~= next_quiz_v(v));
    }

    /// Back to the start screen: progress, questions and feedback cleared, the
    /// countdown and the answer bar set up anew.
    pub fn reset_game(&mut self, effects: &mut Vec<TgEffect>)
        requires
            old(self).wf(),
        ensures
            final(self).wf(),
            final(self).view() == reset_v(old(self).view()),
            final(effects)@ == old(effects)@ + reset_effects(),
    {
        self.state = GameState::Ready;
        self.previous_state = None;
        self.quiz_count = 1;
        self.score = 0;
        self.quiz = None;
        self.quiz_bag.clear();
        self.feedback_correct = None;
        self.feedback_timer = 0;
        effects.push(TgEffect::ResetTimer);
        effects.push(TgEffect::RebuildLayout);
        assert(self.view() =~= reset_v(old(self).view()));
        assert(effects@ =~= old(effects)@ + reset_effects());
    }

    /// Handles a key press; `selected` is the answer bar's selection. A right answer
    /// earns ten points, a wrong one costs one (not below zero) and time.
    pub fn handle_key_event(&mut self, code: KeyCode, selected: Option<usize>, effects: &mut Vec<TgEffect>)
        requires
            old(self).wf(),
            old(self).score <= usize::MAX - 10,
            match selected {
                Some(i) => i < 5,
                None => true,
            },
        ensures
            final(self).wf(),
            final(self).view() == key_v(old(self).view(), code, selected).0,
            final(effects)@ == old(effects)@ + key_v(old(self).view(), code, selected).1,
    {
        let ghost v = self.view();
        match self.state {
            GameState::Ready => {
                if code == KeyCode::Center {
                    self.state = GameState::Playing;
                    self.quiz_count = 1;
                    self.score = 0;
                    effects.push(TgEffect::RefillTimer);
                    self.draw_next(effects);
                    effects.push(TgEffect::Say(TgMessage::StartGame));
                }
            },
            GameState::Playing => {
                if self.feedback_timer > 0 {
                    assert(effects@ =~= old(effects)@ + Seq::empty());
                    return;
                }
                match code {
                    KeyCode::Menu => {
                        self.previous_state = Some(self.state);
                        self.state = GameState::Reset;
                        effects.push(TgEffect::Say(TgMessage::ConfirmResetProgress));
                    },
                    KeyCode::Function => {
                        self.state = GameState::Stop;
                        effects.push(TgEffect::Say(TgMessage::Paused));
                    },
                    KeyCode::Center => {
                        let verdict: Option<bool> = match (&self.quiz, selected) {
                            (Some(quiz), Some(i)) => Some(quiz.vibration_levels[i] == quiz.answer),
                            _ => None,
                        };
                        match verdict {
                            Some(true) => {
                                self.score = self.score + 10;
                                self.feedback_correct = Some(true);
                                self.feedback_timer = 20;
                                effects.push(TgEffect::PlayCorrect);
                                effects.push(TgEffect::Say(TgMessage::Correct));
                            },
                            Some(false) => {
                                self.score = self.score.saturating_sub(1);
                                effects.push(TgEffect::TimerPenalty);
                                self.feedback_correct = Some(false);
                                self.feedback_timer = 20;
                                effects.push(TgEffect::PlayIncorrect);
                                effects.push(TgEffect::Say(TgMessage::Incorrect));
                            },
                            None => {},
                        }
                    },
                    _ => {},
                }
            },
            GameState::GameOver => match code {
                KeyCode::Center | KeyCode::Function => {
                    self.state = GameState::Playing;
                    self.score = 0;
                    self.quiz_count = 1;
                    effects.push(TgEffect::RefillTimer);
                    self.draw_next(effects);
                    effects.push(TgEffect::Say(TgMessage::Restarting));
                },
                KeyCode::Menu => {
                    self.reset_game(effects);
                    effects.push(TgEffect::Say(TgMessage::BackToStart));
                },
                _ => {},
            },
            GameState::Stop => match code {
                KeyCode::Function => {
                    self.state = GameState::Playing;
                    effects.push(TgEffect::Say(TgMessage::Resumed));
                },
                KeyCode::Menu => {
                    self.previous_state = Some(self.state);
                    self.state = GameState::Reset;
                    effects.push(TgEffect::Say(TgMessage::ConfirmReset));
                },
                _ => {},
            },
            GameState::Reset => match code {
                KeyCode::Center => {
                    self.reset_game(effects);
                    effects.push(TgEffect::Say(TgMessage::ResetDone));
                },
                KeyCode::Function => {
                    self.state = GameState::Stop;
                    self.previous_state = None;
                    effects.push(TgEffect::Say(TgMessage::ResetCancelled));
                },
                _ => {},
            },
        }
        assert(self.view() =~= key_v(v, code, selected).0);
        assert(effects@ =~= old(effects)@ + key_v(v, code, selected).1);
    }
}


/// The frame's feedback step: the tick advances; a running feedback counts down,
/// and when it ends after a right answer the next question is drawn and its
/// number said. Returns whether to redraw.
pub open spec fn feedback_v(v: TgView) -> (TgView, Seq<TgEffect>, bool) {
    let v0 = TgView { tick: (if v.tick == i16::MAX { i16::MIN as int } else { v.tick + 1 }) as i16, ..v };
    if v0.feedback_timer > 0 {
        let v1 = TgView { feedback_timer: (v0.feedback_timer - 1) as i16, ..v0 };
        if v1.feedback_timer == 0 {
            let correct = v1.feedback_correct == Some(true);
            let v2 = TgView { feedback_correct: None, ..v1 };
            if correct {
                let v3 = next_quiz_v(TgView { quiz_count: (v2.quiz_count + 1) as usize, ..v2 });
                (v3, next_quiz_effects().push(TgEffect::Say(TgMessage::NextQuestion(v3.quiz_count))), true)
            } else {
                (v2, Seq::empty(), true)
            }
        } else {
            (v1, Seq::empty(), true)
        }
    } else {
        (v0, Seq::empty(), false)
    }
}

/// The countdown ran out: a point is lost (not below zero) and the next question
/// is drawn and announced with the score.
pub open spec fn time_out_v(v: TgView) -> (TgView, Seq<TgEffect>) {
    let v1 = TgView { score: if v.score > 0 { (v.score - 1) as usize } else { 0 }, quiz_count: (v.quiz_count + 1) as usize, ..v };
    let v2 = next_quiz_v(v1);
    (v2, next_quiz_effects().push(TgEffect::Say(TgMessage::TimeOut(v2.score, v2.quiz_count))))
}

impl TactileGame {
    /// The frame's feedback step (see `feedback_v`).
    pub fn advance_feedback(&mut self, effects: &mut Vec<TgEffect>) -> (r: bool)
        requires
            old(self).wf(),
            old(self).quiz_count < usize::MAX,
        ensures
            final(self).wf(),
            final(self).view() == feedback_v(old(self).view()).0,
            final(effects)@ == old(effects)@ + feedback_v(old(self).view()).1,
            r == feedback_v(old(self).view()).2,
    {
        self.tick = self.tick.wrapping_add(1);
        let mut redraw = false;
        if self.feedback_timer > 0 {
            self.feedback_timer = self.feedback_timer - 1;
            redraw = true;
            if self.feedback_timer == 0 {
                let was_correct = self.feedback_correct == Some(true);
                self.feedback_correct = None;
                if was_correct {
                    self.quiz_count = self.quiz_count + 1;
                    self.draw_next(effects);
                    effects.push(TgEffect::Say(TgMessage::NextQuestion(self.quiz_count)));
                } else {
                    assert(effects@ =~= old(effects)@ + Seq::empty());
                }
            } else {
                assert(effects@ =~= old(effects)@ + Seq::empty());
            }
        } else {
            assert(effects@ =~= old(effects)@ + Seq::empty());
        }
        assert(self.view() =~= feedback_v(old(self).view()).0);
        redraw
    }

    /// Whether the countdown runs this frame: while playing, outside feedback.
    pub fn timer_running(&self) -> (r: bool)
        ensures
            r == (self.state == GameState::Playing && self.feedback_timer == 0),
    {
        self.state == GameState::Playing && self.feedback_timer == 0
    }

    /// The countdown ran out (see `time_out_v`).
    pub fn on_time_out(&mut self, effects: &mut Vec<TgEffect>)
        requires
            old(self).wf(),
            old(self).quiz_count < usize::MAX,
        ensures
            final(self).wf(),
            final(self).view() == time_out_v(old(self).view()).0,
            final(effects)@ == old(effects)@ + time_out_v(old(self).view()).1,
    {
        self.score = self.score.saturating_sub(1);
        self.quiz_count = self.quiz_count + 1;
        self.draw_next(effects);
        effects.push(TgEffect::Say(TgMessage::TimeOut(self.score, self.quiz_count)));
    }

    /// The answer bar's selection moved to `index`: its level (counted from one)
    /// is said.
    pub fn on_answer_moved(&self, index: usize, effects: &mut Vec<TgEffect>)
        requires
            index < usize::MAX,
        ensures
            final(effects)@ == old(effects)@.push(TgEffect::Say(TgMessage::LevelVibration((index + 1) as usize))),
    {
        effects.push(TgEffect::Say(TgMessage::LevelVibration(index + 1)));
    }
}


/// Shuffling keeps the bag free of repeats and keeps what it holds.
pub proof fn lemma_bag_shuffle_keeps(bag: Seq<usize>, s: u64, i: int)
    requires
        i < bag.len(),
        bag.no_duplicates(),
    ensures
        bag_shuffle(bag, s, i).0.len() == bag.len(),
        bag_shuffle(bag, s, i).0.no_duplicates(),
        forall|x: usize| bag_shuffle(bag, s, i).0.contains(x) <==> bag.contains(x),
    decreases i,
{
    if i >= 1 {
        let s2 = xorshift(s);
        let j = (((s2 >> 16u64) as u32) as int) % (i + 1);
        lemma_swap_keeps(bag, i, j);
        lemma_bag_shuffle_keeps(bag.update(i, bag[j]).update(j, bag[i]), s2, i - 1);
    }
}

/// Whatever the generator's state, a refilled bag holds each of the five answers
/// once, so the five questions drawn from it ask every strength.
pub proof fn law_quiz_bag_holds_each_answer_once(s: u64)
    ensures
        bag_shuffle(fresh_bag(), s, 4).0.len() == 5,
        bag_shuffle(fresh_bag(), s, 4).0.no_duplicates(),
        forall|q: usize| q < 5 ==> #[trigger] bag_shuffle(fresh_bag(), s, 4).0.contains(q),
{
    let b = fresh_bag();
    assert forall|q: usize| q < 5 implies b.contains(q) by {
        assert(b[q as int] == q);
    }
    lemma_bag_shuffle_keeps(b, s, 4);
    assert forall|q: usize| q < 5 implies #[trigger] bag_shuffle(b, s, 4).0.contains(q) by {
        assert(b.contains(q));
    }
}

} // verus!
