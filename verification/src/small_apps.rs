//! Small applets: the braille sample viewer, the mirroring notice and the
//! network test, and the list bars that the test applets show.
use vstd::prelude::*;
use crate::input::{KeyCode, Language};
use crate::text::{decimal, decimal_string};
use crate::speech::string_views;

verus! {

broadcast use vstd::string::group_string_axioms;

/// The sample texts of the braille viewer.
pub open spec fn samples() -> Seq<Seq<char>> {
    seq![
        "2024 개정 한국 점자 규정 (braillify 수동 스크롤 테스트)"@,
        "안녕하세요! 다자 점자 디스플레이 수동 스크롤 기능 검증 문구입니다."@,
        "Hello World! This is a long English text to test manual scrolling on Label."@,
        "1234567890 !@#$%^&*()"@,
    ]
}

/// Sample `i` (`0..4`).
pub fn sample(i: usize) -> (r: &'static str)
    requires
        i < 4,
    ensures
        r@ == samples()[i as int],
{
    if i == 0 {
        "2024 개정 한국 점자 규정 (braillify 수동 스크롤 테스트)"
    } else if i == 1 {
        "안녕하세요! 다자 점자 디스플레이 수동 스크롤 기능 검증 문구입니다."
    } else if i == 2 {
        "Hello World! This is a long English text to test manual scrolling on Label."
    } else {
        "1234567890 !@#$%^&*()"
    }
}

/// What a key does in the braille viewer.
#[derive(Clone, Copy, Debug, PartialEq, Eq, Structural)]
pub enum ViewerAction {
    Idle,
    /// Show and say the sample at this index.
    ShowSample(usize),
    ScrollLeft,
    ScrollRight,
    /// Say the current sample.
    SaySample(usize),
}

/// A key press in the braille viewer: Up and Down go to the previous or next
/// sample, wrapping around; Left and Right scroll; Center says the sample.
pub fn viewer_key(index: usize, code: KeyCode) -> (r: ViewerAction)
    requires
        index < 4,
    ensures
        r == match code {
            KeyCode::Up => ViewerAction::ShowSample(if index == 0 { 3 } else { (index - 1) as usize }),
            KeyCode::Down => ViewerAction::ShowSample(((index + 1) % 4) as usize),
            KeyCode::Left => ViewerAction::ScrollLeft,
            KeyCode::Right => ViewerAction::ScrollRight,
            KeyCode::Center => ViewerAction::SaySample(index),
            _ => ViewerAction::Idle,
        },
{
    match code {
        KeyCode::Up => ViewerAction::ShowSample(if index == 0 { 3 } else { index - 1 }),
        KeyCode::Down => ViewerAction::ShowSample((index + 1) % 4),
        KeyCode::Left => ViewerAction::ScrollLeft,
        KeyCode::Right => ViewerAction::ScrollRight,
        KeyCode::Center => ViewerAction::SaySample(index),
        _ => ViewerAction::Idle,
    }
}

/// Going to the next sample then the previous one returns to the start.
pub proof fn law_viewer_down_up(index: usize)
    requires
        index < 4,
    ensures
        ({
            let n = ((index + 1) % 4) as usize;
            (if n == 0 { 3 } else { (n - 1) as usize }) == index
        }),
{
}

/// The notices of the mirroring applet.
#[derive(Clone, Copy, Debug, PartialEq, Eq, Structural)]
pub enum MirrorMessage {
    Start,
    Stop,
}

pub open spec fn mirror_text(m: MirrorMessage, lang: Language) -> Seq<char> {
    match m {
        MirrorMessage::Start => match lang {
            Language::Ko => "미러링 시작"@,
            Language::En => "Mirroring Started"@,
            Language::Ja => "ミラーリング開始"@,
        },
        MirrorMessage::Stop => match lang {
            Language::Ko => "미러링 종료"@,
            Language::En => "Mirroring Finished"@,
            Language::Ja => "ミラーリング終了"@,
        },
    }
}

impl MirrorMessage {
    /// The notice in a language.
    pub fn text(&self, lang: Language) -> (r: &'static str)
        ensures
            r@ == mirror_text(*self, lang),
    {
        match self {
            MirrorMessage::Start => match lang {
                Language::Ko => "미러링 시작",
                Language::En => "Mirroring Started",
                Language::Ja => "ミラーリング開始",
            },
            MirrorMessage::Stop => match lang {
                Language::Ko => "미러링 종료",
                Language::En => "Mirroring Finished",
                Language::Ja => "ミラーリング終了",
            },
        }
    }
}

/// The network test's requests: a name and an address.
pub open spec fn test_urls() -> Seq<(Seq<char>, Seq<char>)> {
    seq![
        ("HTTP GET (httpbin)"@, "https://httpbin.org/get"@),
        ("Delay 2s (httpbin)"@, "https://httpbin.org/delay/2"@),
        ("Teapot 418 (httpbin)"@, "https://httpbin.org/status/418"@),
    ]
}

/// Request `i` (`0..3`): its name and address.
pub fn test_url(i: usize) -> (r: (&'static str, &'static str))
    requires
        i < 3,
    ensures
        (r.0@, r.1@) == test_urls()[i as int],
{
    if i == 0 {
        ("HTTP GET (httpbin)", "https://httpbin.org/get")
    } else if i == 1 {
        ("Delay 2s (httpbin)", "https://httpbin.org/delay/2")
    } else {
        ("Teapot 418 (httpbin)", "https://httpbin.org/status/418")
    }
}

/// The network test's state.
pub struct NetworkTest {
    pub selected_index: usize,
    pub last_request_id: Option<u32>,
    pub status_text: String,
    pub speech_output: Option<Vec<String>>,
}

pub open spec fn opt_parts(o: Option<Vec<String>>) -> Option<Seq<Seq<char>>> {
    match o {
        Some(v) => Some(string_views(v@)),
        None => None,
    }
}

fn parts2(a: &str, b: &str) -> (r: Vec<String>)
    ensures
        string_views(r@) == seq![a@, b@],
{
    let mut v: Vec<String> = Vec::new();
    v.push(a.to_string());
    v.push(b.to_string());
    assert(string_views(v@) =~= seq![a@, b@]);
    v
}

fn parts3(a: &str, b: &str, c: &str) -> (r: Vec<String>)
    ensures
        string_views(r@) == seq![a@, b@, c@],
{
    let mut v: Vec<String> = Vec::new();
    v.push(a.to_string());
    v.push(b.to_string());
    v.push(c.to_string());
    assert(string_views(v@) =~= seq![a@, b@, c@]);
    v
}

/// The words said when the selection moves up (`up`) or down, by language.
pub open spec fn move_words(up: bool, lang: Language) -> Seq<char> {
    match lang {
        Language::Ko => if up { "위로 이동. "@ } else { "아래로 이동. "@ },
        Language::En => if up { "Move up. "@ } else { "Move down. "@ },
        Language::Ja => if up { "上に移動。 "@ } else { "下に移動。 "@ },
    }
}

/// What is said when a request starts.
pub open spec fn start_words(lang: Language) -> Seq<char> {
    match lang {
        Language::Ko => "요청을 시작합니다."@,
        Language::En => "Starting request."@,
        Language::Ja => "リクエストを開始します。"@,
    }
}

/// What is said of a reply.
pub open spec fn reply_parts(lang: Language, status: u16) -> Seq<Seq<char>> {
    match lang {
        Language::Ko => seq!["HTTP 응답 수신. 상태 코드 "@, decimal(status as nat), "번."@],
        Language::En => seq!["HTTP response received. Status code "@, decimal(status as nat), "."@],
        Language::Ja => seq!["HTTPレスポンス受信。ステータスコード "@, decimal(status as nat), "番。"@],
    }
}

impl NetworkTest {
    /// The first request selected, ready, with a greeting to say.
    pub fn new() -> (r: Self)
        ensures
            r.selected_index == 0,
            r.last_request_id is None,
            r.status_text@ == "준비 완료"@,
            opt_parts(r.speech_output) == Some(seq!["네트워크 테스트 앱에 진입했습니다. 옵션을 선택하고 가운데 버튼을 누르세요."@]),
    {
        let mut v: Vec<String> = Vec::new();
        v.push("네트워크 테스트 앱에 진입했습니다. 옵션을 선택하고 가운데 버튼을 누르세요.".to_string());
        assert(string_views(v@) =~= seq!["네트워크 테스트 앱에 진입했습니다. 옵션을 선택하고 가운데 버튼을 누르세요."@]);
        NetworkTest { selected_index: 0, last_request_id: None, status_text: "준비 완료".to_string(), speech_output: Some(v) }
    }

    /// A key press: Up and Down move the selection and say the request; Center
    /// starts the selected request when none is under way and returns its
    /// address for the host to fetch. Returns whether to redraw and the address.
    /// An address is handed out only while no request is pending, so with
    /// `request_sent` and `reply_received` at most one request is in flight.
    pub fn handle_key(&mut self, code: KeyCode, lang: Language) -> (r: (bool, Option<&'static str>))
        requires
            old(self).selected_index < 3,
        ensures
            final(self).selected_index < 3,
            final(self).last_request_id == old(self).last_request_id,
            r.1 is Some ==> old(self).last_request_id is None,
            code == KeyCode::Up && old(self).selected_index > 0 ==> {
                &&& final(self).selected_index == old(self).selected_index - 1
                &&& final(self).status_text@ == "준비 완료"@
                &&& opt_parts(final(self).speech_output) == Some(seq![move_words(true, lang), test_urls()[final(self).selected_index as int].0])
                &&& r == (true, None::<&'static str>)
            },
            code == KeyCode::Down && old(self).selected_index < 2 ==> {
                &&& final(self).selected_index == old(self).selected_index + 1
                &&& final(self).status_text@ == "준비 완료"@
                &&& opt_parts(final(self).speech_output) == Some(seq![move_words(false, lang), test_urls()[final(self).selected_index as int].0])
                &&& r == (true, None::<&'static str>)
            },
            code == KeyCode::Center && old(self).last_request_id is None ==> {
                &&& final(self).selected_index == old(self).selected_index
                &&& final(self).status_text@ == "요청 중..."@
                &&& opt_parts(final(self).speech_output) == Some(seq![start_words(lang)])
                &&& r.0
                &&& (r.1 matches Some(u) && u@ == test_urls()[old(self).selected_index as int].1)
            },
            !(code == KeyCode::Up && old(self).selected_index > 0) && !(code == KeyCode::Down && old(self).selected_index < 2)
                && !(code == KeyCode::Center && old(self).last_request_id is None) ==> {
                &&& final(self).selected_index == old(self).selected_index
                &&& final(self).status_text@ == old(self).status_text@
                &&& opt_parts(final(self).speech_output) == opt_parts(old(self).speech_output)
                &&& r == (false, None::<&'static str>)
            },
    {
        let up_words: &str = match lang {
            Language::Ko => "위로 이동. ",
            Language::En => "Move up. ",
            Language::Ja => "上に移動。 ",
        };
        let down_words: &str = match lang {
            Language::Ko => "아래로 이동. ",
            Language::En => "Move down. ",
            Language::Ja => "下に移動。 ",
        };
        match code {
            KeyCode::Up => {
                if self.selected_index > 0 {
                    self.selected_index -= 1;
                    self.status_text = "준비 완료".to_string();
                    self.speech_output = Some(parts2(up_words, test_url(self.selected_index).0));
                    return (true, None);
                }
                (false, None)
            },
            KeyCode::Down => {
                if self.selected_index < 2 {
                    self.selected_index += 1;
                    self.status_text = "준비 완료".to_string();
                    self.speech_output = Some(parts2(down_words, test_url(self.selected_index).0));
                    return (true, None);
                }
                (false, None)
            },
            KeyCode::Center => {
                if self.last_request_id.is_none() {
                    self.status_text = "요청 중...".to_string();
                    let w: &str = match lang {
                        Language::Ko => "요청을 시작합니다.",
                        Language::En => "Starting request.",
                        Language::Ja => "リクエストを開始します。",
                    };
                    let mut v: Vec<String> = Vec::new();
                    v.push(w.to_string());
                    assert(string_views(v@) =~= seq![start_words(lang)]);
                    self.speech_output = Some(v);
                    return (true, Some(test_url(self.selected_index).1));
                }
                (false, None)
            },
            _ => (false, None),
        }
    }

    /// The request was sent (`Ok` with its id) or refused with an error code.
    pub fn request_sent(&mut self, sent: Result<u32, i32>, lang: Language)
        ensures
            final(self).selected_index == old(self).selected_index,
            match sent {
                Ok(id) => final(self).last_request_id == Some(id) && final(self).status_text@ == old(self).status_text@
                    && opt_parts(final(self).speech_output) == opt_parts(old(self).speech_output),
                Err(code) => final(self).last_request_id == old(self).last_request_id
                    && final(self).status_text@ == "오류: "@ + code_text(code)
                    && opt_parts(final(self).speech_output) == Some(seq![send_failure_words(lang), code_text(code)]),
            },
    {
        match sent {
            Ok(id) => {
                self.last_request_id = Some(id);
            },
            Err(code) => {
                let n = crate::text::decimal_string(if code >= 0 { code as u64 } else { 0 });
                let neg = code < 0;
                let num = if neg { signed_text(code) } else { n };
                let mut st = String::new();
                crate::text::push_str(&mut st, "오류: ");
                crate::text::push_str(&mut st, num.as_str());
                self.status_text = st;
                let w: &str = match lang {
                    Language::Ko => "요청 전송 실패. 에러 코드 ",
                    Language::En => "Failed to send request. Error code ",
                    Language::Ja => "リクエスト送信失敗。エラーコード ",
                };
                self.speech_output = Some(parts2(w, num.as_str()));
            },
        }
    }

    /// A reply came for the request under way: its status is shown and said and
    /// the request is done.
    pub fn reply_received(&mut self, status: u16, lang: Language)
        ensures
            final(self).selected_index == old(self).selected_index,
            final(self).last_request_id is None,
            final(self).status_text@ == "HTTP "@ + decimal(status as nat),
            opt_parts(final(self).speech_output) == Some(reply_parts(lang, status)),
    {
        let n = decimal_string(status as u64);
        let mut st = String::new();
        crate::text::push_str(&mut st, "HTTP ");
        crate::text::push_str(&mut st, n.as_str());
        self.status_text = st;
        let v = match lang {
            Language::Ko => parts3("HTTP 응답 수신. 상태 코드 ", n.as_str(), "번."),
            Language::En => parts3("HTTP response received. Status code ", n.as_str(), "."),
            Language::Ja => parts3("HTTPレスポンス受信。ステータスコード ", n.as_str(), "番。"),
        };
        self.speech_output = Some(v);
        self.last_request_id = None;
    }
}

/// An error code as written.
pub open spec fn code_text(code: i32) -> Seq<char> {
    if code >= 0 { decimal(code as nat) } else { "-"@ + decimal((-(code as int)) as nat) }
}

/// What is said when a request cannot be sent, before the error code.
pub open spec fn send_failure_words(lang: Language) -> Seq<char> {
    match lang {
        Language::Ko => "요청 전송 실패. 에러 코드 "@,
        Language::En => "Failed to send request. Error code "@,
        Language::Ja => "リクエスト送信失敗。エラーコード "@,
    }
}

/// The decimal numeral of a negative number, with its sign.
fn signed_text(code: i32) -> (r: String)
    requires
        code < 0,
    ensures
        r@ == "-"@ + decimal((-(code as int)) as nat),
{
    let mag: u64 = (-(code as i64)) as u64;
    let mut s = String::new();
    crate::text::push_str(&mut s, "-");
    crate::text::push_decimal(&mut s, mag);
    s
}

/// The bars of a test menu: for each of `count` entries a bar two rows high at
/// rows `2 + 5 i` and `3 + 5 i`, from column 2 up to `x_end`, full for the
/// selected entry and faint (30) otherwise; column by column within each bar.
pub open spec fn index_bars(count: int, selected: int, x_end: int, k: int) -> Seq<(int, int, u8)>
    decreases k,
{
    if k <= 0 {
        Seq::empty()
    } else {
        let i = k - 1;
        let v: u8 = if i == selected { 255 } else { 30 };
        index_bars(count, selected, x_end, k - 1) + bar_columns(2 + 5 * i, v, x_end - 2)
    }
}

pub open spec fn bar_columns(y: int, v: u8, n: int) -> Seq<(int, int, u8)>
    decreases n,
{
    if n <= 0 {
        Seq::empty()
    } else {
        bar_columns(y, v, n - 1) + seq![(2 + n - 1, y, v), (2 + n - 1, y + 1, v)]
    }
}

/// The pins of a test menu's bars (see `index_bars`).
pub fn index_bar_pins(count: usize, selected: usize, x_end: i16) -> (r: Vec<(i16, i16, u8)>)
    requires
        count <= 1000,
        2 <= x_end <= 1000,
    ensures
        r@.map_values(|p: (i16, i16, u8)| (p.0 as int, p.1 as int, p.2)) == index_bars(count as int, selected as int, x_end as int, count as int),
{
    let mut out: Vec<(i16, i16, u8)> = Vec::new();
    let mut i: usize = 0;
    while i < count
        invariant
            count <= 1000,
            2 <= x_end <= 1000,
            i <= count,
            out@.map_values(|p: (i16, i16, u8)| (p.0 as int, p.1 as int, p.2)) == index_bars(count as int, selected as int, x_end as int, i as int),
        decreases count - i,
    {
        let v: u8 = if i == selected { 255 } else { 30 };
        let y: i16 = 2 + (i as i16) * 5;
        let ghost head = out@.map_values(|p: (i16, i16, u8)| (p.0 as int, p.1 as int, p.2));
        let mut x: i16 = 2;
        while x < x_end
            invariant
                2 <= x <= x_end <= 1000,
                y == 2 + 5 * i,
                i < count <= 1000,
                out@.map_values(|p: (i16, i16, u8)| (p.0 as int, p.1 as int, p.2)) == head + bar_columns(y as int, v, x - 2),
            decreases x_end - x,
        {
            let ghost before = out@.map_values(|p: (i16, i16, u8)| (p.0 as int, p.1 as int, p.2));
            out.push((x, y, v));
            out.push((x, y + 1, v));
            assert(out@.map_values(|p: (i16, i16, u8)| (p.0 as int, p.1 as int, p.2)) =~= before + seq![(x as int, y as int, v), (x as int, y + 1, v)]);
            x += 1;
        }
        assert(out@.map_values(|p: (i16, i16, u8)| (p.0 as int, p.1 as int, p.2)) =~= index_bars(count as int, selected as int, x_end as int, i + 1));
        i += 1;
    }
    out
}

} // verus!
