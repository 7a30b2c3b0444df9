//! The weather applet: finds where the device is from its network address
//! (with a second service as fallback), fetches the current weather there and
//! says it.
//!
//! The requests, their replies and the fractional values (coordinates and the
//! temperature) are the host's; the applet decides what to ask next, what state
//! it is in and what it says.
use vstd::prelude::*;
use crate::input::KeyCode;
use crate::text::{decimal, decimal_string, push_str};

verus! {

broadcast use vstd::string::group_string_axioms;

/// The Korean description of a WMO weather code.
pub open spec fn weather_desc(code: u32) -> Seq<char> {
    if code == 0 {
        "맑음"@
    } else if code == 1 {
        "대체로 맑음"@
    } else if code == 2 {
        "구름 조금"@
    } else if code == 3 {
        "흐림"@
    } else if code == 45 || code == 48 {
        "안개"@
    } else if code == 51 || code == 53 || code == 55 {
        "이슬비"@
    } else if code == 61 || code == 63 || code == 65 {
        "비"@
    } else if code == 71 || code == 73 || code == 75 {
        "눈"@
    } else if 80 <= code <= 82 {
        "소나기"@
    } else if code == 95 {
        "뇌우"@
    } else {
        "기타 날씨"@
    }
}

/// The description of a weather code.
pub fn get_weather_desc(code: u32) -> (r: &'static str)
    ensures
        r@ == weather_desc(code),
{
    match code {
        0 => "맑음",
        1 => "대체로 맑음",
        2 => "구름 조금",
        3 => "흐림",
        45 | 48 => "안개",
        51 | 53 | 55 => "이슬비",
        61 | 63 | 65 => "비",
        71 | 73 | 75 => "눈",
        80..=82 => "소나기",
        95 => "뇌우",
        _ => "기타 날씨",
    }
}

/// Whether a weather code is drawn with falling drops (drizzle, rain, showers,
/// thunderstorm).
pub open spec fn rainy(code: u32) -> bool {
    code == 51 || code == 53 || code == 55 || code == 61 || code == 63 || code == 65 || (80 <= code <= 82)
        || code == 95
}

/// The stages of the applet.
#[derive(Clone, Debug)]
pub enum WeatherState {
    Init,
    LocatingPrimary,
    LocatingBackup,
    /// Fetching the weather of a city.
    FetchingWeather(String),
    /// The weather of a city: the temperature as written, and the weather code.
    Ready(String, String, u32),
    /// What went wrong.
    Error(String),
}

/// The applet.
pub struct WeatherApp {
    pub state: WeatherState,
    pub last_request_id: Option<u32>,
    pub speech_output: Option<String>,
}

/// The sentence said when the weather is known.
pub open spec fn ready_sentence(city: Seq<char>, temp: Seq<char>, code: u32) -> Seq<char> {
    "현재 위치는 "@ + city + "이며, 기온은 "@ + temp + "도, 날씨는 "@ + weather_desc(code) + "입니다."@
}

fn ready_text(city: &str, temp: &str, code: u32) -> (r: String)
    ensures
        r@ == ready_sentence(city@, temp@, code),
{
    let mut s = String::new();
    push_str(&mut s, "현재 위치는 ");
    push_str(&mut s, city);
    push_str(&mut s, "이며, 기온은 ");
    push_str(&mut s, temp);
    push_str(&mut s, "도, 날씨는 ");
    push_str(&mut s, get_weather_desc(code));
    push_str(&mut s, "입니다.");
    assert(s@ =~= ready_sentence(city@, temp@, code));
    s
}

fn concat2(a: &str, b: &str) -> (r: String)
    ensures
        r@ == a@ + b@,
{
    let mut s = String::new();
    push_str(&mut s, a);
    push_str(&mut s, b);
    s
}

fn concat3(a: &str, b: &str, c: &str) -> (r: String)
    ensures
        r@ == a@ + b@ + c@,
{
    let mut s = String::new();
    push_str(&mut s, a);
    push_str(&mut s, b);
    push_str(&mut s, c);
    s
}

/// The view of an optional text.
pub open spec fn opt_view(o: Option<String>) -> Option<Seq<char>> {
    match o {
        Some(s) => Some(s@),
        None => None,
    }
}

/// What the Up and Down keys say in each stage.
pub open spec fn status_speech(s: WeatherState) -> Option<Seq<char>> {
    match s {
        WeatherState::Ready(city, temp, code) => Some(ready_sentence(city@, temp@, code)),
        WeatherState::LocatingPrimary => Some("현재 위치를 조회 중입니다."@),
        WeatherState::LocatingBackup => Some("현재 위치를 조회 중입니다."@),
        WeatherState::FetchingWeather(city) => Some(city@ + "의 날씨 정보를 가져오는 중입니다."@),
        WeatherState::Error(msg) => Some("오류가 발생했습니다. "@ + msg@ + ". 가운데 버튼을 누르면 다시 시도합니다."@),
        WeatherState::Init => None,
    }
}

/// What is said after Up or Down: the stage's status, or what was said before
/// when the stage has none.
pub open spec fn repeat_speech(s: WeatherState, before: Option<Seq<char>>) -> Option<Seq<char>> {
    match status_speech(s) {
        Some(t) => Some(t),
        None => before,
    }
}

/// What a failed send of a request is recorded as: the cause, then the error.
pub open spec fn failure(cause: Seq<char>, err: Seq<char>) -> Seq<char> {
    cause + ": "@ + err
}

impl WeatherApp {
    /// Starting: locating from scratch, with a greeting to say.
    pub fn new() -> (r: Self)
        ensures
            r.state is Init,
            r.last_request_id is None,
            opt_view(r.speech_output) == Some("실시간 날씨 안내 앱을 시작합니다. 현재 위치를 확인하는 중입니다."@),
    {
        WeatherApp {
            state: WeatherState::Init,
            last_request_id: None,
            speech_output: Some("실시간 날씨 안내 앱을 시작합니다. 현재 위치를 확인하는 중입니다.".to_string()),
        }
    }

    /// The city of the current stage, when there is one.
    pub fn state_city(&self) -> (r: Option<&str>)
        ensures
            match self.state {
                WeatherState::FetchingWeather(c) => r matches Some(x) && x@ == c@,
                WeatherState::Ready(c, _, _) => r matches Some(x) && x@ == c@,
                _ => r is None,
            },
    {
        match &self.state {
            WeatherState::FetchingWeather(c) => Some(c.as_str()),
            WeatherState::Ready(c, _, _) => Some(c.as_str()),
            _ => None,
        }
    }

    /// A key press: Center starts over from locating; Up and Down say the current
    /// stage again. Returns whether to redraw.
    pub fn handle_key(&mut self, code: KeyCode) -> (r: bool)
        ensures
            code == KeyCode::Center ==> r && final(self).state is Init && final(self).last_request_id is None
                && opt_view(final(self).speech_output) == Some("위치 및 날씨 정보를 다시 새로고침합니다."@),
            (code == KeyCode::Up || code == KeyCode::Down) ==> (r && final(self).last_request_id == old(self).last_request_id
                && opt_view(final(self).speech_output) == repeat_speech(old(self).state, opt_view(old(self).speech_output))),
            !(code == KeyCode::Center || code == KeyCode::Up || code == KeyCode::Down) ==> !r
                && final(self).last_request_id == old(self).last_request_id
                && opt_view(final(self).speech_output) == opt_view(old(self).speech_output),
    {
        match code {
            KeyCode::Center => {
                self.state = WeatherState::Init;
                self.last_request_id = None;
                self.speech_output = Some("위치 및 날씨 정보를 다시 새로고침합니다.".to_string());
                true
            },
            KeyCode::Up | KeyCode::Down => {
                let said: Option<String> = match &self.state {
                    WeatherState::Ready(city, temp, code) => Some(ready_text(city.as_str(), temp.as_str(), *code)),
                    WeatherState::LocatingPrimary => Some("현재 위치를 조회 중입니다.".to_string()),
                    WeatherState::LocatingBackup => Some("현재 위치를 조회 중입니다.".to_string()),
                    WeatherState::FetchingWeather(city) => Some(concat2(city.as_str(), "의 날씨 정보를 가져오는 중입니다.")),
                    WeatherState::Error(msg) => Some(concat3("오류가 발생했습니다. ", msg.as_str(), ". 가운데 버튼을 누르면 다시 시도합니다.")),
                    WeatherState::Init => None,
                };
                if let Some(t) = said {
                    self.speech_output = Some(t);
                }
                true
            },
            _ => false,
        }
    }

    /// The location request to the primary service was sent (`Ok` with its id)
    /// or could not be (`Err`); returns whether to try the backup service.
    pub fn primary_sent(&mut self, sent: Result<u32, String>) -> (try_backup: bool)
        ensures
            match sent {
                Ok(id) => !try_backup && final(self).last_request_id == Some(id) && final(self).state is LocatingPrimary
                    && opt_view(final(self).speech_output) == opt_view(old(self).speech_output),
                Err(_) => try_backup && final(self).last_request_id == old(self).last_request_id
                    && opt_view(final(self).speech_output) == opt_view(old(self).speech_output),
            },
    {
        match sent {
            Ok(id) => {
                self.last_request_id = Some(id);
                self.state = WeatherState::LocatingPrimary;
                false
            },
            Err(_) => true,
        }
    }

    /// The location request to the backup service was sent or could not be.
    pub fn trigger_backup_locator(&mut self, sent: Result<u32, String>)
        ensures
            match sent {
                Ok(id) => final(self).last_request_id == Some(id) && final(self).state is LocatingBackup
                    && opt_view(final(self).speech_output) == opt_view(old(self).speech_output),
                Err(e) => final(self).last_request_id == old(self).last_request_id
                    && (final(self).state matches WeatherState::Error(m) && m@ == failure("백업 위치 요청 전송 실패"@, e@))
                    && opt_view(final(self).speech_output) == Some("위치 확인 요청을 전송하는 중 문제가 발생했습니다."@),
            },
    {
        match sent {
            Ok(id) => {
                self.last_request_id = Some(id);
                self.state = WeatherState::LocatingBackup;
            },
            Err(e) => {
                self.state = WeatherState::Error(concat3("백업 위치 요청 전송 실패", ": ", e.as_str()));
                self.speech_output = Some("위치 확인 요청을 전송하는 중 문제가 발생했습니다.".to_string());
            },
        }
    }

    /// The weather request for `city` was sent or could not be.
    pub fn start_weather_fetch(&mut self, city: String, sent: Result<u32, String>)
        ensures
            match sent {
                Ok(id) => final(self).last_request_id == Some(id)
                    && (final(self).state matches WeatherState::FetchingWeather(c) && c@ == city@)
                    && opt_view(final(self).speech_output) == Some("위치 확인 완료. "@ + city@ + "의 날씨 정보를 조회합니다."@),
                Err(e) => final(self).last_request_id == old(self).last_request_id
                    && (final(self).state matches WeatherState::Error(m) && m@ == failure("날씨 요청 실패"@, e@))
                    && opt_view(final(self).speech_output) == Some("날씨 요청을 전송하지 못했습니다."@),
            },
    {
        match sent {
            Ok(id) => {
                self.last_request_id = Some(id);
                let said = concat3("위치 확인 완료. ", city.as_str(), "의 날씨 정보를 조회합니다.");
                self.state = WeatherState::FetchingWeather(city);
                self.speech_output = Some(said);
            },
            Err(e) => {
                self.state = WeatherState::Error(concat3("날씨 요청 실패", ": ", e.as_str()));
                self.speech_output = Some("날씨 요청을 전송하지 못했습니다.".to_string());
            },
        }
    }

    /// The city a location reply names, or "알 수 없는 도시" (unknown city).
    pub fn city_or_unknown(city: Option<String>) -> (r: String)
        ensures
            r@ == match city {
                Some(c) => c@,
                None => "알 수 없는 도시"@,
            },
    {
        match city {
            Some(c) => c,
            None => "알 수 없는 도시".to_string(),
        }
    }

    /// The backup service answered with an error status.
    pub fn backup_failed(&mut self, status: u16)
        ensures
            final(self).last_request_id == old(self).last_request_id,
            final(self).state matches WeatherState::Error(m) && m@ == "위치 획득 HTTP 오류: "@ + decimal(status as nat),
            opt_view(final(self).speech_output) == Some("위치 정보를 가져오지 못했습니다. 임시 서버 점검일 수 있습니다."@),
    {
        let n = decimal_string(status as u64);
        self.state = WeatherState::Error(concat2("위치 획득 HTTP 오류: ", n.as_str()));
        self.speech_output = Some("위치 정보를 가져오지 못했습니다. 임시 서버 점검일 수 있습니다.".to_string());
    }

    /// The weather service answered: with status 200 the weather of the city
    /// being fetched is ready (the temperature as written, the code, 0 when the
    /// reply has none) and said; with another status the applet records an error.
    pub fn on_weather_reply(&mut self, status: u16, temp: String, weather_code: Option<i64>)
        requires
            old(self).state is FetchingWeather,
        ensures
            status == 200 ==> ({
                let code: u32 = match weather_code {
                    Some(c) => (c as int % 0x1_0000_0000) as u32,
                    None => 0,
                };
                let city = match old(self).state {
                    WeatherState::FetchingWeather(c) => c@,
                    _ => Seq::empty(),
                };
                &&& final(self).state matches WeatherState::Ready(c, t, k) && c@ == city && t@ == temp@ && k == code
                &&& final(self).last_request_id is None
                &&& opt_view(final(self).speech_output) == Some(ready_sentence(city, temp@, code))
            }),
            status != 200 ==> {
                &&& final(self).state matches WeatherState::Error(m) && m@ == "날씨 획득 HTTP 오류: "@ + decimal(status as nat)
                &&& final(self).last_request_id == old(self).last_request_id
                &&& opt_view(final(self).speech_output) == Some("날씨 세부 정보를 획득하는 중에 오류가 발생했습니다."@)
            },
    {
        if status == 200 {
            let code: u32 = match weather_code {
                Some(c) => low_bits(c),
                None => 0,
            };
            let city = match &self.state {
                WeatherState::FetchingWeather(c) => c.clone(),
                _ => String::new(),
            };
            self.speech_output = Some(ready_text(city.as_str(), temp.as_str(), code));
            self.state = WeatherState::Ready(city, temp, code);
            self.last_request_id = None;
        } else {
            let n = decimal_string(status as u64);
            self.state = WeatherState::Error(concat2("날씨 획득 HTTP 오류: ", n.as_str()));
            self.speech_output = Some("날씨 세부 정보를 획득하는 중에 오류가 발생했습니다.".to_string());
        }
    }

    /// Whether to redraw: when something changed, and always while waiting for a
    /// reply or while rain falls.
    pub fn needs_redraw(&self, changed: bool) -> (r: bool)
        ensures
            r == (changed || match self.state {
                WeatherState::LocatingPrimary => true,
                WeatherState::LocatingBackup => true,
                WeatherState::FetchingWeather(_) => true,
                WeatherState::Ready(_, _, code) => rainy(code),
                _ => false,
            }),
    {
        let animating = match &self.state {
            WeatherState::LocatingPrimary => true,
            WeatherState::LocatingBackup => true,
            WeatherState::FetchingWeather(_) => true,
            WeatherState::Ready(_, _, code) => {
                let c = *code;
                c == 51 || c == 53 || c == 55 || c == 61 || c == 63 || c == 65 || (80 <= c && c <= 82) || c == 95
            },
            _ => false,
        };
        changed || animating
    }
}

/// The low 32 bits of a number (`as u32`).
fn low_bits(c: i64) -> (r: u32)
    ensures
        r == (c as int % 0x1_0000_0000) as u32,
{
    let r = #[verifier::truncate] (c as u32);
    assert(c as u32 == (c as int % 0x1_0000_0000) as u32) by (bit_vector);
    r
}

/// The text field `key` of a JSON reply body: `None` when the body is not JSON,
/// has no such field, or the field is not a string.
pub uninterp spec fn json_str_field(body: Seq<u8>, key: Seq<char>) -> Option<Seq<char>>;

/// The integer `current_weather.weathercode` of a JSON reply body, when there
/// is one.
pub uninterp spec fn json_weather_code(body: Seq<u8>) -> Option<i64>;

/// Reads a text field of a JSON reply.
/// Trusted: `serde_json::from_slice` into a `serde_json::Value`, then the field
/// `key` as a string; nothing is said of what the parse gives on which bytes,
/// only that the result is a function of the body and the key.
#[verifier::external_body]
pub fn reply_str_field(body: &[u8], key: &str) -> (r: Option<String>)
    ensures
        opt_view(r) == json_str_field(body@, key@),
{
    match serde_json::from_slice::<serde_json::Value>(body) {
        Ok(v) => v[key].as_str().map(String::from),
        Err(_) => None,
    }
}

/// Reads the weather code of a weather reply.
/// Trusted: `serde_json::from_slice` into a `serde_json::Value`, then
/// `current_weather.weathercode` as an `i64`; the result is a function of the
/// body alone.
#[verifier::external_body]
pub fn reply_weather_code(body: &[u8]) -> (r: Option<i64>)
    ensures
        r == json_weather_code(body@),
{
    match serde_json::from_slice::<serde_json::Value>(body) {
        Ok(v) => v["current_weather"]["weathercode"].as_i64(),
        Err(_) => None,
    }
}

/// The unknown city, said when a location reply names none.
pub open spec fn unknown_city() -> Seq<char> {
    "알 수 없는 도시"@
}

/// The city that a location reply names under `key`, or the unknown city.
pub fn located_city(body: &[u8], key: &str) -> (r: String)
    ensures
        r@ == match json_str_field(body@, key@) {
            Some(c) => c,
            None => unknown_city(),
        },
{
    WeatherApp::city_or_unknown(reply_str_field(body, key))
}

/// The field that names the city in the primary and the backup location
/// services' replies.
pub open spec fn city_key(backup: bool) -> Seq<char> {
    if backup { "cityName"@ } else { "city"@ }
}

/// What a location reply leads to.
#[derive(Clone, Debug)]
pub enum LocationStep {
    /// The device is in this city: fetch its weather.
    Located(String),
    /// The primary service failed: ask the backup service.
    AskBackup,
    /// The backup service failed too: the applet shows the error.
    Failed,
}

impl WeatherApp {
    /// A location service answered with `status` and `body`: with status 200 the
    /// city is read from the reply (under `city` from the primary service,
    /// `cityName` from the backup); otherwise the primary's failure turns to the
    /// backup and the backup's failure is an error. The state changes only on
    /// that error.
    pub fn on_location_reply(&mut self, status: u16, body: &[u8]) -> (r: LocationStep)
        requires
            old(self).state is LocatingPrimary || old(self).state is LocatingBackup,
        ensures
            ({
                let backup = old(self).state is LocatingBackup;
                if status == 200 {
                    &&& r matches LocationStep::Located(c) && c@ == match json_str_field(body@, city_key(backup)) {
                        Some(x) => x,
                        None => unknown_city(),
                    }
                    &&& final(self).last_request_id == old(self).last_request_id
                    &&& opt_view(final(self).speech_output) == opt_view(old(self).speech_output)
                    &&& (if backup { final(self).state is LocatingBackup } else { final(self).state is LocatingPrimary })
                } else if !backup {
                    &&& r is AskBackup
                    &&& final(self).last_request_id == old(self).last_request_id
                    &&& opt_view(final(self).speech_output) == opt_view(old(self).speech_output)
                    &&& final(self).state is LocatingPrimary
                } else {
                    &&& r is Failed
                    &&& final(self).last_request_id == old(self).last_request_id
                    &&& final(self).state matches WeatherState::Error(m) && m@ == "위치 획득 HTTP 오류: "@ + decimal(status as nat)
                    &&& opt_view(final(self).speech_output) == Some("위치 정보를 가져오지 못했습니다. 임시 서버 점검일 수 있습니다."@)
                }
            }),
    {
        let backup = match &self.state {
            WeatherState::LocatingBackup => true,
            _ => false,
        };
        if status == 200 {
            let key = if backup { "cityName" } else { "city" };
            proof {
                reveal_strlit("cityName");
                reveal_strlit("city");
            }
            LocationStep::Located(located_city(body, key))
        } else if !backup {
            LocationStep::AskBackup
        } else {
            self.backup_failed(status);
            LocationStep::Failed
        }
    }

    /// The weather service answered with `status` and `body`; `temp` is the
    /// temperature as written (see `on_weather_reply`, with the reply's weather
    /// code).
    pub fn on_weather_body(&mut self, status: u16, temp: String, body: &[u8])
        requires
            old(self).state is FetchingWeather,
        ensures
            status == 200 ==> ({
                let code: u32 = match json_weather_code(body@) {
                    Some(c) => (c as int % 0x1_0000_0000) as u32,
                    None => 0,
                };
                let city = match old(self).state {
                    WeatherState::FetchingWeather(c) => c@,
                    _ => Seq::empty(),
                };
                &&& final(self).state matches WeatherState::Ready(c, t, k) && c@ == city && t@ == temp@ && k == code
                &&& final(self).last_request_id is None
                &&& opt_view(final(self).speech_output) == Some(ready_sentence(city, temp@, code))
            }),
            status != 200 ==> {
                &&& final(self).state matches WeatherState::Error(m) && m@ == "날씨 획득 HTTP 오류: "@ + decimal(status as nat)
                &&& final(self).last_request_id == old(self).last_request_id
                &&& opt_view(final(self).speech_output) == Some("날씨 세부 정보를 획득하는 중에 오류가 발생했습니다."@)
            },
    {
        let code = if status == 200 { reply_weather_code(body) } else { None };
        self.on_weather_reply(status, temp, code);
    }
}

} // verus!
