//! The speech service's rules: its errors and their HTTP replies, its
//! configuration, which mixer tracks a new sound goes to, how many background
//! tasks it keeps, and how a spoken sequence clears what is playing.
//!
//! Sample data, synthesis and the audio device are the host's; here they are
//! named by buffer numbers and task numbers.
use vstd::prelude::*;
use crate::input::Language;
use crate::text::{decimal, push_str, trim, string_from_chars};
use crate::chunk::{TextChunker, spec_chunk_text, MAX_CHUNK_LENGTH};
use crate::speech::string_views;

verus! {

broadcast use vstd::string::group_string_axioms;

/// The port the service listens on unless `PORT` names another.
pub const DEFAULT_PORT: u16 = 3005;
/// The most sounds mixed at once.
pub const MAX_TRACKS: usize = 4;
/// The most background tasks kept per kind.
pub const MAX_TASKS: usize = 8;

/// How a sound is played.
#[derive(Clone, Copy, Debug, PartialEq, Eq, Structural)]
pub enum PlaybackCategory {
    /// Ordinary speech: a new one does not overlap the previous.
    TtsNormal,
    /// Important speech: other sounds are lowered while it plays.
    TtsImportant,
    /// Sound effects: mixed freely.
    SoundEffect,
}

/// The service's errors.
#[derive(Clone, Debug)]
pub enum Error {
    /// The speech engine failed.
    Piper(String),
    /// A request could not be sent to the engine.
    ActorSend(String),
    /// The engine's reply could not be received.
    ActorReceive(String),
    /// No audio device: the synthesized audio is returned instead.
    AudioDeviceNotFound(Vec<u8>),
    /// Input or output failed.
    Io(String),
}

/// The error body of a reply.
pub struct TtsErrorResponse {
    pub error: String,
}

impl TtsErrorResponse {
    /// A body holding the message.
    pub fn new(error: String) -> (r: Self)
        ensures
            r.error@ == error@,
    {
        TtsErrorResponse { error }
    }
}

/// The text of an error.
pub open spec fn error_text(e: Error) -> Seq<char> {
    match e {
        Error::Piper(m) => "Piper TTS 엔진 오류: "@ + m@,
        Error::ActorSend(m) => "TTS 액터로 요청 전송 실패: "@ + m@,
        Error::ActorReceive(m) => "TTS 액터로부터 응답 수신 실패: "@ + m@,
        Error::AudioDeviceNotFound(_) => "오디오 장치를 찾을 수 없음"@,
        Error::Io(m) => "I/O 오류: "@ + m@,
    }
}

fn cat(a: &str, b: &str) -> (r: String)
    ensures
        r@ == a@ + b@,
{
    let mut s = String::new();
    push_str(&mut s, a);
    push_str(&mut s, b);
    s
}

/// The reply to an error.
pub enum ErrorReply {
    /// Status 200 with the synthesized WAV audio, marked as the device fallback.
    AudioFallback(Vec<u8>),
    /// Status 500 with a message for the client.
    ServerError(TtsErrorResponse),
}

/// The message a client gets for an error that is not the device fallback.
pub open spec fn client_message(e: Error) -> Seq<char> {
    match e {
        Error::Piper(m) => "Piper TTS 엔진 실패: "@ + m@,
        Error::ActorSend(_) => "내부 통신 오류"@,
        Error::ActorReceive(_) => "내부 통신 오류"@,
        Error::Io(_) => "내부 I/O 오류"@,
        Error::AudioDeviceNotFound(_) => Seq::empty(),
    }
}

impl Error {
    /// The error's text.
    pub fn message(&self) -> (r: String)
        ensures
            r@ == error_text(*self),
    {
        match self {
            Error::Piper(m) => cat("Piper TTS 엔진 오류: ", m.as_str()),
            Error::ActorSend(m) => cat("TTS 액터로 요청 전송 실패: ", m.as_str()),
            Error::ActorReceive(m) => cat("TTS 액터로부터 응답 수신 실패: ", m.as_str()),
            Error::AudioDeviceNotFound(_) => "오디오 장치를 찾을 수 없음".to_string(),
            Error::Io(m) => cat("I/O 오류: ", m.as_str()),
        }
    }

    /// The HTTP reply to the error: the audio itself when there is no device,
    /// otherwise status 500 with a message that names only the engine's failure.
    pub fn into_response(self) -> (r: ErrorReply)
        ensures
            reply_headers(r) == match self {
                Error::AudioDeviceNotFound(_) => seq![("Content-Type"@, "audio/wav"@), ("X-Audio-Status"@, "DeviceNotFound-Fallback"@)],
                _ => Seq::<(Seq<char>, Seq<char>)>::empty(),
            },
            match self {
                Error::AudioDeviceNotFound(data) => r matches ErrorReply::AudioFallback(d) && d@ == data@,
                _ => r matches ErrorReply::ServerError(b) && b.error@ == client_message(self),
            },
    {
        match self {
            Error::AudioDeviceNotFound(data) => ErrorReply::AudioFallback(data),
            Error::Piper(m) => ErrorReply::ServerError(TtsErrorResponse::new(cat("Piper TTS 엔진 실패: ", m.as_str()))),
            Error::ActorSend(_) => ErrorReply::ServerError(TtsErrorResponse::new("내부 통신 오류".to_string())),
            Error::ActorReceive(_) => ErrorReply::ServerError(TtsErrorResponse::new("내부 통신 오류".to_string())),
            Error::Io(_) => ErrorReply::ServerError(TtsErrorResponse::new("내부 I/O 오류".to_string())),
        }
    }
}

/// The headers the library sets on a reply: the device fallback is WAV audio
/// marked as the fallback; a server error sets none (its JSON body carries its
/// own content type).
pub open spec fn reply_headers(r: ErrorReply) -> Seq<(Seq<char>, Seq<char>)> {
    match r {
        ErrorReply::AudioFallback(_) => seq![("Content-Type"@, "audio/wav"@), ("X-Audio-Status"@, "DeviceNotFound-Fallback"@)],
        ErrorReply::ServerError(_) => Seq::empty(),
    }
}

impl ErrorReply {
    /// The headers of the reply (see `reply_headers`), in order.
    pub fn headers(&self) -> (r: Vec<(&'static str, &'static str)>)
        ensures
            r@.map_values(|h: (&'static str, &'static str)| (h.0@, h.1@)) == reply_headers(*self),
    {
        let r: Vec<(&'static str, &'static str)> = match self {
            ErrorReply::AudioFallback(_) => vec![("Content-Type", "audio/wav"), ("X-Audio-Status", "DeviceNotFound-Fallback")],
            ErrorReply::ServerError(_) => Vec::new(),
        };
        assert(r@.map_values(|h: (&'static str, &'static str)| (h.0@, h.1@)) =~= reply_headers(*self));
        r
    }

    /// The HTTP status of the reply.
    pub fn status(&self) -> (r: u16)
        ensures
            r == match *self {
                ErrorReply::AudioFallback(_) => 200u16,
                ErrorReply::ServerError(_) => 500u16,
            },
    {
        match self {
            ErrorReply::AudioFallback(_) => 200,
            ErrorReply::ServerError(_) => 500,
        }
    }
}

/// The value of a decimal numeral of digits only, if it fits in 16 bits
/// (`str::parse::<u16>`: an optional leading '+', then at least one digit).
pub open spec fn parse_u16(s: Seq<char>) -> Option<u16> {
    let d = digits_part(s);
    if d.len() == 0 || !all_digits(d) {
        None
    } else if digits_value(d) > u16::MAX {
        None
    } else {
        Some(digits_value(d) as u16)
    }
}

/// The text after an optional leading '+'.
pub open spec fn digits_part(s: Seq<char>) -> Seq<char> {
    if s.len() > 0 && s[0] == '+' { s.drop_first() } else { s }
}

/// Whether every character is a decimal digit.
pub open spec fn all_digits(d: Seq<char>) -> bool {
    forall|i: int| 0 <= i < d.len() ==> '0' <= #[trigger] d[i] && d[i] <= '9'
}

/// The value of a string of decimal digits.
pub open spec fn digits_value(d: Seq<char>) -> nat
    decreases d.len(),
{
    if d.len() == 0 {
        0
    } else {
        digits_value(d.drop_last()) * 10 + ((d.last() as u32) - 48) as nat
    }
}

/// Parses a port number (see `parse_u16`).
pub fn parse_port(s: &str) -> (r: Option<u16>)
    ensures
        r == parse_u16(s@),
{
    let cs = crate::text::chars_of(s);
    let start: usize = if cs.len() > 0 && cs[0] == '+' { 1 } else { 0 };
    let ghost d = digits_part(s@);
    assert(d =~= cs@.skip(start as int));
    if start == cs.len() {
        return None;
    }
    let mut v: u32 = 0;
    let mut i = start;
    while i < cs.len()
        invariant
            start <= i <= cs.len(),
            d == cs@.skip(start as int),
            d == digits_part(s@),
            forall|k: int| start <= k < i ==> '0' <= #[trigger] cs@[k] && cs@[k] <= '9',
            v as nat == digits_value(d.take(i - start)),
            v <= u16::MAX,
        decreases cs.len() - i,
    {
        let c = cs[i];
        if !('0' <= c && c <= '9') {
            assert(d[i - start] == cs@[i as int]);
            assert(!('0' <= d[i - start] && d[i - start] <= '9'));
            assert(!all_digits(d));
            assert(d == digits_part(s@));
            assert(parse_u16(s@) is None);
            return None;
        }
        let dv = (c as u32) - 48;
        assert(d.take(i - start + 1).drop_last() =~= d.take(i - start));
        let nv = v * 10 + dv;
        if nv > 65535 {
            proof {
                if all_digits(d) {
                    lemma_digits_grow(d, (i - start + 1) as int);
                    assert(d.take(i - start + 1).last() == c);
                }
            }
            return None;
        }
        v = nv;
        i += 1;
    }
    assert(d.take(cs.len() - start) =~= d);
    Some(v as u16)
}

/// A longer prefix of digits is worth at least as much.
pub proof fn lemma_digits_grow(d: Seq<char>, k: int)
    requires
        0 <= k <= d.len(),
        forall|i: int| 0 <= i < d.len() ==> '0' <= #[trigger] d[i] && d[i] <= '9',
    ensures
        digits_value(d.take(k)) <= digits_value(d),
    decreases d.len() - k,
{
    if k < d.len() {
        lemma_digits_grow(d, k + 1);
        assert(d.take(k + 1).drop_last() =~= d.take(k));
    } else {
        assert(d.take(k) =~= d);
    }
}

/// The port from the `PORT` variable, when it holds a port number; otherwise the
/// default port.
pub fn port_from(value: Option<String>) -> (r: u16)
    ensures
        r == match value {
            Some(s) => match parse_u16(s@) {
                Some(p) => p,
                None => DEFAULT_PORT,
            },
            None => DEFAULT_PORT,
        },
{
    match value {
        Some(s) => match parse_port(s.as_str()) {
            Some(p) => p,
            None => DEFAULT_PORT,
        },
        None => DEFAULT_PORT,
    }
}

/// The service's configuration.
pub struct ServiceConfig {
    pub port: u16,
    pub piper_asset_dir: String,
}

/// Where the speech models are.
#[derive(Clone, Copy, Debug, PartialEq, Eq, Structural)]
pub enum AssetDirChoice {
    /// The `PIPER_ASSET_DIR` variable.
    PiperVariable,
    /// The `TTS_ASSET_DIR` variable.
    TtsVariable,
    /// `audio-service/assets` under the working directory.
    ServiceAssets,
    /// `assets` under the working directory.
    Assets,
}

/// Which models directory to use: `PIPER_ASSET_DIR`, else `TTS_ASSET_DIR`, else
/// `audio-service/assets` when it exists, else `assets`.
pub fn choose_asset_dir(piper_set: bool, tts_set: bool, service_assets_exist: bool) -> (r: AssetDirChoice)
    ensures
        r == if piper_set {
            AssetDirChoice::PiperVariable
        } else if tts_set {
            AssetDirChoice::TtsVariable
        } else if service_assets_exist {
            AssetDirChoice::ServiceAssets
        } else {
            AssetDirChoice::Assets
        },
{
    if piper_set {
        AssetDirChoice::PiperVariable
    } else if tts_set {
        AssetDirChoice::TtsVariable
    } else if service_assets_exist {
        AssetDirChoice::ServiceAssets
    } else {
        AssetDirChoice::Assets
    }
}

/// Where to look for the espeak-ng data, in order.
pub open spec fn espeak_candidates() -> Seq<Seq<char>> {
    seq![
        "/usr/share/espeak-ng-data"@,
        "/usr/lib/espeak-ng-data"@,
        "/usr/lib/aarch64-linux-gnu/espeak-ng-data"@,
        "/usr/lib/x86_64-linux-gnu/espeak-ng-data"@,
        "/opt/homebrew/share/espeak-ng-data"@,
        "/usr/local/share/espeak-ng-data"@,
        "audio-service/assets/espeak-ng-data"@,
        "assets/espeak-ng-data"@,
    ]
}

/// The places to look for the espeak-ng data.
pub fn espeak_data_candidates() -> (r: Vec<&'static str>)
    ensures
        r@.map_values(|s: &'static str| s@) == espeak_candidates(),
{
    let mut v: Vec<&'static str> = Vec::new();
    v.push("/usr/share/espeak-ng-data");
    v.push("/usr/lib/espeak-ng-data");
    v.push("/usr/lib/aarch64-linux-gnu/espeak-ng-data");
    v.push("/usr/lib/x86_64-linux-gnu/espeak-ng-data");
    v.push("/opt/homebrew/share/espeak-ng-data");
    v.push("/usr/local/share/espeak-ng-data");
    v.push("audio-service/assets/espeak-ng-data");
    v.push("assets/espeak-ng-data");
    assert(v@.map_values(|s: &'static str| s@) =~= espeak_candidates());
    v
}

/// The code the engine's models are keyed by.
pub open spec fn lang_code(l: Language) -> Seq<char> {
    match l {
        Language::Ko => "Ko"@,
        Language::En => "En"@,
        Language::Ja => "Ja"@,
    }
}

/// The code of a language.
pub fn lang_str(l: Language) -> (r: &'static str)
    ensures
        r@ == lang_code(l),
{
    match l {
        Language::Ko => "Ko",
        Language::En => "En",
        Language::Ja => "Ja",
    }
}

/// The language a settings request names: "Ko", "En" or "Ja", and Korean for
/// anything else.
pub fn parse_language(s: &str) -> (r: Language)
    ensures
        r == if s@ == "En"@ { Language::En } else if s@ == "Ja"@ { Language::Ja } else { Language::Ko },
{
    let cs = crate::text::chars_of(s);
    proof {
        reveal_strlit("En");
        reveal_strlit("Ja");
    }
    if cs.len() == 2 && cs[0] == 'E' && cs[1] == 'n' {
        assert(s@ =~= "En"@);
        Language::En
    } else if cs.len() == 2 && cs[0] == 'J' && cs[1] == 'a' {
        assert(s@ =~= "Ja"@);
        Language::Ja
    } else {
        Language::Ko
    }
}

/// The engine's message when no model serves a language.
pub fn missing_model_message(lang: &str) -> (r: String)
    ensures
        r@ == "언어 '"@ + lang@ + "'에 대한 Piper 모델 및 기본 Piper 모델이 존재하지 않습니다."@,
{
    let mut s = String::new();
    push_str(&mut s, "언어 '");
    push_str(&mut s, lang);
    push_str(&mut s, "'에 대한 Piper 모델 및 기본 Piper 모델이 존재하지 않습니다.");
    s
}


/// A change the mixer makes to its list of playing tracks.
#[derive(Clone, Copy, Debug, PartialEq, Eq, Structural)]
pub enum TrackOp {
    /// Drop every track of the category.
    RemoveCategory(PlaybackCategory),
    /// Queue the new sound at the end of the track at this index.
    AppendTo(usize),
    /// Drop the track at this index.
    Remove(usize),
    /// Start a new track of the category at the end of the list.
    Push(PlaybackCategory),
}

/// The categories of the tracks after dropping those of `c`.
pub open spec fn without(ts: Seq<PlaybackCategory>, c: PlaybackCategory) -> Seq<PlaybackCategory> {
    ts.filter(other_than(c))
}

/// Whether a track's category is not `c`.
pub open spec fn other_than(c: PlaybackCategory) -> spec_fn(PlaybackCategory) -> bool {
    |t: PlaybackCategory| t != c
}

pub proof fn lemma_first_of(ts: Seq<PlaybackCategory>, c: PlaybackCategory, k: int)
    ensures
        first_of(ts, c, k) matches Some(i) ==> k <= i < ts.len() && ts[i] == c,
    decreases ts.len() - k,
{
    if 0 <= k < ts.len() && ts[k] != c {
        lemma_first_of(ts, c, k + 1);
    }
}

/// The first index at or after `k` whose track has category `c`.
pub open spec fn first_of(ts: Seq<PlaybackCategory>, c: PlaybackCategory, k: int) -> Option<int>
    decreases ts.len() - k,
{
    if k < 0 || k >= ts.len() {
        None
    } else if ts[k] == c {
        Some(k)
    } else {
        first_of(ts, c, k + 1)
    }
}

/// A new sound of category `c` (with samples): speech first drops the tracks of
/// its category when asked to, else joins the end of the first track of its
/// category; otherwise it starts a new track, making room when `MAX_TRACKS` play
/// by dropping the first sound effect, or the oldest track when none is one.
pub open spec fn play_ops(ts: Seq<PlaybackCategory>, c: PlaybackCategory, clear_previous: bool) -> (Seq<PlaybackCategory>, Seq<TrackOp>) {
    let effect = c == PlaybackCategory::SoundEffect;
    let (t1, o1) = if !effect && clear_previous {
        (without(ts, c), seq![TrackOp::RemoveCategory(c)])
    } else {
        (ts, Seq::empty())
    };
    match first_of(t1, c, 0) {
        Some(i) if !effect && !clear_previous => (t1, o1.push(TrackOp::AppendTo(i as usize))),
        _ => {
            let (t2, o2) = if t1.len() >= MAX_TRACKS {
                let idx = match first_of(t1, PlaybackCategory::SoundEffect, 0) {
                    Some(j) => j,
                    None => 0,
                };
                (t1.remove(idx), o1.push(TrackOp::Remove(idx as usize)))
            } else {
                (t1, o1)
            };
            (t2.push(c), o2.push(TrackOp::Push(c)))
        },
    }
}

/// The mixer's list of playing tracks, by category.
pub struct TrackList {
    pub categories: Vec<PlaybackCategory>,
}

impl TrackList {
    /// No track plays.
    pub fn new() -> (r: Self)
        ensures
            r.categories@.len() == 0,
    {
        TrackList { categories: Vec::new() }
    }

    fn remove_category(&mut self, c: PlaybackCategory)
        ensures
            final(self).categories@ == without(old(self).categories@, c),
    {
        let mut kept: Vec<PlaybackCategory> = Vec::new();
        let mut i: usize = 0;
        while i < self.categories.len()
            invariant
                i <= self.categories.len(),
                self.categories@ == old(self).categories@,
                kept@ == without(self.categories@.take(i as int), c),
            decreases self.categories.len() - i,
        {
            let t = self.categories[i];
            proof {
                let pre = self.categories@.take(i as int);
                assert(self.categories@.take(i + 1) =~= pre.push(t));
                pre.lemma_filter_push(t, other_than(c));
            }
            if t != c {
                kept.push(t);
            }
            i += 1;
        }
        assert(self.categories@.take(self.categories.len() as int) =~= self.categories@);
        self.categories = kept;
    }

    fn find_first(&self, c: PlaybackCategory) -> (r: Option<usize>)
        ensures
            match r {
                Some(i) => first_of(self.categories@, c, 0) == Some(i as int),
                None => first_of(self.categories@, c, 0) is None,
            },
    {
        let mut i: usize = 0;
        while i < self.categories.len()
            invariant
                i <= self.categories.len(),
                first_of(self.categories@, c, 0) == first_of(self.categories@, c, i as int),
            decreases self.categories.len() - i,
        {
            if self.categories[i] == c {
                return Some(i);
            }
            i += 1;
        }
        None
    }

    /// Where a new sound of category `c` goes (see `play_ops`); returns the changes
    /// to make to the playing tracks, in order.
    pub fn play(&mut self, c: PlaybackCategory, clear_previous: bool) -> (r: Vec<TrackOp>)
        ensures
            final(self).categories@ == play_ops(old(self).categories@, c, clear_previous).0,
            r@ == play_ops(old(self).categories@, c, clear_previous).1,
    {
        let effect = c == PlaybackCategory::SoundEffect;
        let mut ops: Vec<TrackOp> = Vec::new();
        if !effect && clear_previous {
            self.remove_category(c);
            ops.push(TrackOp::RemoveCategory(c));
            assert(ops@ =~= seq![TrackOp::RemoveCategory(c)]);
        }
        if !effect && !clear_previous {
            match self.find_first(c) {
                Some(i) => {
                    ops.push(TrackOp::AppendTo(i));
                    return ops;
                },
                None => {},
            }
        }
        if self.categories.len() >= MAX_TRACKS {
            let idx = match self.find_first(PlaybackCategory::SoundEffect) {
                Some(j) => j,
                None => 0,
            };
            proof {
                lemma_first_of(self.categories@, PlaybackCategory::SoundEffect, 0);
            }
            self.categories.remove(idx);
            ops.push(TrackOp::Remove(idx));
        }
        self.categories.push(c);
        ops.push(TrackOp::Push(c));
        ops
    }

    /// Drops every track of category `c`.
    pub fn clear(&mut self, c: PlaybackCategory) -> (r: TrackOp)
        ensures
            final(self).categories@ == without(old(self).categories@, c),
            r == TrackOp::RemoveCategory(c),
    {
        self.remove_category(c);
        TrackOp::RemoveCategory(c)
    }
}

/// The mixer never plays more than `MAX_TRACKS` sounds: a new sound added to at
/// most that many tracks leaves at most that many.
pub proof fn law_track_limit(ts: Seq<PlaybackCategory>, c: PlaybackCategory, clear_previous: bool)
    requires
        ts.len() <= MAX_TRACKS,
    ensures
        play_ops(ts, c, clear_previous).0.len() <= MAX_TRACKS,
{
    ts.lemma_filter_len(other_than(c));
    let effect = c == PlaybackCategory::SoundEffect;
    let t1 = if !effect && clear_previous { without(ts, c) } else { ts };
    assert(t1.len() <= MAX_TRACKS);
    lemma_first_of(t1, PlaybackCategory::SoundEffect, 0);
    if t1.len() >= MAX_TRACKS {
        let idx = match first_of(t1, PlaybackCategory::SoundEffect, 0) {
            Some(j) => j,
            None => 0,
        };
        assert(0 <= idx < t1.len());
        assert(t1.remove(idx).len() == t1.len() - 1);
    }
}


/// No two tracks share a category, sound effects apart.
pub open spec fn one_track_per_speech(ts: Seq<PlaybackCategory>) -> bool {
    forall|i: int, j: int| 0 <= i < j < ts.len() && #[trigger] ts[i] == #[trigger] ts[j] ==> ts[i] == PlaybackCategory::SoundEffect
}

/// The mixer's tracks are in order: at most `MAX_TRACKS`, and one track per
/// category of speech.
pub open spec fn mixer_ok(ts: Seq<PlaybackCategory>) -> bool {
    ts.len() <= MAX_TRACKS && one_track_per_speech(ts)
}

pub proof fn lemma_without(ts: Seq<PlaybackCategory>, c: PlaybackCategory)
    ensures
        !without(ts, c).contains(c),
        without(ts, c).len() <= ts.len(),
        one_track_per_speech(ts) ==> one_track_per_speech(without(ts, c)),
    decreases ts.len(),
{
    ts.lemma_filter_len(other_than(c));
    let w = without(ts, c);
    if w.contains(c) {
        let k = choose|k: int| 0 <= k < w.len() && w[k] == c;
        ts.filter_lemma(other_than(c));
        assert(other_than(c)(w[k]));
    }
    if ts.len() > 0 {
        lemma_without(ts.drop_last(), c);
        let sub = without(ts.drop_last(), c);
        assert(w == if ts.last() != c { sub.push(ts.last()) } else { sub }) by {
            reveal(Seq::filter);
            assert(ts.filter(other_than(c)) == if other_than(c)(ts.last()) {
                ts.drop_last().filter(other_than(c)).push(ts.last())
            } else {
                ts.drop_last().filter(other_than(c))
            });
        }
        if one_track_per_speech(ts) {
            assert(one_track_per_speech(ts.drop_last())) by {
                assert forall|i: int, j: int| 0 <= i < j < ts.drop_last().len() && #[trigger] ts.drop_last()[i] == #[trigger] ts.drop_last()[j]
                    implies ts.drop_last()[i] == PlaybackCategory::SoundEffect by {
                    assert(ts[i] == ts[j]);
                }
            }
            if ts.last() != c {
                ts.drop_last().filter_lemma(other_than(c));
                assert forall|i: int, j: int| 0 <= i < j < w.len() && #[trigger] w[i] == #[trigger] w[j]
                    implies w[i] == PlaybackCategory::SoundEffect by {
                    if j == w.len() - 1 {
                        assert(sub[i] == w[i]);
                        assert(sub.contains(w[i]));
                        ts.drop_last().lemma_filter_contains_rev(other_than(c), w[i]);
                        let k = choose|k: int| 0 <= k < ts.drop_last().len() && ts.drop_last()[k] == w[i];
                        assert(ts[k] == ts[ts.len() - 1]);
                    } else {
                        assert(w[i] == sub[i] && w[j] == sub[j]);
                    }
                }
            }
        }
    }
}

pub proof fn lemma_first_of_none(ts: Seq<PlaybackCategory>, c: PlaybackCategory, k: int)
    requires
        0 <= k,
        first_of(ts, c, k) is None,
    ensures
        forall|i: int| k <= i < ts.len() ==> ts[i] != c,
    decreases ts.len() - k,
{
    if k < ts.len() {
        lemma_first_of_none(ts, c, k + 1);
    }
}

/// The mixer keeps its tracks in order whatever it is asked: a new sound leaves
/// at most `MAX_TRACKS` tracks and one per category of speech, and clearing a
/// category leaves none of it (and the other tracks as they were, in order:
/// `without` keeps them).
#[verifier::rlimit(60)]
pub proof fn law_mixer_stays_in_order(ts: Seq<PlaybackCategory>, c: PlaybackCategory, clear_previous: bool)
    requires
        mixer_ok(ts),
    ensures
        mixer_ok(play_ops(ts, c, clear_previous).0),
        mixer_ok(without(ts, c)),
        !without(ts, c).contains(c),
{
    law_track_limit(ts, c, clear_previous);
    lemma_without(ts, c);
    let effect = c == PlaybackCategory::SoundEffect;
    let t1 = if !effect && clear_previous { without(ts, c) } else { ts };
    assert(one_track_per_speech(t1));
    lemma_first_of(t1, c, 0);
    lemma_first_of(t1, PlaybackCategory::SoundEffect, 0);
    let r = play_ops(ts, c, clear_previous).0;
    match first_of(t1, c, 0) {
        Some(i) if !effect && !clear_previous => {
            assert(r == t1);
        },
        _ => {
            if !effect {
                if clear_previous {
                    assert(!t1.contains(c));
                } else {
                    lemma_first_of_none(t1, c, 0);
                }
                assert(forall|i: int| 0 <= i < t1.len() ==> t1[i] != c);
            }
            let t2 = if t1.len() >= MAX_TRACKS {
                let idx = match first_of(t1, PlaybackCategory::SoundEffect, 0) {
                    Some(j) => j,
                    None => 0,
                };
                let t2 = t1.remove(idx);
                assert forall|i: int, j: int| 0 <= i < j < t2.len() && #[trigger] t2[i] == #[trigger] t2[j]
                    implies t2[i] == PlaybackCategory::SoundEffect by {
                    let ii = if i < idx { i } else { i + 1 };
                    let jj = if j < idx { j } else { j + 1 };
                    assert(t2[i] == t1[ii] && t2[j] == t1[jj]);
                }
                t2
            } else {
                t1
            };
            assert(r == t2.push(c));
            assert forall|i: int| 0 <= i < t2.len() implies (!effect ==> #[trigger] t2[i] != c) by {
                if t1.len() >= MAX_TRACKS {
                    let idx = match first_of(t1, PlaybackCategory::SoundEffect, 0) {
                        Some(j) => j,
                        None => 0,
                    };
                    let ii = if i < idx { i } else { i + 1 };
                    assert(t2[i] == t1[ii]);
                }
            }
            assert forall|i: int, j: int| 0 <= i < j < r.len() && #[trigger] r[i] == #[trigger] r[j]
                implies r[i] == PlaybackCategory::SoundEffect by {
                if j == r.len() - 1 {
                    assert(r[i] == t2[i]);
                } else {
                    assert(r[i] == t2[i] && r[j] == t2[j]);
                }
            }
        },
    }
}

/// A command to the mixer, as far as its tracks are concerned: a sound to play
/// (with or without samples), a category to clear, or a new master volume
/// (which the host keeps).
#[derive(Clone, Copy, Debug, PartialEq, Eq, Structural)]
pub enum MixerCommand {
    Play { category: PlaybackCategory, has_samples: bool, clear_previous: bool },
    Clear(PlaybackCategory),
    SetVolume,
}

/// The tracks after one command, and the changes to make to them: a sound
/// without samples and a volume change leave the tracks as they are.
pub open spec fn apply_command(ts: Seq<PlaybackCategory>, cmd: MixerCommand) -> (Seq<PlaybackCategory>, Seq<TrackOp>) {
    match cmd {
        MixerCommand::Play { category, has_samples, clear_previous } =>
            if has_samples { play_ops(ts, category, clear_previous) } else { (ts, Seq::empty()) },
        MixerCommand::Clear(c) => (without(ts, c), seq![TrackOp::RemoveCategory(c)]),
        MixerCommand::SetVolume => (ts, Seq::empty()),
    }
}

/// The tracks after the commands, taken in order.
pub open spec fn apply_commands(ts: Seq<PlaybackCategory>, cmds: Seq<MixerCommand>) -> Seq<PlaybackCategory>
    decreases cmds.len(),
{
    if cmds.len() == 0 {
        ts
    } else {
        apply_command(apply_commands(ts, cmds.drop_last()), cmds.last()).0
    }
}

impl TrackList {
    /// Carries out one command (see `apply_command`); returns the changes to
    /// make to the playing tracks, in order.
    pub fn apply(&mut self, cmd: MixerCommand) -> (r: Vec<TrackOp>)
        ensures
            final(self).categories@ == apply_command(old(self).categories@, cmd).0,
            r@ == apply_command(old(self).categories@, cmd).1,
    {
        match cmd {
            MixerCommand::Play { category, has_samples, clear_previous } => {
                if has_samples {
                    self.play(category, clear_previous)
                } else {
                    Vec::new()
                }
            },
            MixerCommand::Clear(c) => {
                let op = self.clear(c);
                let v = vec![op];
                assert(v@ =~= seq![TrackOp::RemoveCategory(c)]);
                v
            },
            MixerCommand::SetVolume => Vec::new(),
        }
    }
}

/// Whatever commands the mixer takes, one after another, its tracks stay in
/// order (at most `MAX_TRACKS`, one per category of speech); after a clear no
/// track of the cleared category is left.
pub proof fn law_mixer_commands_keep_order(ts: Seq<PlaybackCategory>, cmds: Seq<MixerCommand>)
    requires
        mixer_ok(ts),
    ensures
        mixer_ok(apply_commands(ts, cmds)),
        cmds.len() > 0 && (cmds.last() matches MixerCommand::Clear(c)) ==> ({
            let c = match cmds.last() { MixerCommand::Clear(c) => c, _ => PlaybackCategory::SoundEffect };
            !apply_commands(ts, cmds).contains(c)
        }),
    decreases cmds.len(),
{
    if cmds.len() > 0 {
        law_mixer_commands_keep_order(ts, cmds.drop_last());
        let before = apply_commands(ts, cmds.drop_last());
        match cmds.last() {
            MixerCommand::Play { category, has_samples, clear_previous } => {
                law_mixer_stays_in_order(before, category, clear_previous);
            },
            MixerCommand::Clear(c) => {
                law_mixer_stays_in_order(before, c, false);
            },
            MixerCommand::SetVolume => {},
        }
    }
}

/// The background tasks of one kind, by number, oldest first.
pub struct TaskList {
    pub ids: Vec<u64>,
}

/// The tasks that have not finished (`finished[i]` tells of `ids[i]`).
pub open spec fn unfinished(ids: Seq<u64>, finished: Seq<bool>) -> Seq<u64>
    decreases ids.len(),
{
    if ids.len() == 0 || finished.len() < ids.len() {
        Seq::empty()
    } else {
        let rest = unfinished(ids.drop_last(), finished.take(ids.len() - 1));
        if finished[ids.len() - 1] { rest } else { rest.push(ids.last()) }
    }
}

/// Registering a task: finished tasks are dropped, the new one is added, and
/// while more than `MAX_TASKS` remain the oldest are stopped. Gives the tasks
/// kept and those stopped.
pub open spec fn register_spec(ids: Seq<u64>, finished: Seq<bool>, id: u64) -> (Seq<u64>, Seq<u64>) {
    let all = unfinished(ids, finished).push(id);
    if all.len() > MAX_TASKS {
        (all.skip(all.len() - MAX_TASKS), all.take(all.len() - MAX_TASKS))
    } else {
        (all, Seq::empty())
    }
}

impl TaskList {
    /// No task.
    pub fn new() -> (r: Self)
        ensures
            r.ids@.len() == 0,
    {
        TaskList { ids: Vec::new() }
    }

    /// Registers task `id` (see `register_spec`); `finished` tells which listed
    /// tasks have finished. Returns the tasks to stop.
    pub fn register_task(&mut self, finished: &Vec<bool>, id: u64) -> (aborted: Vec<u64>)
        requires
            finished.len() == old(self).ids.len(),
        ensures
            (final(self).ids@, aborted@) == register_spec(old(self).ids@, finished@, id),
    {
        let mut kept: Vec<u64> = Vec::new();
        let mut i: usize = 0;
        while i < self.ids.len()
            invariant
                i <= self.ids.len(),
                finished.len() == self.ids.len(),
                self.ids@ == old(self).ids@,
                kept@ == unfinished(self.ids@.take(i as int), finished@.take(i as int)),
            decreases self.ids.len() - i,
        {
            let ghost pre_i = self.ids@.take(i as int);
            let ghost pre_f = finished@.take(i as int);
            assert(self.ids@.take(i + 1).drop_last() =~= pre_i);
            assert(finished@.take(i + 1).take(i as int) =~= pre_f);
            if !finished[i] {
                kept.push(self.ids[i]);
            }
            i += 1;
        }
        assert(self.ids@.take(self.ids.len() as int) =~= self.ids@);
        assert(finished@.take(self.ids.len() as int) =~= finished@);
        kept.push(id);
        let mut aborted: Vec<u64> = Vec::new();
        let ghost all = kept@;
        while kept.len() > MAX_TASKS
            invariant
                all.len() >= kept.len(),
                kept.len() < all.len() ==> kept.len() >= MAX_TASKS,
                kept@ == all.skip(all.len() - kept.len()),
                aborted@ == all.take(all.len() - kept.len()),
            decreases kept.len(),
        {
            let first = kept.remove(0);
            aborted.push(first);
            assert(aborted@ =~= all.take(all.len() - kept.len()));
            assert(kept@ =~= all.skip(all.len() - kept.len()));
        }
        proof {
            if all.len() <= MAX_TASKS {
                assert(kept.len() == all.len());
                assert(kept@ =~= all);
                assert(aborted@ =~= Seq::<u64>::empty());
            } else {
                assert(kept.len() == MAX_TASKS);
            }
        }
        self.ids = kept;
        aborted
    }

    /// Stops every task; returns them.
    pub fn clear_tasks(&mut self) -> (r: Vec<u64>)
        ensures
            r@ == old(self).ids@,
            final(self).ids@.len() == 0,
    {
        let mut empty: Vec<u64> = Vec::new();
        std::mem::swap(&mut empty, &mut self.ids);
        empty
    }

    /// Whether some listed task has not finished.
    pub fn has_active(&self, finished: &Vec<bool>) -> (r: bool)
        requires
            finished.len() == self.ids.len(),
        ensures
            r == exists|i: int| 0 <= i < self.ids.len() && !#[trigger] finished@[i],
    {
        let mut i: usize = 0;
        while i < finished.len()
            invariant
                i <= finished.len(),
                finished.len() == self.ids.len(),
                forall|k: int| 0 <= k < i ==> #[trigger] finished@[k],
            decreases finished.len() - i,
        {
            if !finished[i] {
                assert(!finished@[i as int]);
                return true;
            }
            i += 1;
        }
        false
    }
}

/// At most `MAX_TASKS` tasks of a kind are kept after a registration.
pub proof fn law_task_limit(ids: Seq<u64>, finished: Seq<bool>, id: u64)
    ensures
        register_spec(ids, finished, id).0.len() <= MAX_TASKS,
        register_spec(ids, finished, id).0.last() == id,
{
    let all = unfinished(ids, finished).push(id);
    if all.len() > MAX_TASKS {
        let k = all.skip(all.len() - MAX_TASKS);
        assert(k.last() == all.last());
    }
}

/// How a spoken sequence is played.
pub struct SequencePlan {
    pub category: PlaybackCategory,
    /// Stop the ordinary speech tasks before starting.
    pub clear_normal_tasks: bool,
    /// Wait before playing (to let what was cut off stop).
    pub delay_ms: u32,
    /// Drop the category's tracks before the first part.
    pub clear_at_start: bool,
    /// Drop the category's tracks when the first part starts playing.
    pub clear_with_first: bool,
}

/// The plan for a sequence: important speech ducks and is never delayed; ordinary
/// speech stops the ordinary tasks and drops its tracks, and waits 300 ms when it
/// cuts another sequence off; unless forced, the first part drops what its
/// category still plays.
pub fn sequence_plan(is_important: bool, is_forced: bool, has_active_normal: bool) -> (r: SequencePlan)
    ensures
        r.category == if is_important { PlaybackCategory::TtsImportant } else { PlaybackCategory::TtsNormal },
        r.clear_normal_tasks == !is_important,
        r.delay_ms == if !is_important && has_active_normal { 300u32 } else { 0u32 },
        r.clear_at_start == !is_important,
        r.clear_with_first == !is_forced,
{
    let category = if is_important { PlaybackCategory::TtsImportant } else { PlaybackCategory::TtsNormal };
    let normal = !is_important;
    let is_first_request = if normal { !has_active_normal } else { false };
    SequencePlan {
        category,
        clear_normal_tasks: normal,
        delay_ms: if normal && !is_first_request { 300 } else { 0 },
        clear_at_start: normal,
        clear_with_first: !is_forced,
    }
}

/// The parts a text is synthesized in: the trimmed text cut by a chunker with a
/// minimum of 30 characters.
pub fn speech_chunks(text: &str) -> (r: Vec<String>)
    ensures
        string_views(r@) == spec_chunk_text(trim(text@), 30, MAX_CHUNK_LENGTH as int),
{
    let v = crate::text::chars_of(text);
    let (a, b) = crate::text::trim_bounds(&v, 0, v.len());
    assert(v@.subrange(0, v.len() as int) =~= text@);
    let mut t: Vec<char> = Vec::new();
    let mut j = a;
    while j < b
        invariant
            a <= j <= b <= v.len(),
            t@ == v@.subrange(a as int, j as int),
        decreases b - j,
    {
        t.push(v[j]);
        assert(v@.subrange(a as int, j + 1) =~= v@.subrange(a as int, j as int).push(v@[j as int]));
        j += 1;
    }
    let trimmed = string_from_chars(&t);
    let chunker = TextChunker::new(30);
    chunker.chunk_text(trimmed.as_str())
}

} // verus!
