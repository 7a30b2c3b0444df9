//! The analog clock: local time from the device clock, and when to redraw.
use vstd::prelude::*;
use crate::input::Language;
use crate::text::push_str;

verus! {

broadcast use vstd::string::group_string_axioms;

/// The time last said, by the clock.
#[derive(Clone, Copy, Debug, PartialEq, Eq, Structural)]
pub struct CurrentTime {
    pub hours: u64,
    pub minutes: u64,
    pub seconds: u64,
}

/// The clock's state.
pub struct AnalogClock {
    /// The second of the minute last drawn (60 before the first drawing).
    pub last_second: u64,
    /// Local time in seconds, for drawing.
    pub time_seconds: u64,
    pub current_time: Option<CurrentTime>,
}

/// Local seconds: UTC seconds plus the zone offset, as 64-bit two's complement.
pub open spec fn local_seconds(utc: u64, offset: i32) -> u64 {
    ((utc as int + offset as int) % 0x1_0000_0000_0000_0000) as u64
}

/// Hours (0..24), minutes and seconds of a count of seconds.
pub open spec fn clock_fields(t: u64) -> CurrentTime {
    CurrentTime { hours: ((t / 3600) % 24) as u64, minutes: ((t / 60) % 60) as u64, seconds: (t % 60) as u64 }
}

impl AnalogClock {
    /// A clock that draws at its first update.
    pub fn new() -> (r: Self)
        ensures
            r.last_second == 60,
            r.time_seconds == 0,
            r.current_time is None,
    {
        AnalogClock { last_second: 60, time_seconds: 0, current_time: None }
    }

    /// The Function key: the local time is taken to be said.
    pub fn on_time_request(&mut self, utc_seconds: u64, offset_seconds: i32) -> (r: CurrentTime)
        ensures
            r == clock_fields(local_seconds(utc_seconds, offset_seconds)),
            final(self).current_time == Some(r),
            final(self).last_second == old(self).last_second,
            final(self).time_seconds == old(self).time_seconds,
    {
        let t = local_time(utc_seconds, offset_seconds);
        let r = CurrentTime { hours: (t / 3600) % 24, minutes: (t / 60) % 60, seconds: t % 60 };
        self.current_time = Some(r);
        r
    }

    /// A frame: the local time is kept for drawing; returns whether the second of
    /// the minute changed since the last drawing.
    pub fn tick(&mut self, utc_seconds: u64, offset_seconds: i32) -> (r: bool)
        ensures
            final(self).time_seconds == local_seconds(utc_seconds, offset_seconds),
            r == (utc_seconds % 60 != old(self).last_second),
            final(self).last_second == utc_seconds % 60,
            final(self).current_time == old(self).current_time,
    {
        let current_second = utc_seconds % 60;
        self.time_seconds = local_time(utc_seconds, offset_seconds);
        if current_second != self.last_second {
            self.last_second = current_second;
            true
        } else {
            false
        }
    }
}

fn local_time(utc: u64, offset: i32) -> (r: u64)
    ensures
        r == local_seconds(utc, offset),
{
    let sum = (utc as i64).wrapping_add(offset as i64);
    let r = sum as u64;
    assert(r == local_seconds(utc, offset)) by (bit_vector)
        requires
            sum == (utc as i64).wrapping_add(offset as i64),
            r == sum as u64,
    ;
    r
}

/// What is said of a time: the parts (period, hour, minute and second words, as
/// the language reads them) joined.
pub open spec fn time_sentence(lang: Language, period: Seq<char>, h: Seq<char>, m: Seq<char>, s: Seq<char>) -> Seq<char> {
    match lang {
        Language::Ko => period + " "@ + h + " "@ + m + " "@ + s,
        _ => "It's "@ + h + " "@ + m + " "@ + period + " and "@ + s,
    }
}

/// Joins the words of a time into what is said.
pub fn time_text(lang: Language, period: &str, h: &str, m: &str, s: &str) -> (r: String)
    ensures
        r@ == time_sentence(lang, period@, h@, m@, s@),
{
    let mut out = String::new();
    match lang {
        Language::Ko => {
            push_str(&mut out, period);
            push_str(&mut out, " ");
            push_str(&mut out, h);
            push_str(&mut out, " ");
            push_str(&mut out, m);
            push_str(&mut out, " ");
            push_str(&mut out, s);
        },
        _ => {
            push_str(&mut out, "It's ");
            push_str(&mut out, h);
            push_str(&mut out, " ");
            push_str(&mut out, m);
            push_str(&mut out, " ");
            push_str(&mut out, period);
            push_str(&mut out, " and ");
            push_str(&mut out, s);
        },
    }
    assert(out@ =~= time_sentence(lang, period@, h@, m@, s@));
    out
}

/// The time told is the time of day on a 24-hour clock: hours below 24, minutes
/// and seconds below 60, and together they count the seconds since the last
/// midnight of the local time. So 15:30 is told as hour 15, not 3.
pub proof fn law_time_of_day(t: u64)
    ensures
        clock_fields(t).hours < 24,
        clock_fields(t).minutes < 60,
        clock_fields(t).seconds < 60,
        clock_fields(t).hours * 3600 + clock_fields(t).minutes * 60 + clock_fields(t).seconds == t % 86400,
{
    let x = t as int;
    let m = x / 60;
    let h = x / 3600;
    vstd::arithmetic::div_mod::lemma_fundamental_div_mod(x, 60);
    vstd::arithmetic::div_mod::lemma_fundamental_div_mod(m, 60);
    vstd::arithmetic::div_mod::lemma_div_denominator(x, 60, 60);
    assert(m / 60 == h);
    vstd::arithmetic::div_mod::lemma_fundamental_div_mod(h, 24);
    let sum = (h % 24) * 3600 + (m % 60) * 60 + x % 60;
    assert(x == (h / 24) * 86400 + sum) by (nonlinear_arith)
        requires
            x == 60 * m + x % 60,
            m == 60 * (m / 60) + m % 60,
            m / 60 == h,
            h == 24 * (h / 24) + h % 24,
            sum == (h % 24) * 3600 + (m % 60) * 60 + x % 60;
    assert(0 <= sum < 86400) by (nonlinear_arith)
        requires
            sum == (h % 24) * 3600 + (m % 60) * 60 + x % 60,
            0 <= h % 24 < 24,
            0 <= m % 60 < 60,
            0 <= x % 60 < 60;
    vstd::arithmetic::div_mod::lemma_fundamental_div_mod_converse(x, 86400, h / 24, sum);
}

/// Telling the time an hour later (same zone, no wrap of the device clock) gives
/// the next hour of the day with the same minutes and seconds.
pub proof fn law_an_hour_later(t: u64)
    requires
        t <= u64::MAX - 3600,
    ensures
        clock_fields((t + 3600) as u64).hours == (clock_fields(t).hours + 1) % 24,
        clock_fields((t + 3600) as u64).minutes == clock_fields(t).minutes,
        clock_fields((t + 3600) as u64).seconds == clock_fields(t).seconds,
{
    let x = t as int;
    vstd::arithmetic::div_mod::lemma_fundamental_div_mod(x, 60);
    vstd::arithmetic::div_mod::lemma_fundamental_div_mod_converse(x + 3600, 60, x / 60 + 60, x % 60);
    vstd::arithmetic::div_mod::lemma_fundamental_div_mod(x / 60, 60);
    vstd::arithmetic::div_mod::lemma_fundamental_div_mod_converse(x / 60 + 60, 60, (x / 60) / 60 + 1, (x / 60) % 60);
    vstd::arithmetic::div_mod::lemma_fundamental_div_mod(x, 3600);
    vstd::arithmetic::div_mod::lemma_fundamental_div_mod_converse(x + 3600, 3600, x / 3600 + 1, x % 3600);
    vstd::arithmetic::div_mod::lemma_fundamental_div_mod(x / 3600, 24);
    let h = x / 3600;
    if h % 24 == 23 {
        vstd::arithmetic::div_mod::lemma_fundamental_div_mod_converse(h + 1, 24, h / 24 + 1, 0);
    } else {
        vstd::arithmetic::div_mod::lemma_fundamental_div_mod_converse(h + 1, 24, h / 24, h % 24 + 1);
    }
}

} // verus!
