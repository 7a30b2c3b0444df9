//! The tactile display demo: eight boxes in rising strengths, steady or
//! blinking, inside borders whose dots run around the edge.
use vstd::prelude::*;
use crate::input::Language;

verus! {

broadcast use vstd::string::group_string_axioms;

/// Width of a border dot.
pub const OUT_LINE_DOT_SIZE: i16 = 1;
/// Frames per step of the running border.
pub const OUT_LINE_DOT_STEP: i16 = 15;
/// Gap between border dots.
pub const OUT_LINE_DOT_GAP: i16 = 3;
/// Gap between the border and the boxes.
pub const BOX_AREA_GAP: i16 = 2;
/// Gap of the inner border.
pub const INNER_BORDER_GAP: i16 = 1;

/// How the boxes show their strengths.
#[derive(Clone, Copy, Debug, PartialEq, Eq, Structural)]
pub enum Mode {
    /// Eight steady strengths.
    Static8,
    /// Eight blinking strengths.
    Blink8,
}

pub open spec fn mode_text(m: Mode, lang: Language) -> Seq<char> {
    match lang {
        Language::Ko => match m {
            Mode::Static8 => "8단계 일반"@,
            Mode::Blink8 => "8단계 깜빡임"@,
        },
        Language::En => match m {
            Mode::Static8 => "Level 8 Static"@,
            Mode::Blink8 => "Level 8 Blink"@,
        },
        Language::Ja => match m {
            Mode::Static8 => "8段階一般"@,
            Mode::Blink8 => "8段階点滅"@,
        },
    }
}

impl Mode {
    /// The number of boxes in the mode.
    pub fn total_steps(&self) -> (r: usize)
        ensures
            r == 8,
    {
        8
    }

    /// The spoken name of the mode.
    pub fn to_segments(&self, lang: Language) -> (r: Vec<String>)
        ensures
            r@.len() == 1,
            r@[0]@ == mode_text(*self, lang),
    {
        let t: &str = match lang {
            Language::Ko => match self {
                Mode::Static8 => "8단계 일반",
                Mode::Blink8 => "8단계 깜빡임",
            },
            Language::En => match self {
                Mode::Static8 => "Level 8 Static",
                Mode::Blink8 => "Level 8 Blink",
            },
            Language::Ja => match self {
                Mode::Static8 => "8段階一般",
                Mode::Blink8 => "8段階点滅",
            },
        };
        let mut v: Vec<String> = Vec::new();
        v.push(t.to_string());
        v
    }

    /// The other mode (the Function key switches).
    pub fn toggled(&self) -> (r: Mode)
        ensures
            r == (if *self == Mode::Blink8 { Mode::Static8 } else { Mode::Blink8 }),
    {
        match self {
            Mode::Blink8 => Mode::Static8,
            Mode::Static8 => Mode::Blink8,
        }
    }
}

pub open spec fn intro_text(lang: Language) -> Seq<char> {
    match lang {
        Language::Ko => "펑션키를 누르면 일반 모드와 깜빡임 모드가 전환됩니다. 현재 모드 "@,
        Language::En => "Press function key to toggle static and blink modes. Current mode "@,
        Language::Ja => "ファンクションキーを押すと一般モードと点滅モードが切り替わります。現在のモード "@,
    }
}

/// What is said at the start: how to switch, then the current mode.
pub fn intro_segments(mode: Mode, lang: Language) -> (r: Vec<String>)
    ensures
        r@.len() == 2,
        r@[0]@ == intro_text(lang),
        r@[1]@ == mode_text(mode, lang),
{
    let t: &str = match lang {
        Language::Ko => "펑션키를 누르면 일반 모드와 깜빡임 모드가 전환됩니다. 현재 모드 ",
        Language::En => "Press function key to toggle static and blink modes. Current mode ",
        Language::Ja => "ファンクションキーを押すと一般モードと点滅モードが切り替わります。現在のモード ",
    };
    let mut v: Vec<String> = Vec::new();
    v.push(t.to_string());
    let mut rest = mode.to_segments(lang);
    v.append(&mut rest);
    v
}

/// The strength of box `idx` of eight: evenly from 0 to 255.
pub open spec fn box_strength(idx: int) -> u8 {
    (idx * 255 / 7) as u8
}

/// The strengths of the `total` boxes.
pub fn box_strengths(total: usize) -> (r: Vec<u8>)
    requires
        total <= 8,
    ensures
        r@ == Seq::new(total as nat, |i: int| box_strength(i)),
{
    let mut v: Vec<u8> = Vec::new();
    let mut idx: usize = 0;
    while idx < total
        invariant
            idx <= total <= 8,
            v@ == Seq::new(idx as nat, |i: int| box_strength(i)),
        decreases total - idx,
    {
        let val = ((idx as u16) * 255 / 7) as u8;
        v.push(val);
        assert(v@ =~= Seq::new((idx + 1) as nat, |i: int| box_strength(i)));
        idx += 1;
    }
    v
}

/// The pin at position `t` (taken around the edge, clockwise from the top-left
/// corner) of the border of the `w` by `h` box at `(x, y)`.
pub open spec fn perimeter_point(x: int, y: int, w: int, h: int, t0: int) -> (int, int) {
    let l = 2 * w + 2 * h - 4;
    let t = t0 % l;
    if t < w {
        (x + t, y)
    } else if t < w + h - 1 {
        (x + w - 1, y + t - w + 1)
    } else if t < 2 * w + h - 2 {
        (x + w - 1 - (t - (w + h - 2)), y + h - 1)
    } else {
        (x, y + h - 1 - (t - (2 * w + h - 3)))
    }
}

/// Coordinates small enough that no border computation overflows.
pub open spec fn small_box(x: i16, y: i16, w: i16, h: i16) -> bool {
    &&& -1000 <= x <= 1000
    &&& -1000 <= y <= 1000
    &&& 2 <= w <= 1000
    &&& 2 <= h <= 1000
}

/// The pin at position `t` of a box's border.
pub fn get_perimeter_point(x: i16, y: i16, w: i16, h: i16, t: i16) -> (r: (i16, i16))
    requires
        small_box(x, y, w, h),
    ensures
        (r.0 as int, r.1 as int) == perimeter_point(x as int, y as int, w as int, h as int, t as int),
{
    let l = 2 * w + 2 * h - 4;
    let t0 = t;
    let t: i16 = if t0 >= 0 {
        t0 % l
    } else {
        let a = -(t0 + 1);
        let ra = a % l;
        proof {
            let q = (a as int) / (l as int);
            vstd::arithmetic::div_mod::lemma_fundamental_div_mod(a as int, l as int);
            assert(ra as int == (a as int) % (l as int));
            let li = l as int;
            let rai = ra as int;
            assert(t0 as int == -(q + 1) * li + (li - 1 - rai)) by (nonlinear_arith)
                requires
                    a as int == li * q + rai,
                    a as int == -(t0 as int) - 1,
            ;
            vstd::arithmetic::div_mod::lemma_fundamental_div_mod_converse_mod(
                t0 as int, l as int, -(q + 1), (l - 1 - ra) as int);
        }
        l - 1 - ra
    };
    assert(t as int == (t0 as int) % (l as int));
    if t < w {
        (x + t, y)
    } else if t < w + h - 1 {
        (x + w - 1, y + t - w + 1)
    } else if t < 2 * w + h - 2 {
        (x + w - 1 - (t - (w + h - 2)), y + h - 1)
    } else {
        (x, y + h - 1 - (t - (2 * w + h - 3)))
    }
}

/// Rust's `rem_euclid` for a positive divisor: the remainder in `0..p`.
fn rem_euclid(a: i32, p: i32) -> (r: i32)
    requires
        p > 0,
        -100000 <= a <= 100000,
    ensures
        r as int == (a as int) % (p as int),
{
    if a >= 0 {
        a % p
    } else {
        let b: i32 = -a;
        let rb: i32 = b % p;
        proof {
            vstd::arithmetic::div_mod::lemma_fundamental_div_mod(b as int, p as int);
            let q = (b as int) / (p as int);
            if rb == 0 {
                assert(a as int == (-q) * (p as int)) by (nonlinear_arith)
                    requires b as int == (p as int) * q + 0, a as int == -(b as int);
                vstd::arithmetic::div_mod::lemma_fundamental_div_mod_converse_mod(a as int, p as int, -q, 0);
            } else {
                assert(a as int == (-q - 1) * (p as int) + (p - rb)) by (nonlinear_arith)
                    requires b as int == (p as int) * q + rb, a as int == -(b as int);
                vstd::arithmetic::div_mod::lemma_fundamental_div_mod_converse_mod(a as int, p as int, -q - 1, (p - rb) as int);
            }
        }
        if rb == 0 { 0 } else { p - rb }
    }
}

/// Pin `i` of the thickness of a border dot at position `t`: inward from the
/// edge the position lies on.
pub open spec fn thick_point(p: (int, int), t: int, w: int, h: int, i: int) -> (int, int) {
    if t < w {
        (p.0, p.1 + i)
    } else if t < w + h - 1 {
        (p.0 - i, p.1)
    } else if t < 2 * w + h - 2 {
        (p.0, p.1 - i)
    } else {
        (p.0 + i, p.1)
    }
}

/// The pins of the first `n` border positions that a dot covers: dots `dot_w`
/// long with `gap` between them, shifted by `tick` steps in `direction`, each
/// `dot_h` pins thick.
pub open spec fn border_dots(x: int, y: int, w: int, h: int, shift: int, gap: int, dot_w: int, dot_h: int, n: int) -> Seq<(int, int)>
    decreases n,
{
    if n <= 0 {
        Seq::empty()
    } else {
        let t = n - 1;
        let prev = border_dots(x, y, w, h, shift, gap, dot_w, dot_h, n - 1);
        if (t - shift) % (gap + dot_w) < dot_w {
            let p = perimeter_point(x, y, w, h, t);
            prev + Seq::new(if dot_h > 0 { dot_h as nat } else { 0 }, |i: int| thick_point(p, t, w, h, i))
        } else {
            prev
        }
    }
}

/// A border of dots moving round the `w` by `h` box at `(x, y)`: nothing for a
/// box of a single row or column.
pub open spec fn moving_border(x: int, y: int, w: int, h: int, tick: int, direction: int, gap: int, dot_w: int, dot_h: int) -> Seq<(int, int)> {
    if w <= 1 || h <= 1 {
        Seq::empty()
    } else {
        border_dots(x, y, w, h, tick * direction, gap, dot_w, dot_h, 2 * w + 2 * h - 4)
    }
}

/// The pins of a moving border (see `moving_border`), in drawing order.
pub fn moving_border_pins(x: i16, y: i16, w: i16, h: i16, tick: i16, direction: i16, gap: i16, dot_w: i16, dot_h: i16) -> (r: Vec<(i16, i16)>)
    requires
        -1000 <= x <= 1000,
        -1000 <= y <= 1000,
        w <= 1000,
        h <= 1000,
        -3000 <= tick <= 3000,
        -1 <= direction <= 1,
        0 <= gap <= 100,
        0 <= dot_w <= 100,
        gap + dot_w > 0,
        0 <= dot_h <= 100,
    ensures
        r@.map_values(|p: (i16, i16)| (p.0 as int, p.1 as int)) == moving_border(x as int, y as int, w as int, h as int, tick as int, direction as int, gap as int, dot_w as int, dot_h as int),
{
    let mut out: Vec<(i16, i16)> = Vec::new();
    if w <= 1 || h <= 1 {
        assert(out@.map_values(|p: (i16, i16)| (p.0 as int, p.1 as int)) =~= Seq::<(int, int)>::empty());
        return out;
    }
    let l: i16 = 2 * w + 2 * h - 4;
    let period: i32 = gap as i32 + dot_w as i32;
    assert(-3000 <= (tick as i32) * (direction as i32) <= 3000) by (nonlinear_arith)
        requires -3000 <= tick <= 3000, -1 <= direction <= 1;
    let shift: i32 = tick as i32 * direction as i32;
    let mut t: i16 = 0;
    assert(out@.map_values(|p: (i16, i16)| (p.0 as int, p.1 as int)) =~= border_dots(x as int, y as int, w as int, h as int, shift as int, gap as int, dot_w as int, dot_h as int, 0));
    while t < l
        invariant
            -1000 <= x <= 1000,
            -1000 <= y <= 1000,
            2 <= w <= 1000,
            2 <= h <= 1000,
            l == 2 * w + 2 * h - 4,
            0 <= t <= l,
            period == gap + dot_w,
            period > 0,
            0 <= dot_w <= 100,
            0 <= dot_h <= 100,
            -3000 <= shift <= 3000,
            out@.map_values(|p: (i16, i16)| (p.0 as int, p.1 as int)) == border_dots(x as int, y as int, w as int, h as int, shift as int, gap as int, dot_w as int, dot_h as int, t as int),
        decreases l - t,
    {
        let phase: i32 = rem_euclid(t as i32 - shift, period);
        let ghost before = out@.map_values(|p: (i16, i16)| (p.0 as int, p.1 as int));
        if phase < dot_w as i32 {
            let p = get_perimeter_point(x, y, w, h, t);
            let ghost pp = perimeter_point(x as int, y as int, w as int, h as int, t as int);
            proof {
                vstd::arithmetic::div_mod::lemma_small_mod(t as nat, l as nat);
            }
            assert(-1000 <= p.0 <= 2000 && -1000 <= p.1 <= 2000);
            let mut i: i16 = 0;
            while i < dot_h
                invariant
                    0 <= i <= dot_h <= 100,
                    2 <= w <= 1000,
                    2 <= h <= 1000,
                    0 <= t < l,
                    (p.0 as int, p.1 as int) == pp,
                    -1000 <= p.0 <= 2000,
                    -1000 <= p.1 <= 2000,
                    out@.map_values(|q: (i16, i16)| (q.0 as int, q.1 as int)) == before + Seq::new(i as nat, |k: int| thick_point(pp, t as int, w as int, h as int, k)),
                decreases dot_h - i,
            {
                let np: (i16, i16) = if t < w {
                    (p.0, p.1 + i)
                } else if t < w + h - 1 {
                    (p.0 - i, p.1)
                } else if t < 2 * w + h - 2 {
                    (p.0, p.1 - i)
                } else {
                    (p.0 + i, p.1)
                };
                let ghost mid = out@.map_values(|q: (i16, i16)| (q.0 as int, q.1 as int));
                out.push(np);
                assert(out@.map_values(|q: (i16, i16)| (q.0 as int, q.1 as int)) =~= mid.push((np.0 as int, np.1 as int)));
                assert(Seq::new((i + 1) as nat, |k: int| thick_point(pp, t as int, w as int, h as int, k))
                    =~= Seq::new(i as nat, |k: int| thick_point(pp, t as int, w as int, h as int, k)).push(thick_point(pp, t as int, w as int, h as int, i as int)));
                i += 1;
            }
        }
        assert(out@.map_values(|q: (i16, i16)| (q.0 as int, q.1 as int)) =~= border_dots(x as int, y as int, w as int, h as int, shift as int, gap as int, dot_w as int, dot_h as int, t + 1));
        t += 1;
    }
    out
}

} // verus!
