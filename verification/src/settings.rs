//! The settings applet: three settings (volume, language, speech rate), each a
//! list of values; Up and Down pick a setting, Left and Right step through its
//! values (wrapping) and apply them, Center applies and confirms.
use vstd::prelude::*;
use crate::input::{KeyCode, Language};
use crate::text::{chars_of, push_str, same_text};
use crate::launcher::{contains_text, has_sub};
use crate::speech::string_views;

verus! {

broadcast use vstd::string::group_string_axioms;

/// A setting of the device.
#[derive(Clone, Copy, Debug, PartialEq, Eq, Structural)]
pub enum SettingKind {
    Volume,
    Language,
    SpeechRate,
}

/// The settings in menu order.
pub open spec fn menu_items() -> Seq<SettingKind> {
    seq![SettingKind::Volume, SettingKind::Language, SettingKind::SpeechRate]
}

/// The setting at a menu position (`0..3`).
pub fn menu_item(i: usize) -> (r: SettingKind)
    requires
        i < 3,
    ensures
        r == menu_items()[i as int],
{
    if i == 0 {
        SettingKind::Volume
    } else if i == 1 {
        SettingKind::Language
    } else {
        SettingKind::SpeechRate
    }
}

/// The spoken name of a setting (Korean, or English for other languages).
pub open spec fn menu_name(k: SettingKind, lang: Language) -> Seq<char> {
    match k {
        SettingKind::Language => if lang == Language::Ko { "언어"@ } else { "Language"@ },
        SettingKind::Volume => if lang == Language::Ko { "볼륨"@ } else { "Volume"@ },
        SettingKind::SpeechRate => if lang == Language::Ko { "속도"@ } else { "Speed"@ },
    }
}

/// The name of a setting.
pub fn translate_menu_name(k: SettingKind, lang: Language) -> (r: &'static str)
    ensures
        r@ == menu_name(k, lang),
{
    match k {
        SettingKind::Language => if lang == Language::Ko { "언어" } else { "Language" },
        SettingKind::Volume => if lang == Language::Ko { "볼륨" } else { "Volume" },
        SettingKind::SpeechRate => if lang == Language::Ko { "속도" } else { "Speed" },
    }
}

/// The title said for a setting: its name and "설정".
pub fn menu_title(k: SettingKind, lang: Language) -> (r: String)
    ensures
        r@ == menu_name(k, lang) + " 설정"@,
{
    let mut s = String::new();
    push_str(&mut s, translate_menu_name(k, lang));
    push_str(&mut s, " 설정");
    s
}

/// The spoken name of a value: languages "0" and "1" and rates "0" to "2" by
/// name; a volume by its number words (when the value is a number); otherwise
/// the value's display name.
pub open spec fn value_name(k: SettingKind, val: Seq<char>, display: Seq<char>, number_words: Option<Seq<char>>, lang: Language) -> Seq<char> {
    let ko = lang == Language::Ko;
    match k {
        SettingKind::Language => if val == "0"@ {
            if ko { "한국어"@ } else { "Korean"@ }
        } else if val == "1"@ {
            if ko { "영어"@ } else { "English"@ }
        } else {
            display
        },
        SettingKind::Volume => match number_words {
            Some(w) => w,
            None => display,
        },
        SettingKind::SpeechRate => if val == "0"@ {
            if ko { "느리게"@ } else { "Slow"@ }
        } else if val == "1"@ {
            if ko { "보통"@ } else { "Normal"@ }
        } else if val == "2"@ {
            if ko { "빠르게"@ } else { "Fast"@ }
        } else {
            display
        },
    }
}

fn is_digit_text(val: &str, d: char) -> (r: bool)
    ensures
        r == (val@ == seq![d]),
{
    let cs = crate::text::chars_of(val);
    let r = cs.len() == 1 && cs[0] == d;
    if r {
        assert(val@ =~= seq![d]);
    }
    r
}

/// The name of a value; `number_words` is how the language reads the value
/// when it is a number (used for the volume).
pub fn translate_value_name(k: SettingKind, val: &str, display: &str, number_words: Option<String>, lang: Language) -> (r: String)
    ensures
        r@ == value_name(k, val@, display@, crate::weather::opt_view(number_words), lang),
{
    proof {
        reveal_strlit("0");
        reveal_strlit("1");
        reveal_strlit("2");
        assert("0"@ =~= seq!['0']);
        assert("1"@ =~= seq!['1']);
        assert("2"@ =~= seq!['2']);
    }
    let ko = lang == Language::Ko;
    match k {
        SettingKind::Language => {
            if is_digit_text(val, '0') {
                (if ko { "한국어" } else { "Korean" }).to_string()
            } else if is_digit_text(val, '1') {
                (if ko { "영어" } else { "English" }).to_string()
            } else {
                display.to_string()
            }
        },
        SettingKind::Volume => match number_words {
            Some(w) => w,
            None => display.to_string(),
        },
        SettingKind::SpeechRate => {
            if is_digit_text(val, '0') {
                (if ko { "느리게" } else { "Slow" }).to_string()
            } else if is_digit_text(val, '1') {
                (if ko { "보통" } else { "Normal" }).to_string()
            } else if is_digit_text(val, '2') {
                (if ko { "빠르게" } else { "Fast" }).to_string()
            } else {
                display.to_string()
            }
        },
    }
}

/// The device language a language value selects: "1" is English, anything else
/// Korean.
pub fn language_of_value(val: &str) -> (r: Language)
    ensures
        r == if val@ == "1"@ { Language::En } else { Language::Ko },
{
    proof {
        reveal_strlit("1");
        assert("1"@ =~= seq!['1']);
    }
    if is_digit_text(val, '1') { Language::En } else { Language::Ko }
}

/// What a key asks of the host.
#[derive(Clone, Copy, Debug, PartialEq, Eq, Structural)]
pub enum SettingsAction {
    Idle,
    /// Another setting was selected: say its title.
    AnnounceSetting,
    /// The selected setting's value changed: apply it and say its name.
    ApplyAndAnnounceValue,
    /// Apply the selected value and confirm it.
    ApplyAndConfirm,
}

/// The selection: the setting and, for each setting, its value's position.
pub struct SettingsState {
    pub selected_index: usize,
    pub current_value_indices: Vec<usize>,
    /// How many values each setting has.
    pub value_counts: Vec<usize>,
}

/// The selection is on a setting and each value position is inside its list.
pub open spec fn settings_ok(s: SettingsState) -> bool {
    &&& s.current_value_indices.len() == 3
    &&& s.value_counts.len() == 3
    &&& s.selected_index < 3
    &&& forall|i: int| 0 <= i < 3 ==> #[trigger] s.value_counts@[i] >= 1 && s.current_value_indices@[i] < s.value_counts@[i]
}

impl SettingsState {
    /// The first setting selected, each at its first value, with these counts of
    /// values.
    pub fn new(volume_values: usize, language_values: usize, rate_values: usize) -> (r: Self)
        requires
            volume_values >= 1,
            language_values >= 1,
            rate_values >= 1,
        ensures
            settings_ok(r),
            r.selected_index == 0,
            r.current_value_indices@ == seq![0usize, 0, 0],
            r.value_counts@ == seq![volume_values, language_values, rate_values],
    {
        let mut idx: Vec<usize> = Vec::new();
        idx.push(0);
        idx.push(0);
        idx.push(0);
        let mut counts: Vec<usize> = Vec::new();
        counts.push(volume_values);
        counts.push(language_values);
        counts.push(rate_values);
        let r = SettingsState { selected_index: 0, current_value_indices: idx, value_counts: counts };
        assert(r.current_value_indices@ =~= seq![0usize, 0, 0]);
        assert(r.value_counts@ =~= seq![volume_values, language_values, rate_values]);
        r
    }

    /// A key press: Up and Down move between settings (stopping at the ends),
    /// Left and Right step the selected setting's value with wrapping, Center
    /// applies it.
    pub fn handle_key(&mut self, code: KeyCode) -> (r: SettingsAction)
        requires
            settings_ok(*old(self)),
        ensures
            settings_ok(*final(self)),
            final(self).value_counts@ == old(self).value_counts@,
            ({
                let sel = old(self).selected_index;
                let cur = old(self).current_value_indices@[sel as int];
                let n = old(self).value_counts@[sel as int];
                match code {
                    KeyCode::Up => if sel > 0 {
                        final(self).selected_index == sel - 1 && r == SettingsAction::AnnounceSetting
                            && final(self).current_value_indices@ == old(self).current_value_indices@
                    } else {
                        *final(self) == *old(self) && r == SettingsAction::Idle
                    },
                    KeyCode::Down => if sel + 1 < 3 {
                        final(self).selected_index == sel + 1 && r == SettingsAction::AnnounceSetting
                            && final(self).current_value_indices@ == old(self).current_value_indices@
                    } else {
                        *final(self) == *old(self) && r == SettingsAction::Idle
                    },
                    KeyCode::Left => final(self).selected_index == sel && r == SettingsAction::ApplyAndAnnounceValue
                        && final(self).current_value_indices@ == old(self).current_value_indices@.update(sel as int,
                        if cur > 0 { (cur - 1) as usize } else { (n - 1) as usize }),
                    KeyCode::Right => final(self).selected_index == sel && r == SettingsAction::ApplyAndAnnounceValue
                        && final(self).current_value_indices@ == old(self).current_value_indices@.update(sel as int,
                        if cur < n - 1 { (cur + 1) as usize } else { 0usize }),
                    KeyCode::Center => *final(self) == *old(self) && r == SettingsAction::ApplyAndConfirm,
                    _ => *final(self) == *old(self) && r == SettingsAction::Idle,
                }
            }),
    {
        let sel = self.selected_index;
        match code {
            KeyCode::Up => {
                if sel > 0 {
                    self.selected_index = sel - 1;
                    SettingsAction::AnnounceSetting
                } else {
                    SettingsAction::Idle
                }
            },
            KeyCode::Down => {
                if sel + 1 < 3 {
                    self.selected_index = sel + 1;
                    SettingsAction::AnnounceSetting
                } else {
                    SettingsAction::Idle
                }
            },
            KeyCode::Left => {
                let cur = self.current_value_indices[sel];
                let n = self.value_counts[sel];
                let v = if cur > 0 { cur - 1 } else { n - 1 };
                self.current_value_indices.set(sel, v);
                SettingsAction::ApplyAndAnnounceValue
            },
            KeyCode::Right => {
                let cur = self.current_value_indices[sel];
                let n = self.value_counts[sel];
                let v = if cur < n - 1 { cur + 1 } else { 0 };
                self.current_value_indices.set(sel, v);
                SettingsAction::ApplyAndAnnounceValue
            },
            KeyCode::Center => SettingsAction::ApplyAndConfirm,
            _ => SettingsAction::Idle,
        }
    }
}

/// Stepping a value right then left returns to it.
pub proof fn law_value_steps_undo(cur: int, n: int)
    requires
        0 <= cur < n,
    ensures
        ({
            let r = if cur < n - 1 { cur + 1 } else { 0 };
            (if r > 0 { r - 1 } else { n - 1 }) == cur
        }),
{
}

/// Height of a setting's box on the display, and the space below it.
pub const ITEM_HEIGHT: i16 = 10;
pub const ITEM_SPACING: i16 = 2;

/// A part of a setting's box filled pin by pin.
#[derive(Clone, Copy, Debug, PartialEq, Eq, Structural)]
pub enum BoxPart {
    /// Every pin.
    Full,
    /// A value's small box at column `vx`, `vw` wide, cut at column `limit`,
    /// from row `iy`, `ih` high: filled when chosen, outlined otherwise.
    Value { vx: i16, vw: i16, limit: i16, iy: i16, ih: i16, chosen: bool },
}

pub open spec fn part_has(p: BoxPart, i: int, j: int) -> bool {
    match p {
        BoxPart::Full => true,
        BoxPart::Value { vx, vw, limit, iy, ih, chosen } =>
            i < limit && (chosen || j == iy || j == iy + ih - 1 || i == vx || i == vx + vw - 1),
    }
}

/// The pins of a part in columns `x0 .. x0 + n` of row `j`, at strength `v`.
pub open spec fn part_row(p: BoxPart, x0: int, n: int, j: int, v: u8) -> Seq<(int, int, u8)>
    decreases n,
{
    if n <= 0 {
        Seq::empty()
    } else {
        let prev = part_row(p, x0, n - 1, j, v);
        if part_has(p, x0 + n - 1, j) { prev.push((x0 + n - 1, j, v)) } else { prev }
    }
}

/// The pins of a part in columns `x0 .. x1` of rows `y0 .. y0 + n`, row by row.
pub open spec fn part_rect(p: BoxPart, x0: int, x1: int, y0: int, n: int, v: u8) -> Seq<(int, int, u8)>
    decreases n,
{
    if n <= 0 {
        Seq::empty()
    } else {
        part_rect(p, x0, x1, y0, n - 1, v) + part_row(p, x0, x1 - x0, y0 + n - 1, v)
    }
}

/// Top and bottom edges of a box, column by column.
pub open spec fn edges_h(x0: int, n: int, y: int, y2: int, v: u8) -> Seq<(int, int, u8)>
    decreases n,
{
    if n <= 0 { Seq::empty() } else { edges_h(x0, n - 1, y, y2, v) + seq![(x0 + n - 1, y, v), (x0 + n - 1, y2, v)] }
}

/// Left and right edges of a box, row by row.
pub open spec fn edges_v(y0: int, n: int, x: int, x2: int, v: u8) -> Seq<(int, int, u8)>
    decreases n,
{
    if n <= 0 { Seq::empty() } else { edges_v(y0, n - 1, x, x2, v) + seq![(x, y0 + n - 1, v), (x2, y0 + n - 1, v)] }
}

pub open spec fn int_max(a: int, b: int) -> int {
    if a >= b { a } else { b }
}

/// The first `k` value boxes inside a setting's box whose inside starts at
/// column `ix` and row `iy`, `iw` by `ih`, each `bw` apart.
pub open spec fn value_boxes(ix: int, iy: int, iw: int, ih: int, bw: int, cur: int, v: u8, k: int) -> Seq<(int, int, u8)>
    decreases k,
{
    if k <= 0 {
        Seq::empty()
    } else {
        let vx = ix + (k - 1) * bw;
        let vw = bw - 1;
        value_boxes(ix, iy, iw, ih, bw, cur, v, k - 1) + part_rect(
            BoxPart::Value { vx: vx as i16, vw: vw as i16, limit: (ix + iw) as i16, iy: iy as i16, ih: ih as i16, chosen: k - 1 == cur },
            vx, vx + vw, iy, ih, v)
    }
}

/// A setting's box at column `x` and row `y`, `w` by `h`: filled when selected,
/// outlined otherwise; inside it, when the setting has values and there is room,
/// a small box per value (at least two pins apart), the chosen one filled. The
/// value boxes are cleared pins in a selected box and raised ones otherwise.
pub open spec fn menu_box(x: int, y: int, w: int, h: int, selected: bool, n: int, cur: int) -> Seq<(int, int, u8)> {
    let back = if selected { part_rect(BoxPart::Full, x, x + w, y, h, 255) } else { edges_h(x, w, y, y + h - 1, 255) + edges_v(y, h, x, x + w - 1, 255) };
    let iw = w - 4;
    let ih = h - 4;
    back + if n > 0 && iw > 0 && ih > 0 {
        value_boxes(x + 2, y + 2, iw, ih, int_max(iw / n, 2), cur, if selected { 0u8 } else { 255u8 }, n)
    } else {
        Seq::empty()
    }
}

pub open spec fn pins3_view(v: Seq<(i16, i16, u8)>) -> Seq<(int, int, u8)> {
    v.map_values(|p: (i16, i16, u8)| (p.0 as int, p.1 as int, p.2))
}

fn part_rect_into(out: &mut Vec<(i16, i16, u8)>, p: BoxPart, x0: i16, x1: i16, y0: i16, n: i16, v: u8)
    requires
        -5000 <= x0 <= 5000,
        -5000 <= x1 <= 5000,
        -5000 <= y0 <= 5000,
        0 <= n <= 5000,
        p matches BoxPart::Value { vx, vw, limit, iy, ih, chosen } ==> -5000 <= vx <= 5000 && -5000 <= vw <= 5000 && -5000 <= iy <= 5000 && -5000 <= ih <= 5000,
    ensures
        pins3_view(final(out)@) == pins3_view(old(out)@) + part_rect(p, x0 as int, x1 as int, y0 as int, n as int, v),
{
    let ghost base = pins3_view(out@);
    let mut r: i16 = 0;
    while r < n
        invariant
            -5000 <= x0 <= 5000,
            -5000 <= x1 <= 5000,
            -5000 <= y0 <= 5000,
            0 <= r <= n <= 5000,
            p matches BoxPart::Value { vx, vw, limit, iy, ih, chosen } ==> -5000 <= vx <= 5000 && -5000 <= vw <= 5000 && -5000 <= iy <= 5000 && -5000 <= ih <= 5000,
            pins3_view(out@) == base + part_rect(p, x0 as int, x1 as int, y0 as int, r as int, v),
        decreases n - r,
    {
        let j: i16 = y0 + r;
        let ghost row_start = pins3_view(out@);
        let mut i: i16 = x0;
        while i < x1
            invariant
                -5000 <= x0 <= 5000,
                -5000 <= x1 <= 5000,
                -10000 <= j <= 10000,
                x0 <= i <= x1 || (i == x0 && x1 <= x0),
                p matches BoxPart::Value { vx, vw, limit, iy, ih, chosen } ==> -5000 <= vx <= 5000 && -5000 <= vw <= 5000 && -5000 <= iy <= 5000 && -5000 <= ih <= 5000,
                pins3_view(out@) == row_start + part_row(p, x0 as int, i - x0, j as int, v),
            decreases x1 - i,
        {
            let has: bool = match p {
                BoxPart::Full => true,
                BoxPart::Value { vx, vw, limit, iy, ih, chosen } =>
                    i < limit && (chosen || j == iy || j == iy + ih - 1 || i == vx || i == vx + vw - 1),
            };
            let ghost before = pins3_view(out@);
            if has {
                out.push((i, j, v));
                assert(pins3_view(out@) =~= before.push((i as int, j as int, v)));
            }
            i += 1;
        }
        proof {
            if x1 <= x0 {
                assert(part_row(p, x0 as int, x1 - x0, j as int, v) =~= Seq::empty());
                assert(part_row(p, x0 as int, 0, j as int, v) =~= Seq::empty());
            }
        }
        assert(pins3_view(out@) =~= base + part_rect(p, x0 as int, x1 as int, y0 as int, r + 1, v));
        r += 1;
    }
}

/// The pins of a setting's box (see `menu_box`), in drawing order.
pub fn menu_box_pins(x: i16, y: i16, width: i16, height: i16, selected: bool, num_values: usize, current: usize) -> (r: Vec<(i16, i16, u8)>)
    requires
        -1000 <= x <= 1000,
        -1000 <= y <= 1000,
        -1000 <= width <= 1000,
        0 <= height <= 1000,
        num_values <= 1000,
    ensures
        pins3_view(r@) == menu_box(x as int, y as int, width as int, height as int, selected, num_values as int, current as int),
{
    let mut out: Vec<(i16, i16, u8)> = Vec::new();
    if selected {
        part_rect_into(&mut out, BoxPart::Full, x, x + width, y, height, 255);
    } else {
        let mut i: i16 = 0;
        while i < width
            invariant
                -1000 <= x <= 1000,
                -1000 <= y <= 1000,
                -1000 <= width <= 1000,
                0 <= height <= 1000,
                0 <= i,
                i <= width || i == 0,
                pins3_view(out@) == edges_h(x as int, i as int, y as int, y + height - 1, 255u8),
            decreases width - i,
        {
            let ghost before = pins3_view(out@);
            out.push((x + i, y, 255));
            out.push((x + i, y + height - 1, 255));
            assert(pins3_view(out@) =~= before + seq![((x + i) as int, y as int, 255u8), ((x + i) as int, y + height - 1, 255u8)]);
            i += 1;
        }
        let ghost top = pins3_view(out@);
        assert(top == edges_h(x as int, width as int, y as int, y + height - 1, 255u8));
        let mut j: i16 = 0;
        while j < height
            invariant
                -1000 <= x <= 1000,
                -1000 <= y <= 1000,
                -1000 <= width <= 1000,
                0 <= height <= 1000,
                0 <= j <= height,
                pins3_view(out@) == top + edges_v(y as int, j as int, x as int, x + width - 1, 255u8),
            decreases height - j,
        {
            let ghost before = pins3_view(out@);
            out.push((x, y + j, 255));
            out.push((x + width - 1, y + j, 255));
            assert(pins3_view(out@) =~= before + seq![(x as int, (y + j) as int, 255u8), (x + width - 1, (y + j) as int, 255u8)]);
            j += 1;
        }
    }
    let ghost back = pins3_view(out@);
    let inner_x: i16 = x + 2;
    let inner_y: i16 = y + 2;
    let inner_w: i16 = width - 4;
    let inner_h: i16 = height - 4;
    if num_values > 0 && inner_w > 0 && inner_h > 0 {
        let n: i16 = num_values as i16;
        let q: i16 = inner_w / n;
        let box_w: i16 = if q >= 2 { q } else { 2 };
        let val: u8 = if selected { 0 } else { 255 };
        proof {
            vstd::arithmetic::div_mod::lemma_fundamental_div_mod(inner_w as int, n as int);
            let rem: int = inner_w as int % n as int;
            assert(q as int == inner_w as int / n as int);
            assert(0 <= rem);
            assert(q * n <= inner_w) by (nonlinear_arith)
                requires inner_w == n * q + rem, 0 <= rem;
        }
        assert(box_w <= 1000);
        let mut k: i16 = 0;
        while k < n
            invariant
                -1000 <= x <= 1000,
                -1000 <= y <= 1000,
                0 < inner_w <= 996,
                0 < inner_h <= 996,
                inner_x == x + 2,
                inner_y == y + 2,
                inner_w == width - 4,
                inner_h == height - 4,
                1 <= n <= 1000,
                n == num_values,
                2 <= box_w <= 1000,
                box_w == int_max(inner_w as int / n as int, 2),
                box_w * n <= inner_w || box_w == 2,
                val == (if selected { 0u8 } else { 255u8 }),
                0 <= k <= n,
                pins3_view(out@) == back + value_boxes(inner_x as int, inner_y as int, inner_w as int, inner_h as int, box_w as int, current as int, val, k as int),
            decreases n - k,
        {
            assert(k * box_w <= 2000) by (nonlinear_arith)
                requires 0 <= k < n, 2 <= box_w, box_w * n <= inner_w || box_w == 2, n <= 1000, inner_w <= 996;
            assert(k * box_w >= 0) by (nonlinear_arith)
                requires 0 <= k, 0 <= box_w;
            let vx: i16 = inner_x + k * box_w;
            let vw: i16 = box_w - 1;
            let chosen: bool = (k as usize) == current;
            part_rect_into(&mut out, BoxPart::Value { vx, vw, limit: inner_x + inner_w, iy: inner_y, ih: inner_h, chosen }, vx, vx + vw, inner_y, inner_h, val);
            k += 1;
        }
        assert(pins3_view(out@) == menu_box(x as int, y as int, width as int, height as int, selected, num_values as int, current as int));
    } else {
        assert(pins3_view(out@) =~= back + Seq::empty());
    }
    out
}

/// How far the list is scrolled so that the selected setting shows on a
/// display `h` high: whole box steps, only once the selection passes the boxes
/// that fit.
pub open spec fn scroll_offset(selected: int, h: int) -> int {
    let step = ITEM_HEIGHT + ITEM_SPACING;
    let visible = int_max(h / step, 1);
    if selected >= visible { (selected - visible + 1) * step } else { 0 }
}

/// The boxes of the first `k` settings that show on a `w` by `h` display, one
/// below the other and scrolled to the selection.
pub open spec fn settings_screen(s: SettingsState, w: int, h: int, k: int) -> Seq<(int, int, u8)>
    decreases k,
{
    if k <= 0 {
        Seq::empty()
    } else {
        let i = k - 1;
        let start_y = i * (ITEM_HEIGHT + ITEM_SPACING) - scroll_offset(s.selected_index as int, h);
        settings_screen(s, w, h, k - 1) + if start_y + ITEM_HEIGHT > 0 && start_y < h {
            menu_box(1, start_y, w - 2, ITEM_HEIGHT as int, i == s.selected_index, s.value_counts@[i] as int, s.current_value_indices@[i] as int)
        } else {
            Seq::empty()
        }
    }
}

impl SettingsState {
    /// The pins of the settings screen on a `width` by `height` display (see
    /// `settings_screen`).
    pub fn screen_pins(&self, width: i16, height: i16) -> (r: Vec<(i16, i16, u8)>)
        requires
            settings_ok(*self),
            0 <= width <= 1000,
            0 <= height <= 1000,
            forall|i: int| 0 <= i < 3 ==> #[trigger] self.value_counts@[i] <= 1000,
        ensures
            pins3_view(r@) == settings_screen(*self, width as int, height as int, 3),
    {
        let step: i16 = ITEM_HEIGHT + ITEM_SPACING;
        let q: i16 = height / step;
        let visible: i16 = if q >= 1 { q } else { 1 };
        let sel: i16 = self.selected_index as i16;
        let scroll: i16 = if sel >= visible { (sel - visible + 1) * step } else { 0 };
        assert(scroll == scroll_offset(self.selected_index as int, height as int));
        let mut out: Vec<(i16, i16, u8)> = Vec::new();
        let mut i: usize = 0;
        while i < 3
            invariant
                settings_ok(*self),
                0 <= width <= 1000,
                0 <= height <= 1000,
                forall|j: int| 0 <= j < 3 ==> #[trigger] self.value_counts@[j] <= 1000,
                scroll == scroll_offset(self.selected_index as int, height as int),
                0 <= scroll <= 36,
                step == 12,
                i <= 3,
                pins3_view(out@) == settings_screen(*self, width as int, height as int, i as int),
            decreases 3 - i,
        {
            let start_y: i16 = (i as i16) * step - scroll;
            let ghost before = pins3_view(out@);
            if start_y + ITEM_HEIGHT > 0 && start_y < height {
                let b = menu_box_pins(1, start_y, width - 2, ITEM_HEIGHT, i == self.selected_index,
                    self.value_counts[i], self.current_value_indices[i]);
                let ghost bv = pins3_view(b@);
                let mut k: usize = 0;
                while k < b.len()
                    invariant
                        k <= b@.len(),
                        bv == pins3_view(b@),
                        pins3_view(out@) == before + bv.take(k as int),
                    decreases b@.len() - k,
                {
                    let ghost prev = pins3_view(out@);
                    out.push(b[k]);
                    assert(pins3_view(out@) =~= prev.push(bv[k as int]));
                    assert(bv.take(k as int + 1) =~= bv.take(k as int).push(bv[k as int]));
                    k += 1;
                }
                assert(bv.take(b@.len() as int) =~= bv);
            } else {
                assert(pins3_view(out@) =~= before + Seq::empty());
            }
            i += 1;
        }
        out
    }
}

/// Whether an option that the device offers for a setting is listed: Japanese is
/// left out of the languages (by its value "2" or its name).
pub open spec fn option_kept(k: SettingKind, display: Seq<char>, value: Seq<char>) -> bool {
    !(k == SettingKind::Language && (value == "2"@ || has_sub(display, "Japanese"@) || has_sub(display, "日本語"@)))
}

pub fn keep_option(k: SettingKind, display: &str, value: &str) -> (r: bool)
    ensures
        r == option_kept(k, display@, value@),
{
    if k != SettingKind::Language {
        return true;
    }
    let name = chars_of(display);
    !(same_text(value, "2") || contains_text(&name, "Japanese") || contains_text(&name, "日本語"))
}

pub open spec fn pair_views(v: Seq<(String, String)>) -> Seq<(Seq<char>, Seq<char>)> {
    v.map_values(|p: (String, String)| (p.0@, p.1@))
}

/// The options of a setting that are listed, in the device's order.
pub open spec fn kept_options(k: SettingKind, opts: Seq<(Seq<char>, Seq<char>)>) -> Seq<(Seq<char>, Seq<char>)>
    decreases opts.len(),
{
    if opts.len() == 0 {
        Seq::empty()
    } else {
        let prev = kept_options(k, opts.drop_last());
        let p = opts.last();
        if option_kept(k, p.0, p.1) { prev.push(p) } else { prev }
    }
}

/// The listed options (display name and value) of a setting (see
/// `option_kept`).
pub fn filter_options(k: SettingKind, options: &Vec<(String, String)>) -> (r: Vec<(String, String)>)
    ensures
        pair_views(r@) == kept_options(k, pair_views(options@)),
{
    let mut out: Vec<(String, String)> = Vec::new();
    let mut i: usize = 0;
    while i < options.len()
        invariant
            i <= options@.len(),
            pair_views(out@) == kept_options(k, pair_views(options@).take(i as int)),
        decreases options@.len() - i,
    {
        let (name, value) = &options[i];
        assert(pair_views(options@).take(i as int + 1).drop_last() =~= pair_views(options@).take(i as int));
        let ghost before = pair_views(out@);
        if keep_option(k, name.as_str(), value.as_str()) {
            out.push((name.clone(), value.clone()));
            assert(pair_views(out@) =~= before.push((name@, value@)));
        }
        i += 1;
    }
    assert(pair_views(options@).take(options@.len() as int) =~= pair_views(options@));
    out
}

/// The position of the first value equal to `current`, if any.
pub fn value_position(values: &Vec<String>, current: &str) -> (r: Option<usize>)
    ensures
        r matches Some(i) ==> i < values@.len() && values@[i as int]@ == current@
            && forall|j: int| 0 <= j < i ==> #[trigger] values@[j]@ != current@,
        r is None ==> forall|j: int| 0 <= j < values@.len() ==> #[trigger] values@[j]@ != current@,
{
    let mut i: usize = 0;
    while i < values.len()
        invariant
            i <= values@.len(),
            forall|j: int| 0 <= j < i ==> #[trigger] values@[j]@ != current@,
        decreases values@.len() - i,
    {
        if same_text(values[i].as_str(), current) {
            return Some(i);
        }
        i += 1;
    }
    None
}

impl SettingsState {
    /// Puts setting `i` at value position `pos` (when the device reports its
    /// stored value).
    pub fn set_value_index(&mut self, i: usize, pos: usize)
        requires
            settings_ok(*old(self)),
            i < 3,
            pos < old(self).value_counts@[i as int],
        ensures
            settings_ok(*final(self)),
            final(self).selected_index == old(self).selected_index,
            final(self).value_counts@ == old(self).value_counts@,
            final(self).current_value_indices@ == old(self).current_value_indices@.update(i as int, pos),
    {
        self.current_value_indices.set(i, pos);
        assert forall|k: int| 0 <= k < 3 implies #[trigger] self.value_counts@[k] >= 1 && self.current_value_indices@[k] < self.value_counts@[k] by {
            if k != i as int {
                assert(self.current_value_indices@[k] == old(self).current_value_indices@[k]);
            }
        }
    }
}

/// The options of each setting before the device reports its own: display
/// names and values.
pub open spec fn default_names() -> Seq<Seq<Seq<char>>> {
    seq![
        seq!["10"@, "20"@, "30"@, "40"@, "50"@, "60"@, "70"@, "80"@, "90"@, "100"@],
        seq!["한국어"@, "영어"@],
        seq!["느리게"@, "보통"@, "빠르게"@],
    ]
}

pub open spec fn default_values() -> Seq<Seq<Seq<char>>> {
    seq![
        seq!["10"@, "20"@, "30"@, "40"@, "50"@, "60"@, "70"@, "80"@, "90"@, "100"@],
        seq!["0"@, "1"@],
        seq!["0"@, "1"@, "2"@],
    ]
}

pub open spec fn nested_views(v: Seq<Vec<String>>) -> Seq<Seq<Seq<char>>> {
    v.map_values(|x: Vec<String>| string_views(x@))
}

fn strings(items: &Vec<&str>) -> (r: Vec<String>)
    ensures
        string_views(r@) == items@.map_values(|t: &str| t@),
{
    let mut v: Vec<String> = Vec::new();
    let mut i: usize = 0;
    while i < items.len()
        invariant
            i <= items@.len(),
            string_views(v@) == items@.take(i as int).map_values(|t: &str| t@),
        decreases items@.len() - i,
    {
        let ghost before = string_views(v@);
        v.push(items[i].to_string());
        assert(string_views(v@) =~= before.push(items@[i as int]@));
        assert(items@.take(i as int + 1).map_values(|t: &str| t@) =~= items@.take(i as int).map_values(|t: &str| t@).push(items@[i as int]@));
        i += 1;
    }
    assert(items@.take(items@.len() as int) =~= items@);
    v
}

/// The default options: display names and values of each setting, in menu
/// order.
pub fn default_choices() -> (r: (Vec<Vec<String>>, Vec<Vec<String>>))
    ensures
        nested_views(r.0@) == default_names(),
        nested_views(r.1@) == default_values(),
{
    let volume = strings(&vec!["10", "20", "30", "40", "50", "60", "70", "80", "90", "100"]);
    let lang_names = strings(&vec!["한국어", "영어"]);
    let rate_names = strings(&vec!["느리게", "보통", "빠르게"]);
    let volume_values = strings(&vec!["10", "20", "30", "40", "50", "60", "70", "80", "90", "100"]);
    let lang_values = strings(&vec!["0", "1"]);
    let rate_values = strings(&vec!["0", "1", "2"]);
    assert(string_views(volume@) =~= default_names()[0]);
    assert(string_views(lang_names@) =~= default_names()[1]);
    assert(string_views(rate_names@) =~= default_names()[2]);
    assert(string_views(volume_values@) =~= default_values()[0]);
    assert(string_views(lang_values@) =~= default_values()[1]);
    assert(string_views(rate_values@) =~= default_values()[2]);
    let names = vec![volume, lang_names, rate_names];
    let values = vec![volume_values, lang_values, rate_values];
    assert(nested_views(names@) =~= default_names());
    assert(nested_views(values@) =~= default_values());
    (names, values)
}

/// What the settings applet says when it starts: how to use it, then the first
/// setting's title and its current value's name.
pub open spec fn intro_parts(lang: Language, menu: Seq<char>, value: Seq<char>) -> Seq<Seq<char>> {
    if lang == Language::Ko {
        seq!["설정 앱을 시작합니다. 위 아래 방향키로 설정 항목을 고르고 좌우 방향키로 값을 변경하세요. 첫 번째 항목, "@, menu, ", 현재 값 "@, value, "."@]
    } else {
        seq!["Starting Settings app. Use Up/Down to select items, Left/Right to change values. First item: "@, menu, ", Current value: "@, value, "."@]
    }
}

pub fn settings_intro(lang: Language, menu: &str, value: &str) -> (r: Vec<String>)
    ensures
        string_views(r@) == intro_parts(lang, menu@, value@),
{
    let r = if lang == Language::Ko {
        vec![
            "설정 앱을 시작합니다. 위 아래 방향키로 설정 항목을 고르고 좌우 방향키로 값을 변경하세요. 첫 번째 항목, ".to_string(),
            menu.to_string(),
            ", 현재 값 ".to_string(),
            value.to_string(),
            ".".to_string(),
        ]
    } else {
        vec![
            "Starting Settings app. Use Up/Down to select items, Left/Right to change values. First item: ".to_string(),
            menu.to_string(),
            ", Current value: ".to_string(),
            value.to_string(),
            ".".to_string(),
        ]
    };
    assert(string_views(r@) =~= intro_parts(lang, menu@, value@));
    r
}

} // verus!
