//! The launcher: applets sorted and grouped by category on a scrolling grid,
//! navigated with the direction keys and started with Center.
use vstd::prelude::*;
use crate::input::{KeyCode, Language};
use crate::text::{decimal, decimal_string, is_ws, trim, trim_bounds, chars_of, string_from_chars, push_str};
use crate::speech::string_views;
use crate::weather::opt_view;
use crate::brf::lines_of;
use vstd::multiset::Multiset;

verus! {

broadcast use {vstd::string::group_string_axioms, vstd::multiset::group_multiset_axioms, vstd::seq_lib::group_to_multiset_ensures};

/// Columns of the applet grid.
pub const GRID_COLUMNS: i16 = 3;
/// Size of an applet box.
pub const BOX_SIZE: i16 = 15;
/// Space between rows of boxes.
pub const SPACING: i16 = 1;
/// Vertical step between rows of boxes.
pub const ITEM_STEP_Y: i16 = 16;
/// Height of a category header.
pub const HEADER_HEIGHT: i16 = 7;
/// Space below a header.
pub const HEADER_MARGIN_BOTTOM: i16 = 0;
/// Space between categories.
pub const SECTION_GAP: i16 = 0;

/// The Korean counting word for `n` (one to twenty); other numbers in digits.
pub open spec fn korean_count(n: usize) -> Seq<char> {
    if n == 1 { "한"@ } else if n == 2 { "두"@ } else if n == 3 { "세"@ } else if n == 4 { "네"@ }
    else if n == 5 { "다섯"@ } else if n == 6 { "여섯"@ } else if n == 7 { "일곱"@ } else if n == 8 { "여덟"@ }
    else if n == 9 { "아홉"@ } else if n == 10 { "열"@ } else if n == 11 { "열한"@ } else if n == 12 { "열두"@ }
    else if n == 13 { "열세"@ } else if n == 14 { "열네"@ } else if n == 15 { "열다섯"@ } else if n == 16 { "열여섯"@ }
    else if n == 17 { "열일곱"@ } else if n == 18 { "열여덟"@ } else if n == 19 { "열아홉"@ } else if n == 20 { "스무"@ }
    else { decimal(n as nat) }
}

/// The Korean counting word for a number of applets.
pub fn korean_count_number(n: usize) -> (r: String)
    ensures
        r@ == korean_count(n),
{
    let t: &str = match n {
        1 => "한",
        2 => "두",
        3 => "세",
        4 => "네",
        5 => "다섯",
        6 => "여섯",
        7 => "일곱",
        8 => "여덟",
        9 => "아홉",
        10 => "열",
        11 => "열한",
        12 => "열두",
        13 => "열세",
        14 => "열네",
        15 => "열다섯",
        16 => "열여섯",
        17 => "열일곱",
        18 => "열여덟",
        19 => "열아홉",
        20 => "스무",
        _ => {
            return decimal_string(n as u64);
        },
    };
    t.to_string()
}

/// The lower-case form of a text, as `str::to_lowercase` gives it.
pub uninterp spec fn lowercase(s: Seq<char>) -> Seq<char>;

/// Lower-cases a text.
/// Trusted: `str::to_lowercase` returns the text's lower-case form, which depends on
/// the text alone; its result is named `lowercase`.
#[verifier::external_body]
fn to_lowercase(s: &str) -> (r: String)
    ensures
        r@ == lowercase(s@),
{
    s.to_lowercase()
}

/// Whether `needle` occurs in `hay` starting at `i`.
pub open spec fn occurs_at(hay: Seq<char>, needle: Seq<char>, i: int) -> bool {
    0 <= i && i + needle.len() <= hay.len() && hay.subrange(i, i + needle.len()) == needle
}

/// Whether `needle` occurs in `hay` (`str::contains`).
pub open spec fn has_sub(hay: Seq<char>, needle: Seq<char>) -> bool {
    exists|i: int| #[trigger] occurs_at(hay, needle, i)
}

/// Whether `needle` occurs in `hay`.
pub fn contains_text(hay: &Vec<char>, needle: &str) -> (r: bool)
    ensures
        r == has_sub(hay@, needle@),
{
    let n = chars_of(needle);
    if n.len() > hay.len() {
        assert(forall|i: int| !#[trigger] occurs_at(hay@, needle@, i));
        return false;
    }
    let mut i: usize = 0;
    while i <= hay.len() - n.len()
        invariant
            n@ == needle@,
            n.len() <= hay.len(),
            i <= hay.len() - n.len() + 1,
            forall|k: int| 0 <= k < i ==> !#[trigger] occurs_at(hay@, needle@, k),
        decreases hay.len() - i,
    {
        let mut j: usize = 0;
        let mut same = true;
        while j < n.len()
            invariant
                j <= n.len(),
                i + n.len() <= hay.len(),
                n@ == needle@,
                same == (forall|k: int| 0 <= k < j ==> hay@[i + k] == n@[k]),
            decreases n.len() - j,
        {
            if hay[i + j] != n[j] {
                same = false;
            }
            j += 1;
        }
        if same {
            assert(hay@.subrange(i as int, i + n.len()) =~= needle@);
            assert(occurs_at(hay@, needle@, i as int));
            return true;
        }
        assert(hay@.subrange(i as int, i + n.len())[0] == hay@[i as int] || n.len() == 0);
        proof {
            if hay@.subrange(i as int, i + n.len()) == needle@ {
                assert forall|k: int| 0 <= k < n.len() implies hay@[i + k] == n@[k] by {
                    assert(hay@.subrange(i as int, i + n.len())[k] == hay@[i + k]);
                }
            }
        }
        i += 1;
    }
    false
}

/// The rank of a category in the launcher: system, utilities and tools, books,
/// games, demos, tests, then the rest (by the lower-cased, trimmed name).
pub open spec fn category_rank(category: Seq<char>) -> usize {
    let l = lowercase(trim(category));
    if has_sub(l, "system"@) || has_sub(l, "시스템"@) {
        0
    } else if has_sub(l, "utility"@) || has_sub(l, "유틸리티"@) || has_sub(l, "tool"@) || has_sub(l, "도구"@) {
        1
    } else if has_sub(l, "book"@) || has_sub(l, "점자책"@) {
        2
    } else if has_sub(l, "game"@) || has_sub(l, "게임"@) {
        3
    } else if has_sub(l, "demo"@) || has_sub(l, "데모"@) {
        4
    } else if has_sub(l, "test"@) || has_sub(l, "테스트"@) {
        5
    } else {
        6
    }
}

/// The trimmed characters of a text.
fn trimmed(s: &str) -> (r: Vec<char>)
    ensures
        r@ == trim(s@),
{
    let v = chars_of(s);
    let (a, b) = trim_bounds(&v, 0, v.len());
    assert(v@.subrange(0, v.len() as int) =~= v@);
    let mut t: Vec<char> = Vec::new();
    let mut j = a;
    while j < b
        invariant
            a <= j <= b <= v.len(),
            t@ == v@.subrange(a as int, j as int),
        decreases b - j,
    {
        t.push(v[j]);
        assert(v@.subrange(a as int, j + 1) =~= v@.subrange(a as int, j as int).push(v@[j as int]));
        j += 1;
    }
    t
}

/// The rank of a category.
pub fn category_order(category: &str) -> (r: usize)
    ensures
        r == category_rank(category@),
{
    let t = trimmed(category);
    let ts = string_from_chars(&t);
    let low = to_lowercase(ts.as_str());
    let l = chars_of(low.as_str());
    if contains_text(&l, "system") || contains_text(&l, "시스템") {
        0
    } else if contains_text(&l, "utility") || contains_text(&l, "유틸리티") || contains_text(&l, "tool")
        || contains_text(&l, "도구") {
        1
    } else if contains_text(&l, "book") || contains_text(&l, "점자책") {
        2
    } else if contains_text(&l, "game") || contains_text(&l, "게임") {
        3
    } else if contains_text(&l, "demo") || contains_text(&l, "데모") {
        4
    } else if contains_text(&l, "test") || contains_text(&l, "테스트") {
        5
    } else {
        6
    }
}


/// An applet as the launcher lists it, its texts in the device's language.
pub struct AppletEntry {
    pub id: String,
    pub name: String,
    pub category: String,
    pub description: String,
    /// The icon as rows of '1' (raised pin) and other characters.
    pub icon: String,
    /// Smaller first within a category.
    pub priority: i64,
}

/// An applet entry as plain values.
pub struct EntryView {
    pub id: Seq<char>,
    pub name: Seq<char>,
    pub category: Seq<char>,
    pub description: Seq<char>,
    pub icon: Seq<char>,
    pub priority: i64,
}

impl AppletEntry {
    pub open spec fn view(&self) -> EntryView {
        EntryView {
            id: self.id@,
            name: self.name@,
            category: self.category@,
            description: self.description@,
            icon: self.icon@,
            priority: self.priority,
        }
    }
}

pub open spec fn entry_views(v: Seq<AppletEntry>) -> Seq<EntryView> {
    v.map_values(|e: AppletEntry| e@)
}

/// Strict lexicographic order of texts by character code (the order of `str`).
pub open spec fn text_lt(a: Seq<char>, b: Seq<char>) -> bool
    decreases a.len(),
{
    if a.len() == 0 {
        b.len() > 0
    } else if b.len() == 0 {
        false
    } else if (a[0] as u32) < (b[0] as u32) {
        true
    } else if a[0] == b[0] {
        text_lt(a.drop_first(), b.drop_first())
    } else {
        false
    }
}

pub proof fn lemma_text_lt_asym(a: Seq<char>, b: Seq<char>)
    ensures
        !(text_lt(a, b) && text_lt(b, a)),
        !text_lt(a, a),
        !text_lt(a, b) && !text_lt(b, a) ==> a == b,
    decreases a.len(),
{
    if a.len() > 0 && b.len() > 0 && a[0] == b[0] {
        lemma_text_lt_asym(a.drop_first(), b.drop_first());
        if !text_lt(a, b) && !text_lt(b, a) {
            assert(a =~= seq![a[0]] + a.drop_first());
            assert(b =~= seq![b[0]] + b.drop_first());
        }
    }
    if a.len() > 0 {
        lemma_text_lt_asym(a.drop_first(), a.drop_first());
    }
    if a.len() > 0 && b.len() > 0 {
        vstd::utf8::char_u32_cast(a[0], a[0] as u32);
        vstd::utf8::char_u32_cast(b[0], b[0] as u32);
    }

}

/// The order of applets: by category rank, then category name, then priority,
/// then name.
pub open spec fn entry_lt(a: EntryView, b: EntryView) -> bool {
    let ra = category_rank(a.category);
    let rb = category_rank(b.category);
    if ra != rb {
        ra < rb
    } else if a.category != b.category {
        text_lt(a.category, b.category)
    } else if a.priority != b.priority {
        a.priority < b.priority
    } else {
        text_lt(a.name, b.name)
    }
}

pub proof fn lemma_entry_lt_asym(a: EntryView, b: EntryView)
    ensures
        !(entry_lt(a, b) && entry_lt(b, a)),
{
    lemma_text_lt_asym(a.category, b.category);
    lemma_text_lt_asym(a.name, b.name);
}

/// Neighbours are in order: no entry comes before the one ahead of it.
pub open spec fn sorted_entries(v: Seq<EntryView>) -> bool {
    forall|i: int| 0 <= i < v.len() - 1 ==> !entry_lt(#[trigger] v[i + 1], v[i])
}

/// `a` before `b` in text order.
fn text_less(a: &str, b: &str) -> (r: bool)
    ensures
        r == text_lt(a@, b@),
{
    let x = chars_of(a);
    let y = chars_of(b);
    let mut i: usize = 0;
    assert(a@.skip(0) =~= a@);
    assert(b@.skip(0) =~= b@);
    while i < x.len() && i < y.len() && x[i] == y[i]
        invariant
            i <= x.len(),
            i <= y.len(),
            x@ == a@,
            y@ == b@,
            text_lt(a@, b@) == text_lt(a@.skip(i as int), b@.skip(i as int)),
        decreases x.len() - i,
    {
        assert(a@.skip(i as int).drop_first() =~= a@.skip(i + 1));
        assert(b@.skip(i as int).drop_first() =~= b@.skip(i + 1));
        i += 1;
    }
    if i == x.len() {
        i < y.len()
    } else if i == y.len() {
        false
    } else {
        let xi = x[i] as u32;
        let yi = y[i] as u32;
        assert(a@.skip(i as int)[0] == x@[i as int]);
        assert(b@.skip(i as int)[0] == y@[i as int]);
        xi < yi
    }
}

fn entry_less(a: &AppletEntry, b: &AppletEntry) -> (r: bool)
    ensures
        r == entry_lt(a@, b@),
{
    let ra = category_order(a.category.as_str());
    let rb = category_order(b.category.as_str());
    if ra != rb {
        return ra < rb;
    }
    let same_cat = !text_less(a.category.as_str(), b.category.as_str()) && !text_less(b.category.as_str(), a.category.as_str());
    proof {
        lemma_text_lt_asym(a.category@, b.category@);
    }
    if !same_cat {
        return text_less(a.category.as_str(), b.category.as_str());
    }
    if a.priority != b.priority {
        return a.priority < b.priority;
    }
    text_less(a.name.as_str(), b.name.as_str())
}

/// Two entries in no order: neither comes before the other.
pub open spec fn entry_tie(a: EntryView, b: EntryView) -> bool {
    !entry_lt(a, b) && !entry_lt(b, a)
}

/// `ids` places each entry of `dst` at its position in `src`, no position
/// twice, and entries in no order keep the order they had in `src`.
pub open spec fn stable_placement(ids: Seq<int>, src: Seq<EntryView>, dst: Seq<EntryView>) -> bool {
    &&& ids.len() == dst.len()
    &&& forall|k: int| 0 <= k < ids.len() ==> 0 <= #[trigger] ids[k] < src.len() && src[ids[k]] == dst[k]
    &&& forall|k: int, l: int| 0 <= k < l < ids.len() ==> #[trigger] ids[k] != #[trigger] ids[l]
    &&& forall|k: int, l: int| 0 <= k < l < ids.len() && entry_tie(dst[k], dst[l]) ==> #[trigger] ids[k] < #[trigger] ids[l]
}

/// Sorts the applets (see `entry_lt`); entries in no order keep theirs (the
/// sort is stable).
pub fn sort_applets(entries: Vec<AppletEntry>) -> (r: Vec<AppletEntry>)
    ensures
        sorted_entries(entry_views(r@)),
        entry_views(r@).to_multiset() == entry_views(entries@).to_multiset(),
        exists|ids: Seq<int>| stable_placement(ids, entry_views(entries@), entry_views(r@)),
{
    let mut input = entries;
    let mut out: Vec<AppletEntry> = Vec::new();
    let ghost all = entry_views(input@);
    let ghost mut ids: Seq<int> = Seq::empty();
    while input.len() > 0
        invariant
            sorted_entries(entry_views(out@)),
            entry_views(out@).to_multiset().add(entry_views(input@).to_multiset()) == all.to_multiset(),
            input@.len() <= all.len(),
            entry_views(input@) == all.skip(all.len() - input@.len()),
            stable_placement(ids, all, entry_views(out@)),
            forall|k: int| 0 <= k < ids.len() ==> #[trigger] ids[k] < all.len() - input@.len(),
        decreases input.len(),
    {
        let ghost iv = entry_views(input@);
        let ghost n: int = all.len() - input@.len();
        let e = input.remove(0);
        proof {
            assert(entry_views(input@) =~= iv.remove(0));
            vstd::seq_lib::to_multiset_remove(iv, 0);
            assert(e@ == iv[0]);
            assert(iv[0] == all[n]);
            assert(entry_views(input@) =~= all.skip(all.len() - input@.len()));
        }
        let mut p = out.len();
        while p > 0 && entry_less(&e, &out[p - 1])
            invariant
                p <= out.len(),
                sorted_entries(entry_views(out@)),
                p < out.len() ==> entry_lt(e@, out@[p as int]@),
                forall|k: int| p <= k < out@.len() ==> entry_lt(e@, #[trigger] out@[k]@),
            decreases p,
        {
            p -= 1;
        }
        let ghost ov = entry_views(out@);
        let ghost old_ids = ids;
        assert(p > 0 ==> !entry_lt(e@, ov[p - 1]));
        out.insert(p, e);
        proof {
            ids = old_ids.insert(p as int, n);
            let nv = entry_views(out@);
            assert(nv =~= ov.insert(p as int, e@));
            assert forall|k: int| 0 <= k < ids.len() implies 0 <= #[trigger] ids[k] < all.len() && all[ids[k]] == nv[k]
                && ids[k] < all.len() - input@.len() by {
                if k < p {
                    assert(ids[k] == old_ids[k]);
                } else if k > p {
                    assert(ids[k] == old_ids[k - 1]);
                }
            }
            assert forall|k: int, l: int| 0 <= k < l < ids.len() implies #[trigger] ids[k] != #[trigger] ids[l] by {
                if k < p && l > p {
                    assert(ids[l] == old_ids[l - 1]);
                } else if k > p {
                    assert(ids[k] == old_ids[k - 1] && ids[l] == old_ids[l - 1]);
                } else if l < p {
                } else if k == p {
                    assert(ids[l] == old_ids[l - 1]);
                } else {
                    assert(ids[k] == old_ids[k]);
                }
            }
            assert forall|k: int, l: int| 0 <= k < l < ids.len() && entry_tie(nv[k], nv[l]) implies #[trigger] ids[k] < #[trigger] ids[l] by {
                if k == p {
                    assert(nv[l] == ov[l - 1]);
                    assert(entry_lt(e@, out@[l]@));
                } else if l == p {
                    assert(ids[k] == old_ids[k]);
                } else if k < p && l > p {
                    assert(ids[l] == old_ids[l - 1] && nv[l] == ov[l - 1] && nv[k] == ov[k]);
                    assert(entry_tie(ov[k], ov[l - 1]));
                } else if k > p {
                    assert(ids[k] == old_ids[k - 1] && ids[l] == old_ids[l - 1]);
                    assert(nv[k] == ov[k - 1] && nv[l] == ov[l - 1]);
                    assert(entry_tie(ov[k - 1], ov[l - 1]));
                } else {
                    assert(nv[k] == ov[k] && nv[l] == ov[l]);
                    assert(entry_tie(ov[k], ov[l]));
                }
            }
            vstd::seq_lib::to_multiset_insert(ov, p as int, e@);
            assert forall|i: int| 0 <= i < nv.len() - 1 implies !entry_lt(#[trigger] nv[i + 1], nv[i]) by {
                if i + 1 < p {
                    assert(nv[i] == ov[i] && nv[i + 1] == ov[i + 1]);
                    assert(!entry_lt(ov[i + 1], ov[i]));
                } else if i + 1 == p {
                    assert(nv[i + 1] == e@);
                    assert(nv[i] == ov[i]);
                    assert(!entry_lt(e@, ov[i]));
                } else if i == p {
                    assert(nv[i] == e@);
                    assert(nv[i + 1] == ov[i]);
                    lemma_entry_lt_asym(e@, ov[p as int]);
                } else {
                    assert(nv[i] == ov[i - 1] && nv[i + 1] == ov[i]);
                    assert(!entry_lt(ov[(i - 1) + 1], ov[i - 1]));
                }
            }
            assert(iv.to_multiset() == entry_views(input@).to_multiset().insert(e@));
            assert(nv.to_multiset() == ov.to_multiset().insert(e@));
            assert(nv.to_multiset().add(entry_views(input@).to_multiset()) =~= ov.to_multiset().add(iv.to_multiset()));
        }
    }
    assert(entry_views(input@).to_multiset() =~= Multiset::empty());
    assert(entry_views(out@).to_multiset().add(Multiset::empty()) =~= entry_views(out@).to_multiset());
    assert(stable_placement(ids, entry_views(entries@), entry_views(out@)));
    out
}


/// `c` with ASCII capitals made small.
pub open spec fn ascii_lower(c: char) -> char {
    if 'A' <= c && c <= 'Z' { ((c as u32) + 32) as char } else { c }
}

/// Equality ignoring ASCII case (`str::eq_ignore_ascii_case`).
pub open spec fn eq_ignore_ascii_case(a: Seq<char>, b: Seq<char>) -> bool {
    a.len() == b.len() && forall|i: int| 0 <= i < a.len() ==> ascii_lower(#[trigger] a[i]) == ascii_lower(b[i])
}

fn ascii_lower_exec(c: char) -> (r: char)
    ensures
        r == ascii_lower(c),
{
    if 'A' <= c && c <= 'Z' {
        let u = (c as u32) + 32;
        proof {
            vstd::utf8::char_is_scalar(c);
        }
        char_of(u)
    } else {
        c
    }
}

/// The character of a code in `'a'..='z'`.
fn char_of(u: u32) -> (r: char)
    requires
        0x61 <= u <= 0x7a,
    ensures
        r == u as char,
{
    let lower = "abcdefghijklmnopqrstuvwxyz";
    let cs = chars_of(lower);
    proof {
        reveal_strlit("abcdefghijklmnopqrstuvwxyz");
    }
    let c = cs[(u - 0x61) as usize];
    assert(c == u as char) by {
        assert(cs@ == "abcdefghijklmnopqrstuvwxyz"@);
    }
    c
}

fn ascii_ci_eq(a: &Vec<char>, b: &str) -> (r: bool)
    ensures
        r == eq_ignore_ascii_case(a@, b@),
{
    let bs = chars_of(b);
    if a.len() != bs.len() {
        return false;
    }
    let mut i: usize = 0;
    while i < a.len()
        invariant
            i <= a.len(),
            a.len() == bs.len(),
            bs@ == b@,
            forall|k: int| 0 <= k < i ==> ascii_lower(#[trigger] a@[k]) == ascii_lower(bs@[k]),
        decreases a.len() - i,
    {
        if ascii_lower_exec(a[i]) != ascii_lower_exec(bs[i]) {
            return false;
        }
        i += 1;
    }
    true
}

/// The name a category header shows: the category, or "기타" / "Others" / "その他"
/// when it is blank or "unknown" in any case.
pub open spec fn category_label(raw: Seq<char>, lang: Language) -> Seq<char> {
    let t = trim(raw);
    if t.len() == 0 || eq_ignore_ascii_case(t, "unknown"@) {
        match lang {
            Language::Ko => "기타"@,
            Language::En => "Others"@,
            Language::Ja => "その他"@,
        }
    } else {
        raw
    }
}

fn category_label_exec(raw: &str, lang: Language) -> (r: String)
    ensures
        r@ == category_label(raw@, lang),
{
    let t = trimmed(raw);
    if t.len() == 0 || ascii_ci_eq(&t, "unknown") {
        match lang {
            Language::Ko => "기타".to_string(),
            Language::En => "Others".to_string(),
            Language::Ja => "その他".to_string(),
        }
    } else {
        raw.to_string()
    }
}


/// A focusable item of the launcher: a category header or an applet box, with its
/// top-left corner on the launcher's canvas.
pub enum LauncherItem {
    Category { category_name: String, applet_count: usize, pos: (i16, i16) },
    Applet { applet_index: usize, pos: (i16, i16) },
}

/// A launcher item as plain values.
pub enum ItemView {
    Category(Seq<char>, usize, int, int),
    Applet(usize, int, int),
}

impl LauncherItem {
    pub open spec fn view(&self) -> ItemView {
        match self {
            LauncherItem::Category { category_name, applet_count, pos } => ItemView::Category(
                category_name@,
                *applet_count,
                pos.0 as int,
                pos.1 as int,
            ),
            LauncherItem::Applet { applet_index, pos } => ItemView::Applet(*applet_index, pos.0 as int, pos.1 as int),
        }
    }

    /// The item's position.
    pub fn pos(&self) -> (r: (i16, i16))
        ensures
            (r.0 as int, r.1 as int) == item_pos(self@),
    {
        match self {
            LauncherItem::Category { pos, .. } => *pos,
            LauncherItem::Applet { pos, .. } => *pos,
        }
    }
}

pub open spec fn item_pos(v: ItemView) -> (int, int) {
    match v {
        ItemView::Category(_, _, x, y) => (x, y),
        ItemView::Applet(_, x, y) => (x, y),
    }
}

pub open spec fn item_views(v: Seq<LauncherItem>) -> Seq<ItemView> {
    v.map_values(|i: LauncherItem| i@)
}

/// The end of the run of applets from `s` on that share the category of `s`,
/// searching from `k`.
pub open spec fn group_end(cats: Seq<Seq<char>>, s: int, k: int) -> int
    decreases cats.len() - k,
{
    if k >= cats.len() || cats[k] != cats[s] {
        k
    } else {
        group_end(cats, s, k + 1)
    }
}

pub proof fn lemma_group_end(cats: Seq<Seq<char>>, s: int, k: int)
    requires
        0 <= s < k <= cats.len(),
    ensures
        k <= group_end(cats, s, k) <= cats.len(),
        forall|j: int| k <= j < group_end(cats, s, k) ==> cats[j] == cats[s],
    decreases cats.len() - k,
{
    if k < cats.len() && cats[k] == cats[s] {
        lemma_group_end(cats, s, k + 1);
    }
}

/// Rust's integer division, rounding toward zero.
pub open spec fn tdiv(a: int, b: int) -> int {
    if a >= 0 { a / b } else { -((-a) / b) }
}

/// The horizontal spacing of the grid on a display `width` pins wide (at least one).
pub open spec fn grid_spacing(width: int) -> int {
    let s = tdiv(width - GRID_COLUMNS * BOX_SIZE, GRID_COLUMNS + 1);
    if s > 1 { s } else { 1 }
}

/// The left edge of the grid, centring it (never left of the display).
pub open spec fn grid_start(width: int) -> int {
    let total = GRID_COLUMNS * BOX_SIZE + grid_spacing(width) * (GRID_COLUMNS - 1);
    let x = tdiv(width - total, 2);
    if x > 0 { x } else { 0 }
}

/// The items of the applets from `s` on, their category headers first, the
/// applets of a category three to a row below its header, starting at height
/// `y`; with the height below the last row.
pub open spec fn layout_from(cats: Seq<Seq<char>>, s: int, y: int, start: int, step: int, lang: Language) -> (Seq<ItemView>, int)
    decreases cats.len() - s,
{
    if s < 0 || s >= cats.len() {
        (Seq::empty(), y)
    } else {
        let e = group_end(cats, s, s + 1);
        let count = e - s;
        let header = ItemView::Category(category_label(cats[s], lang), count as usize, 0, y);
        let y1 = y + HEADER_HEIGHT + HEADER_MARGIN_BOTTOM;
        let apps = Seq::new(count as nat, |i: int| ItemView::Applet((s + i) as usize, start + (i % 3) * step, y1 + (i / 3) * ITEM_STEP_Y));
        let y2 = y1 + ((count + 2) / 3) * ITEM_STEP_Y + (if e < cats.len() { SECTION_GAP as int } else { 0 });
        if e <= s || e > cats.len() {
            (seq![header] + apps, y2)
        } else {
            let (rest, yend) = layout_from(cats, e, y2, start, step, lang);
            (seq![header] + apps + rest, yend)
        }
    }
}

/// The height below the last row of the layout from the category starting at
/// `s`, placed at height `y` (see `layout_from`).
pub open spec fn layout_height(cats: Seq<Seq<char>>, s: int, y: int) -> int
    decreases cats.len() - s,
{
    if s < 0 || s >= cats.len() {
        y
    } else {
        let e = group_end(cats, s, s + 1);
        let count = e - s;
        let y1 = y + HEADER_HEIGHT + HEADER_MARGIN_BOTTOM;
        let y2 = y1 + ((count + 2) / 3) * ITEM_STEP_Y + (if e < cats.len() { SECTION_GAP as int } else { 0 });
        if e <= s || e > cats.len() { y2 } else { layout_height(cats, e, y2) }
    }
}

pub proof fn lemma_layout_height(cats: Seq<Seq<char>>, s: int, y: int, start: int, step: int, lang: Language)
    requires
        s >= 0,
    ensures
        layout_from(cats, s, y, start, step, lang).1 == layout_height(cats, s, y),
        layout_height(cats, s, y) >= y,
    decreases cats.len() - s,
{
    if s < cats.len() {
        lemma_group_end(cats, s, s + 1);
        let e = group_end(cats, s, s + 1);
        let count = e - s;
        let y2 = y + HEADER_HEIGHT + HEADER_MARGIN_BOTTOM + ((count + 2) / 3) * ITEM_STEP_Y
            + (if e < cats.len() { SECTION_GAP as int } else { 0 });
        assert(((count + 2) / 3) * ITEM_STEP_Y >= 0) by (nonlinear_arith)
            requires count >= 1;
        lemma_layout_height(cats, e, y2, start, step, lang);
    }
}

/// Whether the launcher's layout of these applets fits the display's row numbers
/// (heights up to `i16::MAX`).
pub fn layout_fits(applets: &Vec<AppletEntry>) -> (r: bool)
    ensures
        r == (layout_height(categories(entry_views(applets@)), 0, 0) <= i16::MAX),
{
    let ghost cats = categories(entry_views(applets@));
    let mut cat_start: usize = 0;
    let mut y: u64 = 0;
    while cat_start < applets.len()
        invariant
            cat_start <= applets.len(),
            cats == categories(entry_views(applets@)),
            cats.len() == applets.len(),
            y <= i16::MAX,
            layout_height(cats, 0, 0) == layout_height(cats, cat_start as int, y as int),
        decreases applets.len() - cat_start,
    {
        let raw = &applets[cat_start].category;
        let mut cat_end = cat_start + 1;
        proof {
            lemma_group_end(cats, cat_start as int, cat_start + 1);
        }
        while cat_end < applets.len() && applets[cat_end].category == *raw
            invariant
                cat_start < cat_end <= applets.len(),
                cats == categories(entry_views(applets@)),
                cats.len() == applets.len(),
                raw@ == cats[cat_start as int],
                group_end(cats, cat_start as int, cat_start + 1) == group_end(cats, cat_start as int, cat_end as int),
            decreases applets.len() - cat_end,
        {
            assert(cats[cat_end as int] == applets@[cat_end as int].category@);
            cat_end += 1;
        }
        proof {
            if cat_end < applets.len() {
                assert(cats[cat_end as int] == applets@[cat_end as int].category@);
            }
        }
        let count = (cat_end - cat_start) as u64;
        let ghost y2: int = y + 7 + ((count + 2) / 3) * 16;
        proof {
            lemma_layout_height(cats, cat_end as int, y2, 0, 0, Language::Ko);
        }
        if count > 6200 {
            assert(((count + 2) / 3) * 16 > 32767) by (nonlinear_arith)
                requires count > 6200;
            return false;
        }
        let next: u64 = y + 7 + ((count + 2) / 3) * 16;
        assert(next == y2);
        if next > 32767 {
            return false;
        }
        y = next;
        cat_start = cat_end;
    }
    true
}

/// The categories of the entries.
pub open spec fn categories(v: Seq<EntryView>) -> Seq<Seq<char>> {
    v.map_values(|e: EntryView| e.category)
}

/// The launcher's layout of sorted applets on a display `width` pins wide.
pub struct Layout {
    pub items: Vec<LauncherItem>,
    pub item_step_x: i16,
    pub start_offset_x: i16,
    /// Height of the rows of items.
    pub content_height: i16,
}

/// Lays out the applets (see `layout_from`) on a display `width` pins wide.
pub fn layout_items(applets: &Vec<AppletEntry>, width: i16, lang: Language) -> (r: Layout)
    requires
        layout_height(categories(entry_views(applets@)), 0, 0) <= i16::MAX,
        0 <= width <= 10000,
    ensures
        r.item_step_x == BOX_SIZE + grid_spacing(width as int),
        r.start_offset_x == grid_start(width as int),
        item_views(r.items@) == layout_from(categories(entry_views(applets@)), 0, 0, r.start_offset_x as int,
            r.item_step_x as int, lang).0,
        r.content_height == layout_from(categories(entry_views(applets@)), 0, 0, r.start_offset_x as int,
            r.item_step_x as int, lang).1,
{
    let ghost cats = categories(entry_views(applets@));
    let total_items_width = GRID_COLUMNS * BOX_SIZE;
    let sx0 = (width - total_items_width) / (GRID_COLUMNS + 1);
    let spacing_x = if sx0 > 1 { sx0 } else { 1 };
    let item_step_x = BOX_SIZE + spacing_x;
    let total_width_with_spacing = total_items_width + spacing_x * (GRID_COLUMNS - 1);
    let st0 = (width - total_width_with_spacing) / 2;
    let start_offset_x = if st0 > 0 { st0 } else { 0 };
    assert(spacing_x == grid_spacing(width as int));
    assert(start_offset_x == grid_start(width as int));
    let mut items: Vec<LauncherItem> = Vec::new();
    let mut cat_start: usize = 0;
    let mut current_y: i16 = 0;
    let ghost start = start_offset_x as int;
    let ghost step = item_step_x as int;
    while cat_start < applets.len()
        invariant
            cat_start <= applets.len(),
            cats == categories(entry_views(applets@)),
            cats.len() == applets.len(),
            layout_height(cats, 0, 0) <= i16::MAX,
            layout_height(cats, cat_start as int, current_y as int) == layout_height(cats, 0, 0),
            0 <= start <= 5000,
            16 <= step <= 2600,
            start == start_offset_x,
            step == item_step_x,
            0 <= current_y,
            layout_from(cats, 0, 0, start, step, lang) == ({
                let (rest, yend) = layout_from(cats, cat_start as int, current_y as int, start, step, lang);
                (item_views(items@) + rest, yend)
            }),
        decreases applets.len() - cat_start,
    {
        let raw = &applets[cat_start].category;
        let mut cat_end = cat_start + 1;
        proof {
            lemma_group_end(cats, cat_start as int, cat_start + 1);
        }
        while cat_end < applets.len() && applets[cat_end].category == *raw
            invariant
                cat_start < cat_end <= applets.len(),
                cats == categories(entry_views(applets@)),
                cats.len() == applets.len(),
                raw@ == cats[cat_start as int],
                group_end(cats, cat_start as int, cat_start + 1) == group_end(cats, cat_start as int, cat_end as int),
            decreases applets.len() - cat_end,
        {
            assert(cats[cat_end as int] == applets@[cat_end as int].category@);
            cat_end += 1;
        }
        proof {
            if cat_end < applets.len() {
                assert(cats[cat_end as int] == applets@[cat_end as int].category@);
            }
        }
        let ghost e = group_end(cats, cat_start as int, cat_start + 1);
        assert(e == cat_end);
        let count = cat_end - cat_start;
        let ghost y2: int = current_y + 7 + ((count + 2) / 3) * 16;
        proof {
            lemma_layout_height(cats, cat_end as int, y2, start, step, lang);
            assert(y2 <= i16::MAX);
            assert(((count + 2) / 3) * 16 >= 16 * (count / 3)) by (nonlinear_arith)
                requires count >= 1;
        }
        let ghost before = item_views(items@);
        items.push(LauncherItem::Category {
            category_name: category_label_exec(raw.as_str(), lang),
            applet_count: count,
            pos: (0, current_y),
        });
        let y1 = current_y + HEADER_HEIGHT + HEADER_MARGIN_BOTTOM;
        let ghost with_header = item_views(items@);
        assert(with_header =~= before.push(ItemView::Category(category_label(cats[cat_start as int], lang), count, 0, current_y as int)));
        let mut i: usize = 0;
        while i < count
            invariant
                i <= count,
                count == cat_end - cat_start,
                count <= 6200,
                0 <= start <= 5000,
                16 <= step <= 2600,
                start == start_offset_x,
                step == item_step_x,
                0 <= y1,
                y1 + ((count + 2) / 3) * 16 <= i16::MAX,
                item_views(items@) == with_header + Seq::new(i as nat, |k: int| ItemView::Applet((cat_start + k) as usize,
                    start + (k % 3) * step, y1 + (k / 3) * ITEM_STEP_Y)),
            decreases count - i,
        {
            let row = (i as i16) / GRID_COLUMNS;
            let col = (i as i16) % GRID_COLUMNS;
            assert(0 <= col * item_step_x <= 5200) by (nonlinear_arith)
                requires
                    0 <= col <= 2,
                    16 <= item_step_x <= 2600,
            ;
            let start_x = start_offset_x + col * item_step_x;
            assert(0 <= row * ITEM_STEP_Y <= ((count + 2) / 3) * 16) by (nonlinear_arith)
                requires
                    0 <= row,
                    row == i / 3,
                    i < count,
            ;
            let start_y = y1 + row * ITEM_STEP_Y;
            let ghost iv = item_views(items@);
            assert(col as int == (i as int) % 3);
            assert(row as int == (i as int) / 3);
            items.push(LauncherItem::Applet { applet_index: cat_start + i, pos: (start_x, start_y) });
            assert(item_views(items@) =~= iv.push(ItemView::Applet((cat_start + i) as usize, start + ((i as int) % 3) * step,
                y1 + ((i as int) / 3) * ITEM_STEP_Y)));
            assert(item_views(items@) =~= with_header + Seq::new((i + 1) as nat, |k: int| ItemView::Applet(
                (cat_start + k) as usize, start + (k % 3) * step, y1 + (k / 3) * ITEM_STEP_Y)));
            i += 1;
        }
        let num_rows = (count as i16 + GRID_COLUMNS - 1) / GRID_COLUMNS;

        current_y = y1 + num_rows * ITEM_STEP_Y;
        if cat_end < applets.len() {
            current_y = current_y + SECTION_GAP;
        }
        assert(current_y as int == y2);
        proof {
            let apps = Seq::new(count as nat, |k: int| ItemView::Applet((cat_start + k) as usize,
                start + (k % 3) * step, y1 + (k / 3) * ITEM_STEP_Y));
            let (rest, yend) = layout_from(cats, cat_end as int, current_y as int, start, step, lang);
            assert(layout_from(cats, cat_start as int, (y1 - 7) as int, start, step, lang) == (seq![ItemView::Category(category_label(cats[cat_start as int], lang), count, 0, (y1 - 7) as int)] + apps + rest, yend));
            assert(before + (seq![ItemView::Category(category_label(cats[cat_start as int], lang), count, 0, (y1 - 7) as int)] + apps + rest) =~= item_views(items@) + rest);
        }
        cat_start = cat_end;
    }
    Layout { items, item_step_x, start_offset_x, content_height: current_y }
}


/// The search for the nearest item above (`up`) or below the point `cur` over the
/// first `n` items: the smallest vertical distance, then the smallest horizontal
/// one, the first such item winning; with the distances found (starting from
/// `i16::MAX`).
pub open spec fn nearest(items: Seq<ItemView>, cur: (int, int), up: bool, n: int) -> (Option<usize>, int, int)
    decreases n,
{
    if n <= 0 {
        (None, 0x7fff, 0x7fff)
    } else {
        let prev = nearest(items, cur, up, n - 1);
        let p = item_pos(items[n - 1]);
        let beyond = if up { p.1 < cur.1 } else { p.1 > cur.1 };
        if beyond {
            let dy = if up { cur.1 - p.1 } else { p.1 - cur.1 };
            let dx = if p.0 >= cur.0 { p.0 - cur.0 } else { cur.0 - p.0 };
            if dy < prev.1 || (dy == prev.1 && dx < prev.2) {
                (Some((n - 1) as usize), dy, dx)
            } else {
                prev
            }
        } else {
            prev
        }
    }
}

/// Item positions stay within the launcher's canvas range.
pub open spec fn positions_ok(items: Seq<ItemView>) -> bool {
    forall|i: int| 0 <= i < items.len() ==> 0 <= #[trigger] item_pos(items[i]).0 <= 30000 && 0 <= item_pos(items[i]).1 <= 30000
}

/// The nearest item above or below `cur`.
fn find_nearest(items: &Vec<LauncherItem>, cur: (i16, i16), up: bool) -> (r: Option<usize>)
    requires
        positions_ok(item_views(items@)),
        0 <= cur.0 <= 30000,
        0 <= cur.1 <= 30000,
    ensures
        r == nearest(item_views(items@), (cur.0 as int, cur.1 as int), up, items.len() as int).0,
{
    let ghost iv = item_views(items@);
    let mut best: Option<usize> = None;
    let mut min_dy: i16 = i16::MAX;
    let mut min_dx: i16 = i16::MAX;
    let mut idx: usize = 0;
    while idx < items.len()
        invariant
            idx <= items.len(),
            iv == item_views(items@),
            positions_ok(iv),
            0 <= cur.0 <= 30000,
            0 <= cur.1 <= 30000,
            nearest(iv, (cur.0 as int, cur.1 as int), up, idx as int) == (best, min_dy as int, min_dx as int),
        decreases items.len() - idx,
    {
        let pos = items[idx].pos();
        assert(item_pos(iv[idx as int]) == (pos.0 as int, pos.1 as int));
        let beyond = if up { pos.1 < cur.1 } else { pos.1 > cur.1 };
        if beyond {
            let dy = if up { cur.1 - pos.1 } else { pos.1 - cur.1 };
            let dx = if pos.0 >= cur.0 { pos.0 - cur.0 } else { cur.0 - pos.0 };
            if dy < min_dy || (dy == min_dy && dx < min_dx) {
                min_dy = dy;
                min_dx = dx;
                best = Some(idx);
            }
        }
        idx += 1;
    }
    best
}

/// The launcher's navigation and speech state.
pub struct LauncherApp {
    pub selected_index: usize,
    pub is_started: bool,
    pub load_error: bool,
    pub launching_app_name: Option<String>,
    pub launch_error: bool,
    pub speech_description: Option<String>,
    /// Top of the visible part of the canvas that scrolling heads for.
    pub target_scroll_y: i32,
}

/// What a key asks of the host.
#[derive(Clone, Copy, Debug, PartialEq, Eq, Structural)]
pub enum LauncherAction {
    /// Nothing more to do.
    Idle,
    /// Start the applet at this index of the sorted list.
    Launch(usize),
}

/// The launcher's items are consistent: positions in range, applet indices in
/// the list, and the selection on an item.
pub open spec fn items_ok(items: Seq<ItemView>, n_applets: int, selected: usize) -> bool {
    &&& positions_ok(items)
    &&& forall|i: int| 0 <= i < items.len() ==> (#[trigger] items[i] matches ItemView::Applet(a, _, _) ==> a < n_applets)
    &&& (items.len() > 0 ==> selected < items.len())
}

/// The item selected after a key press (see `LauncherApp::handle_key_event`).
pub open spec fn selection_after(items: Seq<ItemView>, selected: usize, code: KeyCode) -> usize {
    let cur = if items.len() > 0 { item_pos(items[selected as int]) } else { (0, 0) };
    match code {
        KeyCode::Up => match nearest(items, cur, true, items.len() as int).0 {
            Some(i) => i,
            None => selected,
        },
        KeyCode::Down => match nearest(items, cur, false, items.len() as int).0 {
            Some(i) => i,
            None => selected,
        },
        KeyCode::Left => if selected > 0 { (selected - 1) as usize } else { selected },
        KeyCode::Right => if selected + 1 < items.len() { (selected + 1) as usize } else { selected },
        KeyCode::Center => if items.len() > 0 && items[selected as int] is Category && selected + 1 < items.len() {
            (selected + 1) as usize
        } else {
            selected
        },
        _ => selected,
    }
}

/// Whether a key press changes the screen.
pub open spec fn key_redraws(items: Seq<ItemView>, selected: usize, code: KeyCode) -> bool {
    let cur = if items.len() > 0 { item_pos(items[selected as int]) } else { (0, 0) };
    match code {
        KeyCode::Up => nearest(items, cur, true, items.len() as int).0 is Some,
        KeyCode::Down => nearest(items, cur, false, items.len() as int).0 is Some,
        KeyCode::Left => selected > 0,
        KeyCode::Right => selected + 1 < items.len(),
        KeyCode::Center => items.len() > 0 && (items[selected as int] is Applet || selected + 1 < items.len()),
        _ => false,
    }
}

impl LauncherApp {
    /// The launcher before its list is loaded.
    pub fn new() -> (r: Self)
        ensures
            r.selected_index == 0,
            r.is_started,
            !r.load_error,
            r.launching_app_name is None,
            !r.launch_error,
            r.speech_description is None,
            r.target_scroll_y == 0,
    {
        LauncherApp {
            selected_index: 0,
            is_started: true,
            load_error: false,
            launching_app_name: None,
            launch_error: false,
            speech_description: None,
            target_scroll_y: 0,
        }
    }

    /// A key event. Any event clears what was said of a launch; a press also
    /// clears the description and moves the selection: Up and Down to the nearest
    /// item above or below, Left and Right to the previous or next item, Center on
    /// a header to its first applet. Function says the selected applet's
    /// description; Center on an applet asks to start it. Returns whether to
    /// redraw and what to ask of the host.
    pub fn handle_key_event(&mut self, items: &Vec<LauncherItem>, applets: &Vec<AppletEntry>, code: KeyCode,
        pressed: bool) -> (r: (bool, LauncherAction))
        requires
            items_ok(item_views(items@), applets.len() as int, old(self).selected_index),
        ensures
            final(self).launching_app_name is None,
            !final(self).launch_error,
            final(self).load_error == old(self).load_error,
            final(self).target_scroll_y == old(self).target_scroll_y,
            !pressed ==> final(self).selected_index == old(self).selected_index && final(self).is_started == old(self).is_started
                && opt_view(final(self).speech_description) == opt_view(old(self).speech_description) && r == (false, LauncherAction::Idle),
            pressed ==> {
                &&& !final(self).is_started
                &&& final(self).selected_index == selection_after(item_views(items@), old(self).selected_index, code)
                &&& r.0 == key_redraws(item_views(items@), old(self).selected_index, code)
                &&& r.1 == if code == KeyCode::Center && items.len() > 0 {
                    match item_views(items@)[old(self).selected_index as int] {
                        ItemView::Applet(a, _, _) => LauncherAction::Launch(a),
                        _ => LauncherAction::Idle,
                    }
                } else {
                    LauncherAction::Idle
                }
                &&& opt_view(final(self).speech_description) == if code == KeyCode::Function && old(self).selected_index < items.len() {
                    match item_views(items@)[old(self).selected_index as int] {
                        ItemView::Applet(a, _, _) => if applets@[a as int].description@.len() > 0 {
                            Some(applets@[a as int].description@)
                        } else {
                            None
                        },
                        _ => None,
                    }
                } else {
                    None
                }
            },
            items_ok(item_views(items@), applets.len() as int, final(self).selected_index),
    {
        let ghost iv = item_views(items@);
        self.launching_app_name = None;
        self.launch_error = false;
        if !pressed {
            return (false, LauncherAction::Idle);
        }
        self.is_started = false;
        self.speech_description = None;
        let cur: (i16, i16) = if items.len() > 0 {
            items[self.selected_index].pos()
        } else {
            (0, 0)
        };
        proof {
            if items.len() > 0 {
                assert(0 <= item_pos(iv[self.selected_index as int]).0 <= 30000);
            }
        }
        match code {
            KeyCode::Function => {
                if self.selected_index < items.len() {
                    match &items[self.selected_index] {
                        LauncherItem::Applet { applet_index, .. } => {
                            assert(iv[self.selected_index as int] matches ItemView::Applet(a, _, _) && a == *applet_index);
                            let desc = &applets[*applet_index].description;
                            if !desc.as_str().is_empty() {
                                self.speech_description = Some(desc.clone());
                            }
                        },
                        _ => {},
                    }
                }
                (false, LauncherAction::Idle)
            },
            KeyCode::Up | KeyCode::Down => {
                match find_nearest(items, cur, code == KeyCode::Up) {
                    Some(idx) => {
                        proof {
                            lemma_nearest_index(iv, (cur.0 as int, cur.1 as int), code == KeyCode::Up, items.len() as int);
                        }
                        self.selected_index = idx;
                        (true, LauncherAction::Idle)
                    },
                    None => (false, LauncherAction::Idle),
                }
            },
            KeyCode::Left => {
                if self.selected_index > 0 {
                    self.selected_index -= 1;
                    (true, LauncherAction::Idle)
                } else {
                    (false, LauncherAction::Idle)
                }
            },
            KeyCode::Right => {
                if items.len() > 0 && self.selected_index < items.len() - 1 {
                    self.selected_index += 1;
                    (true, LauncherAction::Idle)
                } else {
                    (false, LauncherAction::Idle)
                }
            },
            KeyCode::Center => {
                if items.len() == 0 {
                    return (false, LauncherAction::Idle);
                }
                match &items[self.selected_index] {
                    LauncherItem::Category { .. } => {
                        if self.selected_index < items.len() - 1 {
                            self.selected_index += 1;
                            (true, LauncherAction::Idle)
                        } else {
                            (false, LauncherAction::Idle)
                        }
                    },
                    LauncherItem::Applet { applet_index, .. } => (true, LauncherAction::Launch(*applet_index)),
                }
            },
            _ => (false, LauncherAction::Idle),
        }
    }

    /// The host tried to start the applet named `name`: when it started, its name
    /// is said; when not, the failure is.
    pub fn launch_result(&mut self, name: String, started: bool)
        ensures
            started ==> opt_view(final(self).launching_app_name) == Some(name@) && final(self).launch_error == old(self).launch_error,
            !started ==> final(self).launch_error && opt_view(final(self).launching_app_name) == opt_view(old(self).launching_app_name),
            final(self).selected_index == old(self).selected_index,
    {
        if started {
            self.launching_app_name = Some(name);
        } else {
            self.launch_error = true;
        }
    }

    /// After the keys, when the screen changed, the scroll target follows the
    /// selection: up to its top when it is above, down to its bottom when it is
    /// below the display.
    pub fn update_scroll_target(&mut self, items: &Vec<LauncherItem>, display_height: i16, changed: bool)
        requires
            items.len() > 0 ==> old(self).selected_index < items.len(),
            positions_ok(item_views(items@)),
            -0x1000_0000 <= old(self).target_scroll_y <= 0x1000_0000,
        ensures
            final(self).selected_index == old(self).selected_index,
            final(self).target_scroll_y == if changed && items.len() > 0 {
                let p = item_pos(item_views(items@)[old(self).selected_index as int]);
                let h = if item_views(items@)[old(self).selected_index as int] is Category { HEADER_HEIGHT as int } else { BOX_SIZE as int };
                if p.1 < old(self).target_scroll_y {
                    p.1
                } else if p.1 + h > old(self).target_scroll_y + display_height {
                    p.1 + h - display_height
                } else {
                    old(self).target_scroll_y as int
                }
            } else {
                old(self).target_scroll_y as int
            },
    {
        if changed && items.len() > 0 {
            let ghost iv = item_views(items@);
            let pos = items[self.selected_index].pos();
            proof {
                assert(0 <= item_pos(iv[self.selected_index as int]).1 <= 30000);
            }
            let h: i32 = match &items[self.selected_index] {
                LauncherItem::Category { .. } => HEADER_HEIGHT as i32,
                LauncherItem::Applet { .. } => BOX_SIZE as i32,
            };
            let y = pos.1 as i32;
            if y < self.target_scroll_y {
                self.target_scroll_y = y;
            } else if y + h > self.target_scroll_y + display_height as i32 {
                self.target_scroll_y = y + h - display_height as i32;
            }
        }
    }
}

/// The nearest item found is an item.
pub proof fn lemma_nearest_index(items: Seq<ItemView>, cur: (int, int), up: bool, n: int)
    requires
        0 <= n <= items.len(),
    ensures
        nearest(items, cur, up, n).0 matches Some(i) ==> i < n,
    decreases n,
{
    if n > 0 {
        lemma_nearest_index(items, cur, up, n - 1);
    }
}


/// What `tossicat::postfix` makes of a word and a particle: the word with the
/// particle in the form the word's last sound calls for, or `None`.
pub uninterp spec fn tossi_postfix(word: Seq<char>, tossi: Seq<char>) -> Option<Seq<char>>;

/// Attaches a Korean particle to a word.
/// Trusted: `tossicat::postfix` gives the word with the particle in its fitting
/// form, a function of the two texts alone (named `tossi_postfix`); it fails
/// exactly when the particle is not one it knows or the word has 50 characters or
/// more, and "을" is one it knows.
#[verifier::external_body]
fn postfix(word: &str, tossi: &str) -> (r: Option<String>)
    ensures
        opt_view(r) == tossi_postfix(word@, tossi@),
        tossi@ == "을"@ ==> (r is Some <==> word@.len() < 50),
{
    tossicat::postfix(word, tossi).ok()
}

/// What the launcher says.
pub enum LauncherMessage {
    LoadError,
    LaunchError,
    LaunchingApp(String),
    CategoryFocused { category: String, count: usize },
    AppFocused(String),
}

/// The name with the object particle: as `tossicat` attaches it, or with "을"
/// appended when it cannot.
pub open spec fn with_object_particle(name: Seq<char>) -> Seq<char> {
    match tossi_postfix(name, "을"@) {
        Some(t) => t,
        None => name + "을"@,
    }
}

/// The spoken parts of a message.
pub open spec fn launcher_segments(m: LauncherMessage, lang: Language) -> Seq<Seq<char>> {
    match m {
        LauncherMessage::LoadError => match lang {
            Language::Ko => seq!["런처 앱을 시작합니다."@, " 애플릿 목록을 가져오는데 실패했습니다"@],
            Language::En => seq!["Starting Launcher."@, "Failed to load applet list."@],
            Language::Ja => seq!["ランチャーを開始します。"@, "アプレットリストの取得に失敗しました。"@],
        },
        LauncherMessage::LaunchError => match lang {
            Language::Ko => seq!["앱 실행에 실패했습니다"@],
            Language::En => seq!["Failed to launch the app."@],
            Language::Ja => seq!["アプリの実行に失敗しました"@],
        },
        LauncherMessage::LaunchingApp(name) => match lang {
            Language::Ko => seq![with_object_particle(name@) + " 실행합니다."@],
            Language::En => seq!["Launching"@, name@, "app"@],
            Language::Ja => seq![name@, "アプリを起動します"@],
        },
        LauncherMessage::CategoryFocused { category, count } => match lang {
            Language::Ko => seq![" "@ + category@ + " 카테고리, "@ + korean_count(count) + "개의 앱이 있습니다."@],
            Language::En => seq![" "@ + category@ + " category, "@ + decimal(count as nat) + " apps available."@],
            Language::Ja => seq![" "@ + category@ + "カテゴリ、"@ + decimal(count as nat) + "個のアプリがあります。"@],
        },
        LauncherMessage::AppFocused(name) => seq![name@],
    }
}

fn join5(a: &str, b: &str, c: &str, d: &str, e: &str) -> (r: String)
    ensures
        r@ == a@ + b@ + c@ + d@ + e@,
{
    let mut s = String::new();
    push_str(&mut s, a);
    push_str(&mut s, b);
    push_str(&mut s, c);
    push_str(&mut s, d);
    push_str(&mut s, e);
    s
}

fn strings2(a: &str, b: &str) -> (r: Vec<String>)
    ensures
        string_views(r@) == seq![a@, b@],
{
    let mut v: Vec<String> = Vec::new();
    v.push(a.to_string());
    v.push(b.to_string());
    assert(string_views(v@) =~= seq![a@, b@]);
    v
}

fn strings1(a: String) -> (r: Vec<String>)
    ensures
        string_views(r@) == seq![a@],
{
    let mut v: Vec<String> = Vec::new();
    v.push(a);
    assert(string_views(v@) =~= seq![a@]);
    v
}

impl LauncherMessage {
    /// The spoken parts of the message in a language.
    pub fn to_segments(&self, lang: Language) -> (r: Vec<String>)
        ensures
            string_views(r@) == launcher_segments(*self, lang),
    {
        match self {
            LauncherMessage::LoadError => match lang {
                Language::Ko => strings2("런처 앱을 시작합니다.", " 애플릿 목록을 가져오는데 실패했습니다"),
                Language::En => strings2("Starting Launcher.", "Failed to load applet list."),
                Language::Ja => strings2("ランチャーを開始します。", "アプレットリストの取得に失敗しました。"),
            },
            LauncherMessage::LaunchError => match lang {
                Language::Ko => strings1("앱 실행에 실패했습니다".to_string()),
                Language::En => strings1("Failed to launch the app.".to_string()),
                Language::Ja => strings1("アプリの実行に失敗しました".to_string()),
            },
            LauncherMessage::LaunchingApp(name) => match lang {
                Language::Ko => {
                    let word = match postfix(name.as_str(), "을") {
                        Some(t) => t,
                        None => join5(name.as_str(), "을", "", "", ""),
                    };
                    proof {
                        reveal_strlit("");
                    }
                    assert(word@ =~= with_object_particle(name@));
                    strings1(join5(word.as_str(), " 실행합니다.", "", "", ""))
                },
                Language::En => {
                    let mut v = strings2("Launching", name.as_str());
                    let ghost before = string_views(v@);
                    v.push("app".to_string());
                    assert(string_views(v@) =~= before.push("app"@));
                    v
                },
                Language::Ja => strings2(name.as_str(), "アプリを起動します"),
            },
            LauncherMessage::CategoryFocused { category, count } => {
                proof {
                    reveal_strlit("");
                }
                match lang {
                    Language::Ko => {
                        let k = korean_count_number(*count);
                        strings1(join5(" ", category.as_str(), " 카테고리, ", k.as_str(), "개의 앱이 있습니다."))
                    },
                    Language::En => {
                        let n = decimal_string(*count as u64);
                        strings1(join5(" ", category.as_str(), " category, ", n.as_str(), " apps available."))
                    },
                    Language::Ja => {
                        let n = decimal_string(*count as u64);
                        strings1(join5(" ", category.as_str(), "カテゴリ、", n.as_str(), "個のアプリがあります。"))
                    },
                }
            },
            LauncherMessage::AppFocused(name) => strings1(name.clone()),
        }
    }
}


/// What the launcher says now and whether it interrupts (see
/// `LauncherApp::on_speech`).
pub open spec fn launcher_speech(a: LauncherApp, items: Seq<ItemView>, applets: Seq<EntryView>, lang: Language) -> Option<(Seq<Seq<char>>, bool)> {
    if a.load_error {
        Some((launcher_segments(LauncherMessage::LoadError, lang), true))
    } else if a.launch_error {
        Some((launcher_segments(LauncherMessage::LaunchError, lang), true))
    } else if a.launching_app_name is Some {
        Some((launcher_segments(LauncherMessage::LaunchingApp(a.launching_app_name.unwrap()), lang), true))
    } else if a.speech_description is Some {
        Some((seq![a.speech_description.unwrap()@], true))
    } else if a.selected_index < items.len() {
        match items[a.selected_index as int] {
            ItemView::Category(name, count, _, _) => Some((
                match lang {
                    Language::Ko => seq![" "@ + name + " 카테고리, "@ + korean_count(count) + "개의 앱이 있습니다."@],
                    Language::En => seq![" "@ + name + " category, "@ + decimal(count as nat) + " apps available."@],
                    Language::Ja => seq![" "@ + name + "カテゴリ、"@ + decimal(count as nat) + "個のアプリがあります。"@],
                },
                false,
            )),
            ItemView::Applet(i, _, _) => Some((seq![applets[i as int].name], false)),
        }
    } else {
        None
    }
}

impl LauncherApp {
    /// What to say now: a load or launch failure, the applet being started, the
    /// requested description (these interrupt); otherwise the selected header with
    /// its count, or the selected applet's name.
    pub fn on_speech(&self, items: &Vec<LauncherItem>, applets: &Vec<AppletEntry>, lang: Language) -> (r: Option<(Vec<String>, bool)>)
        requires
            items_ok(item_views(items@), applets.len() as int, self.selected_index),
        ensures
            match r {
                Some((v, forced)) => launcher_speech(*self, item_views(items@), entry_views(applets@), lang) == Some((string_views(v@), forced)),
                None => launcher_speech(*self, item_views(items@), entry_views(applets@), lang) is None,
            },
    {
        if self.load_error {
            return Some((LauncherMessage::LoadError.to_segments(lang), true));
        }
        if self.launch_error {
            return Some((LauncherMessage::LaunchError.to_segments(lang), true));
        }
        match &self.launching_app_name {
            Some(name) => {
                return Some((LauncherMessage::LaunchingApp(name.clone()).to_segments(lang), true));
            },
            None => {},
        }
        match &self.speech_description {
            Some(d) => {
                return Some((strings1(d.clone()), true));
            },
            None => {},
        }
        if self.selected_index < items.len() {
            let ghost iv = item_views(items@);
            match &items[self.selected_index] {
                LauncherItem::Category { category_name, applet_count, .. } => {
                    let m = LauncherMessage::CategoryFocused { category: category_name.clone(), count: *applet_count };
                    Some((m.to_segments(lang), false))
                },
                LauncherItem::Applet { applet_index, .. } => {
                    assert(iv[self.selected_index as int] matches ItemView::Applet(a, _, _) && a == *applet_index);
                    Some((strings1(applets[*applet_index].name.clone()), false))
                },
            }
        } else {
            None
        }
    }
}

/// How far an icon sits inside its box: the border and the padding.
pub const ICON_OFFSET: i16 = 2;

pub open spec fn on_canvas(x: int, y: int, cw: int, ch: int) -> bool {
    0 <= x && 0 <= y && x < cw && y < ch
}

/// The pins of the first `n` characters of an icon's line at row `y`, from
/// column `x0`: raised for `'1'`, lowered otherwise; only those on the canvas.
pub open spec fn icon_row(line: Seq<char>, n: int, x0: int, y: int, cw: int, ch: int) -> Seq<(int, int, u8)>
    decreases n,
{
    if n <= 0 {
        Seq::empty()
    } else {
        let prev = icon_row(line, n - 1, x0, y, cw, ch);
        if on_canvas(x0 + n - 1, y, cw, ch) {
            prev.push((x0 + n - 1, y, if line[n - 1] == '1' { 255u8 } else { 0u8 }))
        } else {
            prev
        }
    }
}

/// The pins of the first `k` lines of an icon, row by row from row `y0`.
pub open spec fn icon_rows(lines: Seq<Seq<char>>, k: int, x0: int, y0: int, cw: int, ch: int) -> Seq<(int, int, u8)>
    decreases k,
{
    if k <= 0 {
        Seq::empty()
    } else {
        icon_rows(lines, k - 1, x0, y0, cw, ch) + icon_row(lines[k - 1], lines[k - 1].len() as int, x0, y0 + k - 1, cw, ch)
    }
}

/// Strength of the frame of a box without an icon.
pub const UNSELECTED_BOX_INTENSITY: u8 = 80;

/// Whether the frame of a box without an icon covers column `i` and row `j`: the
/// box's edges, where they lie on the canvas.
pub open spec fn frame_has(x: int, y: int, w: int, h: int, cw: int, ch: int, i: int, j: int) -> bool {
    (j == y || j == y + h - 1 || i == x || i == x + w - 1) && on_canvas(i, j, cw, ch)
}

pub open spec fn frame_row(x: int, y: int, w: int, h: int, cw: int, ch: int, n: int, j: int) -> Seq<(int, int, u8)>
    decreases n,
{
    if n <= 0 {
        Seq::empty()
    } else {
        let prev = frame_row(x, y, w, h, cw, ch, n - 1, j);
        if frame_has(x, y, w, h, cw, ch, x + n - 1, j) { prev.push((x + n - 1, j, UNSELECTED_BOX_INTENSITY)) } else { prev }
    }
}

pub open spec fn frame_rows(x: int, y: int, w: int, h: int, cw: int, ch: int, k: int) -> Seq<(int, int, u8)>
    decreases k,
{
    if k <= 0 {
        Seq::empty()
    } else {
        frame_rows(x, y, w, h, cw, ch, k - 1) + frame_row(x, y, w, h, cw, ch, w, y + k - 1)
    }
}

/// An applet's box on the launcher's canvas (`cw` by `ch`) at column `x` and row
/// `y`, `w` by `h`: its icon, line by line inside the border and padding, or a
/// faint frame (on the canvas) when it has none.
pub open spec fn applet_box(icon: Seq<char>, x: int, y: int, w: int, h: int, cw: int, ch: int) -> Seq<(int, int, u8)> {
    if icon.len() > 0 {
        icon_rows(lines_of(icon), lines_of(icon).len() as int, x + ICON_OFFSET, y + ICON_OFFSET, cw, ch)
    } else {
        frame_rows(x, y, w, h, cw, ch, h)
    }
}

pub open spec fn pin3_views(v: Seq<(i16, i16, u8)>) -> Seq<(int, int, u8)> {
    v.map_values(|p: (i16, i16, u8)| (p.0 as int, p.1 as int, p.2))
}

/// The pins of an applet's box (see `applet_box`), in drawing order.
pub fn applet_box_pins(icon: &str, x: i16, y: i16, w: i16, h: i16, cw: i16, ch: i16) -> (r: Vec<(i16, i16, u8)>)
    requires
        icon@.len() <= 5000,
        -5000 <= x <= 5000,
        -5000 <= y <= 5000,
        0 <= w <= 5000,
        0 <= h <= 5000,
    ensures
        pin3_views(r@) == applet_box(icon@, x as int, y as int, w as int, h as int, cw as int, ch as int),
{
    let chars = chars_of(icon);
    let mut out: Vec<(i16, i16, u8)> = Vec::new();
    if chars.len() > 0 {
        let lines = crate::brf::lines_chars(icon);
        proof {
            crate::brf::lemma_lines_bounded(icon@);
        }
        let ghost ls = lines_of(icon@);
        let x0: i16 = x + ICON_OFFSET;
        let y0: i16 = y + ICON_OFFSET;
        let mut r: usize = 0;
        while r < lines.len()
            invariant
                crate::brf::views(lines@) == ls,
                ls == lines_of(icon@),
                ls.len() <= 5001,
                forall|i: int| 0 <= i < ls.len() ==> #[trigger] ls[i].len() <= 5000,
                -4998 <= x0 <= 5002,
                -4998 <= y0 <= 5002,
                r <= lines@.len(),
                pin3_views(out@) == icon_rows(ls, r as int, x0 as int, y0 as int, cw as int, ch as int),
            decreases lines@.len() - r,
        {
            let line = &lines[r];
            assert(line@ == ls[r as int]);
            let py: i16 = y0 + r as i16;
            let ghost row_start = pin3_views(out@);
            let mut c: usize = 0;
            while c < line.len()
                invariant
                    line@ == ls[r as int],
                    line@.len() <= 5000,
                    -4998 <= x0 <= 5002,
                    c <= line@.len(),
                    pin3_views(out@) == row_start + icon_row(line@, c as int, x0 as int, py as int, cw as int, ch as int),
                decreases line@.len() - c,
            {
                let px: i16 = x0 + c as i16;
                let ghost before = pin3_views(out@);
                if px >= 0 && py >= 0 && px < cw && py < ch {
                    let v: u8 = if line[c] == '1' { 255 } else { 0 };
                    out.push((px, py, v));
                    assert(pin3_views(out@) =~= before.push((px as int, py as int, v)));
                }
                c += 1;
            }
            assert(pin3_views(out@) =~= icon_rows(ls, r as int + 1, x0 as int, y0 as int, cw as int, ch as int));
            r += 1;
        }
    } else {
        let mut k: i16 = 0;
        while k < h
            invariant
                -5000 <= x <= 5000,
                -5000 <= y <= 5000,
                0 <= w <= 5000,
                0 <= h <= 5000,
                0 <= k <= h,
                pin3_views(out@) == frame_rows(x as int, y as int, w as int, h as int, cw as int, ch as int, k as int),
            decreases h - k,
        {
            let j: i16 = y + k;
            let ghost row_start = pin3_views(out@);
            let mut n: i16 = 0;
            while n < w
                invariant
                    -5000 <= x <= 5000,
                    -5000 <= y <= 5000,
                    0 <= w <= 5000,
                    0 <= h <= 5000,
                    0 <= n <= w,
                    j == y + k,
                    pin3_views(out@) == row_start + frame_row(x as int, y as int, w as int, h as int, cw as int, ch as int, n as int, j as int),
                decreases w - n,
            {
                let i: i16 = x + n;
                let ghost before = pin3_views(out@);
                if (j == y || j == y + h - 1 || i == x || i == x + w - 1) && i >= 0 && j >= 0 && i < cw && j < ch {
                    out.push((i, j, UNSELECTED_BOX_INTENSITY));
                    assert(pin3_views(out@) =~= before.push((i as int, j as int, UNSELECTED_BOX_INTENSITY)));
                }
                n += 1;
            }
            assert(pin3_views(out@) =~= frame_rows(x as int, y as int, w as int, h as int, cw as int, ch as int, k + 1));
            k += 1;
        }
    }
    out
}

/// The rule after a category's name on the canvas: two rows from row `y + 2`,
/// from three pins after the name (which starts at column 2 and is `text_w`
/// wide, capped at the display's width) to two pins before the right edge; only
/// rows on the canvas (`ch` high).
pub open spec fn header_rule(text_w: int, y: int, dw: int, ch: int) -> Seq<(int, int, u8)> {
    let start = if 2 + text_w + 3 <= dw { 2 + text_w + 3 } else { dw };
    rule_row(start, dw - 2 - start, y + 2, ch) + rule_row(start, dw - 2 - start, y + 3, ch)
}

pub open spec fn rule_row(x0: int, n: int, y: int, ch: int) -> Seq<(int, int, u8)>
    decreases n,
{
    if n <= 0 || !(0 <= y < ch) {
        Seq::empty()
    } else {
        rule_row(x0, n - 1, y, ch).push((x0 + n - 1, y, 255u8))
    }
}

pub fn header_rule_pins(text_w: i16, y: i16, dw: i16, ch: i16) -> (r: Vec<(i16, i16, u8)>)
    requires
        0 <= text_w <= 5000,
        -5000 <= y <= 5000,
        0 <= dw <= 5000,
    ensures
        pin3_views(r@) == header_rule(text_w as int, y as int, dw as int, ch as int),
{
    let start: i16 = if 2 + text_w + 3 <= dw { 2 + text_w + 3 } else { dw };
    let mut out: Vec<(i16, i16, u8)> = Vec::new();
    let mut dy: i16 = 0;
    while dy < 2
        invariant
            0 <= dy <= 2,
            0 <= start <= 5005,
            start == (if 2 + text_w + 3 <= dw { 2 + text_w + 3 } else { dw as int }),
            -5000 <= y <= 5000,
            0 <= dw <= 5000,
            pin3_views(out@) == (if dy == 0 { Seq::empty() } else if dy == 1 { rule_row(start as int, dw - 2 - start, y + 2, ch as int) }
                else { header_rule(text_w as int, y as int, dw as int, ch as int) }),
        decreases 2 - dy,
    {
        let row: i16 = y + 2 + dy;
        let ghost head = pin3_views(out@);
        let mut x: i16 = start;
        if !(row >= 0 && row < ch) || dw - 2 <= start {
            assert(rule_row(start as int, dw - 2 - start, row as int, ch as int) =~= Seq::empty());
        }
        if row >= 0 && row < ch {
            while x < dw - 2
                invariant
                    start <= x <= dw - 2 || (x == start && dw - 2 <= start),
                    0 <= start <= 5005,
                    0 <= dw <= 5000,
                    0 <= row < ch,
                    pin3_views(out@) == head + rule_row(start as int, x - start, row as int, ch as int),
                decreases dw - 2 - x,
            {
                let ghost before = pin3_views(out@);
                out.push((x, row, 255));
                assert(pin3_views(out@) =~= before.push((x as int, row as int, 255u8)));
                assert(rule_row(start as int, x + 1 - start, row as int, ch as int)
                    == rule_row(start as int, x - start, row as int, ch as int).push((x as int, row as int, 255u8)));
                assert(pin3_views(out@) =~= head + rule_row(start as int, x + 1 - start, row as int, ch as int));
                x += 1;
            }
            proof {
                if dw - 2 <= start {
                    assert(rule_row(start as int, x - start, row as int, ch as int) =~= Seq::empty());
                }
            }
        }
        assert(pin3_views(out@) =~= head + rule_row(start as int, dw - 2 - start, row as int, ch as int));
        dy += 1;
    }
    out
}

/// The outline that marks the focused item on the display (`dw` by `dh`), where
/// the item's corner shows at column `x` and row `y`: round a category's header
/// (its name, `text_w` wide, and two pins, capped at the display's width), or
/// round an applet's box; only pins on the display.
pub open spec fn focus_outline(category: bool, text_w: int, x: int, y: int, dw: int, dh: int) -> Seq<(int, int, u8)> {
    let w = if category { if text_w + 4 <= dw { text_w + 4 } else { dw } } else { BOX_SIZE as int };
    let h = if category { HEADER_HEIGHT as int } else { BOX_SIZE as int };
    outline_rows(x, y, w, h, dw, dh, h)
}

pub open spec fn outline_has(x: int, y: int, w: int, h: int, dw: int, dh: int, i: int, j: int) -> bool {
    (j == y || j == y + h - 1 || i == x || i == x + w - 1) && on_canvas(i, j, dw, dh)
}

pub open spec fn outline_row(x: int, y: int, w: int, h: int, dw: int, dh: int, n: int, j: int) -> Seq<(int, int, u8)>
    decreases n,
{
    if n <= 0 {
        Seq::empty()
    } else {
        let prev = outline_row(x, y, w, h, dw, dh, n - 1, j);
        if outline_has(x, y, w, h, dw, dh, x + n - 1, j) { prev.push((x + n - 1, j, 255u8)) } else { prev }
    }
}

pub open spec fn outline_rows(x: int, y: int, w: int, h: int, dw: int, dh: int, k: int) -> Seq<(int, int, u8)>
    decreases k,
{
    if k <= 0 {
        Seq::empty()
    } else {
        outline_rows(x, y, w, h, dw, dh, k - 1) + outline_row(x, y, w, h, dw, dh, w, y + k - 1)
    }
}

pub fn focus_pins(category: bool, text_w: i16, x: i16, y: i16, dw: i16, dh: i16) -> (r: Vec<(i16, i16, u8)>)
    requires
        0 <= text_w <= 5000,
        -5000 <= x <= 5000,
        -5000 <= y <= 5000,
        0 <= dw <= 5000,
    ensures
        pin3_views(r@) == focus_outline(category, text_w as int, x as int, y as int, dw as int, dh as int),
{
    let w: i16 = if category { if text_w + 4 <= dw { text_w + 4 } else { dw } } else { BOX_SIZE };
    let h: i16 = if category { HEADER_HEIGHT } else { BOX_SIZE };
    let mut out: Vec<(i16, i16, u8)> = Vec::new();
    let mut k: i16 = 0;
    while k < h
        invariant
            -5000 <= x <= 5000,
            -5000 <= y <= 5000,
            0 <= w <= 5004,
            0 <= h <= 15,
            0 <= k <= h,
            pin3_views(out@) == outline_rows(x as int, y as int, w as int, h as int, dw as int, dh as int, k as int),
        decreases h - k,
    {
        let j: i16 = y + k;
        let ghost row_start = pin3_views(out@);
        let mut n: i16 = 0;
        while n < w
            invariant
                -5000 <= x <= 5000,
                -5000 <= y <= 5000,
                0 <= w <= 5004,
                0 <= h <= 15,
                0 <= n <= w,
                j == y + k,
                pin3_views(out@) == row_start + outline_row(x as int, y as int, w as int, h as int, dw as int, dh as int, n as int, j as int),
            decreases w - n,
        {
            let i: i16 = x + n;
            let ghost before = pin3_views(out@);
            if (j == y || j == y + h - 1 || i == x || i == x + w - 1) && i >= 0 && j >= 0 && i < dw && j < dh {
                out.push((i, j, 255));
                assert(pin3_views(out@) =~= before.push((i as int, j as int, 255u8)));
            }
            n += 1;
        }
        assert(pin3_views(out@) =~= outline_rows(x as int, y as int, w as int, h as int, dw as int, dh as int, k + 1));
        k += 1;
    }
    out
}

} // verus!
