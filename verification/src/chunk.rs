//! Splitting text into pieces of a size that suits a speech engine.
//!
//! A chunk ends at a sentence mark (`.`, `!`, `?`, line feed) once it holds at
//! least the minimum number of characters, unless the word before a `.` is a
//! known abbreviation. A chunk that reaches the maximum length is cut at the
//! last comma, else at the last whitespace, else right there. A short tail is
//! joined to the previous chunk when the two fit under the maximum.
use vstd::prelude::*;
use crate::text::{
    chars_of, is_whitespace, is_ws, lemma_skip_ws_back_bounds, lemma_skip_ws_fwd_bounds, skip_ws_back,
    skip_ws_fwd, string_from_chars, trim, trim_bounds,
};

verus! {

broadcast use vstd::string::group_string_axioms;

/// Default longest chunk, in characters.
pub const MAX_CHUNK_LENGTH: usize = 300;

/// Default shortest chunk, in characters.
pub const MIN_CHUNK_LENGTH: usize = 50;

/// The abbreviations after which a `.` does not end a sentence. The chunker only
/// asks whether a word is one of them, so they are kept as a list: vstd states
/// `HashSet` membership only for keys whose hashing it models, which text keys
/// are not.
pub open spec fn abbreviations() -> Seq<Seq<char>> {
    seq![
        "Dr."@, "Mr."@, "Mrs."@, "Ms."@, "Prof."@, "Sr."@, "Jr."@, "St."@, "Ave."@, "Rd."@,
        "Blvd."@, "Dept."@, "Inc."@, "Ltd."@, "Co."@, "Corp."@, "etc."@, "vs."@, "i.e."@,
        "e.g."@, "Ph.D."@,
    ]
}

pub open spec fn is_punct(c: char) -> bool {
    c == '.' || c == '!' || c == '?' || c == '\n'
}

/// Last index of the run of sentence marks that starts at `e`.
pub open spec fn punct_run_end(t: Seq<char>, e: int) -> int
    decreases t.len() - e,
{
    if 0 <= e && e + 1 < t.len() && is_punct(t[e + 1]) {
        punct_run_end(t, e + 1)
    } else {
        e
    }
}

/// Last index `i` with `lo < i <= j` and `t[i] == ','`, or -1.
pub open spec fn last_comma(t: Seq<char>, lo: int, j: int) -> int
    decreases j - lo,
{
    if j <= lo || j >= t.len() {
        -1
    } else if t[j] == ',' {
        j
    } else {
        last_comma(t, lo, j - 1)
    }
}

/// Last index `i` with `lo < i <= j` and `t[i]` whitespace, or -1.
pub open spec fn last_space(t: Seq<char>, lo: int, j: int) -> int
    decreases j - lo,
{
    if j <= lo || j >= t.len() {
        -1
    } else if is_ws(t[j]) {
        j
    } else {
        last_space(t, lo, j - 1)
    }
}

/// Where a chunk that grew to the maximum length in `t[s..=e]` is cut.
pub open spec fn fallback_cut(t: Seq<char>, s: int, e: int) -> int {
    let c = last_comma(t, s, e);
    if c >= 0 {
        c
    } else {
        let w = last_space(t, s, e);
        if w >= 0 {
            w
        } else {
            e
        }
    }
}

/// Start of the word that ends (exclusively) at `k`.
pub open spec fn word_start(t: Seq<char>, s: int, k: int) -> int
    decreases k - s,
{
    if s < k && k <= t.len() && !is_ws(t[k - 1]) {
        word_start(t, s, k - 1)
    } else {
        k
    }
}

/// Whether the last whitespace-separated word of `t[s..=pe]` is an abbreviation.
pub open spec fn ends_with_abbreviation(t: Seq<char>, s: int, pe: int) -> bool {
    let k = skip_ws_back(t, s, pe + 1);
    k > s && abbreviations().contains(t.subrange(word_start(t, s, k), k))
}

/// Scans from index `e` for the end of the chunk that starts at `s`.
/// Returns whether a boundary was found and the index of the chunk's last character.
pub open spec fn scan(t: Seq<char>, s: int, e: int, min: int, max: int) -> (bool, int)
    decreases t.len() - e,
{
    if e < s || e < 0 || e >= t.len() {
        (false, t.len() - 1)
    } else {
        let len1 = e - s + 1;
        let c = t[e];
        if len1 >= min && is_punct(c) {
            let pe = punct_run_end(t, e);
            let len2 = pe - s + 1;
            if !(c == '.' && ends_with_abbreviation(t, s, pe)) {
                (true, pe)
            } else if len2 >= max {
                (true, fallback_cut(t, s, pe))
            } else {
                proof {
                    lemma_punct_run_end(t, e);
                }
                scan(t, s, pe + 1, min, max)
            }
        } else if len1 >= max {
            (true, fallback_cut(t, s, e))
        } else {
            scan(t, s, e + 1, min, max)
        }
    }
}

/// Adds one trimmed piece to the chunks gathered so far.
pub open spec fn add_piece(
    acc: Seq<Seq<char>>,
    piece: Seq<char>,
    found: bool,
    min: int,
    max: int,
) -> Seq<Seq<char>> {
    if piece.len() == 0 {
        acc
    } else if !found && piece.len() < min && acc.len() > 0 {
        if acc.last().len() + piece.len() < max {
            acc.update(acc.len() - 1, acc.last() + seq![' '] + piece)
        } else {
            acc.push(piece)
        }
    } else {
        acc.push(piece)
    }
}

/// The chunks of `t[s..]`, appended to `acc`.
pub open spec fn chunks_from(t: Seq<char>, s: int, acc: Seq<Seq<char>>, min: int, max: int) -> Seq<
    Seq<char>,
>
    decreases t.len() - s,
{
    if s < 0 || s >= t.len() {
        acc
    } else {
        let (found, end) = scan(t, s, s, min, max);
        let piece = trim(t.subrange(s, end + 1));
        proof {
            lemma_scan_bounds(t, s, s, min, max);
        }
        chunks_from(t, end + 1, add_piece(acc, piece, found, min, max), min, max)
    }
}

/// What `TextChunker::chunk_text` returns for `text`.
pub open spec fn spec_chunk_text(text: Seq<char>, min: int, max: int) -> Seq<Seq<char>> {
    let t = trim(text);
    if t.len() == 0 {
        seq![Seq::<char>::empty()]
    } else {
        let r = chunks_from(t, 0, Seq::empty(), min, max);
        if r.len() == 0 {
            seq![Seq::<char>::empty()]
        } else {
            r
        }
    }
}

pub open spec fn views(v: Seq<Vec<char>>) -> Seq<Seq<char>> {
    v.map_values(|x: Vec<char>| x@)
}

pub open spec fn string_views(v: Seq<String>) -> Seq<Seq<char>> {
    v.map_values(|x: String| x@)
}

pub proof fn lemma_punct_run_end(t: Seq<char>, e: int)
    requires
        0 <= e < t.len(),
    ensures
        e <= punct_run_end(t, e) < t.len(),
    decreases t.len() - e,
{
    if e + 1 < t.len() && is_punct(t[e + 1]) {
        lemma_punct_run_end(t, e + 1);
    }
}

pub proof fn lemma_last_comma(t: Seq<char>, lo: int, j: int)
    ensures
        last_comma(t, lo, j) == -1 || (lo < last_comma(t, lo, j) <= j),
    decreases j - lo,
{
    if !(j <= lo || j >= t.len()) && t[j] != ',' {
        lemma_last_comma(t, lo, j - 1);
    }
}

pub proof fn lemma_last_space(t: Seq<char>, lo: int, j: int)
    ensures
        last_space(t, lo, j) == -1 || (lo < last_space(t, lo, j) <= j),
    decreases j - lo,
{
    if !(j <= lo || j >= t.len()) && !is_ws(t[j]) {
        lemma_last_space(t, lo, j - 1);
    }
}

pub proof fn lemma_fallback_cut(t: Seq<char>, s: int, e: int)
    requires
        s <= e,
    ensures
        s <= fallback_cut(t, s, e) <= e,
{
    lemma_last_comma(t, s, e);
    lemma_last_space(t, s, e);
}

/// The scan ends inside the text, at or after the chunk start.
pub proof fn lemma_scan_bounds(t: Seq<char>, s: int, e: int, min: int, max: int)
    requires
        0 <= s < t.len(),
        s <= e,
    ensures
        s <= scan(t, s, e, min, max).1 < t.len(),
    decreases t.len() - e,
{
    if e < t.len() {
        let len1 = e - s + 1;
        let c = t[e];
        if len1 >= min && is_punct(c) {
            let pe = punct_run_end(t, e);
            lemma_punct_run_end(t, e);
            if !(c == '.' && ends_with_abbreviation(t, s, pe)) {
            } else if pe - s + 1 >= max {
                lemma_fallback_cut(t, s, pe);
            } else {
                lemma_scan_bounds(t, s, pe + 1, min, max);
            }
        } else if len1 >= max {
            lemma_fallback_cut(t, s, e);
        } else {
            lemma_scan_bounds(t, s, e + 1, min, max);
        }
    }
}

/// Index of the last sentence mark in the run that starts at `e`.
fn punct_run_end_exec(t: &Vec<char>, e: usize) -> (r: usize)
    requires
        e < t.len(),
    ensures
        r == punct_run_end(t@, e as int),
        e <= r < t.len(),
{
    let mut pe = e;
    while pe + 1 < t.len() && (t[pe + 1] == '.' || t[pe + 1] == '!' || t[pe + 1] == '?' || t[pe
        + 1] == '\n')
        invariant
            e <= pe < t.len(),
            punct_run_end(t@, pe as int) == punct_run_end(t@, e as int),
        decreases t.len() - pe,
    {
        pe += 1;
    }
    pe
}

fn fallback_cut_exec(t: &Vec<char>, s: usize, e: usize) -> (r: usize)
    requires
        s <= e < t.len(),
    ensures
        r == fallback_cut(t@, s as int, e as int),
        s <= r <= e,
{
    proof {
        lemma_fallback_cut(t@, s as int, e as int);
    }
    let mut i = e;
    while i > s
        invariant
            s <= i <= e < t.len(),
            last_comma(t@, s as int, i as int) == last_comma(t@, s as int, e as int),
        decreases i,
    {
        if t[i] == ',' {
            return i;
        }
        i -= 1;
    }
    let mut j = e;
    while j > s
        invariant
            s <= j <= e < t.len(),
            last_space(t@, s as int, j as int) == last_space(t@, s as int, e as int),
            last_comma(t@, s as int, e as int) == -1,
        decreases j,
    {
        if is_whitespace(t[j]) {
            return j;
        }
        j -= 1;
    }
    e
}

/// Whether `t[lo..hi]` equals `w`.
fn slice_equals(t: &Vec<char>, lo: usize, hi: usize, w: &Vec<char>) -> (r: bool)
    requires
        lo <= hi <= t.len(),
    ensures
        r == (t@.subrange(lo as int, hi as int) == w@),
{
    if hi - lo != w.len() {
        return false;
    }
    let mut i: usize = 0;
    while i < w.len()
        invariant
            lo <= hi <= t.len(),
            hi - lo == w.len(),
            i <= w.len(),
            forall|k: int| 0 <= k < i ==> t@[lo + k] == w@[k],
        decreases w.len() - i,
    {
        if t[lo + i] != w[i] {
            assert(t@.subrange(lo as int, hi as int)[i as int] != w@[i as int]);
            return false;
        }
        i += 1;
    }
    assert(t@.subrange(lo as int, hi as int) =~= w@);
    true
}

fn ends_with_abbreviation_exec(
    t: &Vec<char>,
    s: usize,
    pe: usize,
    abbrevs: &Vec<Vec<char>>,
) -> (r: bool)
    requires
        s <= pe < t.len(),
        views(abbrevs@) == abbreviations(),
    ensures
        r == ends_with_abbreviation(t@, s as int, pe as int),
{
    let mut k = pe + 1;
    while k > s && is_whitespace(t[k - 1])
        invariant
            s <= k <= pe + 1 <= t.len(),
            skip_ws_back(t@, s as int, k as int) == skip_ws_back(t@, s as int, pe + 1),
        decreases k,
    {
        k -= 1;
    }
    if k == s {
        return false;
    }
    let mut ws = k;
    while ws > s && !is_whitespace(t[ws - 1])
        invariant
            s <= ws <= k <= t.len(),
            word_start(t@, s as int, ws as int) == word_start(t@, s as int, k as int),
        decreases ws,
    {
        ws -= 1;
    }
    let ghost word = t@.subrange(ws as int, k as int);
    assert(skip_ws_back(t@, s as int, pe + 1) == k);
    assert(word_start(t@, s as int, k as int) == ws);
    let mut i: usize = 0;
    while i < abbrevs.len()
        invariant
            i <= abbrevs.len(),
            views(abbrevs@) == abbreviations(),
            s <= ws <= k <= t.len(),
            word == t@.subrange(ws as int, k as int),
            s < k,
            skip_ws_back(t@, s as int, pe + 1) == k,
            word_start(t@, s as int, k as int) == ws,
            forall|j: int| 0 <= j < i ==> abbreviations()[j] != word,
        decreases abbrevs.len() - i,
    {
        if slice_equals(t, ws, k, &abbrevs[i]) {
            assert(abbreviations()[i as int] == word);
            assert(abbreviations().contains(word));
            return true;
        }
        i += 1;
    }
    assert(!abbreviations().contains(word)) by {
        if abbreviations().contains(word) {
            let j = choose|j: int| 0 <= j < abbreviations().len() && abbreviations()[j] == word;
            assert(abbreviations()[j] != word);
        }
    }
    false
}

/// A chunking configuration: the least and the greatest chunk length.
pub struct TextChunker {
    min_chunk_length: usize,
    max_chunk_length: usize,
}

impl TextChunker {
    pub closed spec fn min_length(&self) -> nat {
        self.min_chunk_length as nat
    }

    pub closed spec fn max_length(&self) -> nat {
        self.max_chunk_length as nat
    }

    /// The abbreviation table, each entry as its characters.
    fn abbrev_set() -> (r: Vec<Vec<char>>)
        ensures
            views(r@) == abbreviations(),
    {
        let mut r: Vec<Vec<char>> = Vec::new();
        r.push(chars_of("Dr."));
        r.push(chars_of("Mr."));
        r.push(chars_of("Mrs."));
        r.push(chars_of("Ms."));
        r.push(chars_of("Prof."));
        r.push(chars_of("Sr."));
        r.push(chars_of("Jr."));
        r.push(chars_of("St."));
        r.push(chars_of("Ave."));
        r.push(chars_of("Rd."));
        r.push(chars_of("Blvd."));
        r.push(chars_of("Dept."));
        r.push(chars_of("Inc."));
        r.push(chars_of("Ltd."));
        r.push(chars_of("Co."));
        r.push(chars_of("Corp."));
        r.push(chars_of("etc."));
        r.push(chars_of("vs."));
        r.push(chars_of("i.e."));
        r.push(chars_of("e.g."));
        r.push(chars_of("Ph.D."));
        assert(views(r@) =~= abbreviations());
        r
    }

    /// A chunker with the given minimum and the default maximum length.
    pub fn new(min_chunk_length: usize) -> (r: Self)
        ensures
            r.min_length() == min_chunk_length,
            r.max_length() == MAX_CHUNK_LENGTH,
    {
        Self { min_chunk_length, max_chunk_length: MAX_CHUNK_LENGTH }
    }

    /// A chunker with the given minimum and maximum length.
    pub fn with_max_length(min_chunk_length: usize, max_chunk_length: usize) -> (r: Self)
        ensures
            r.min_length() == min_chunk_length,
            r.max_length() == max_chunk_length,
    {
        Self { min_chunk_length, max_chunk_length }
    }

    fn scan_exec(&self, t: &Vec<char>, s: usize, abbrevs: &Vec<Vec<char>>) -> (r: (bool, usize))
        requires
            s < t.len(),
            views(abbrevs@) == abbreviations(),
        ensures
            r.0 == scan(t@, s as int, s as int, self.min_length() as int, self.max_length() as int).0,
            r.1 == scan(t@, s as int, s as int, self.min_length() as int, self.max_length() as int).1,
            s <= r.1 < t.len(),
    {
        let ghost min = self.min_chunk_length as int;
        let ghost max = self.max_chunk_length as int;
        proof {
            lemma_scan_bounds(t@, s as int, s as int, min, max);
        }
        let n = t.len();
        let mut e = s;
        let mut current_len: usize = 0;
        loop
            invariant
                s <= e <= n == t.len(),
                s < n,
                s <= scan(t@, s as int, s as int, min, max).1 < n,
                current_len == e - s,
                views(abbrevs@) == abbreviations(),
                min == self.min_chunk_length,
                max == self.max_chunk_length,
                scan(t@, s as int, e as int, min, max) == scan(t@, s as int, s as int, min, max),
            decreases n - e,
        {
            if e >= n {
                return (false, n - 1);
            }
            current_len += 1;
            let c = t[e];
            if current_len >= self.min_chunk_length && (c == '.' || c == '!' || c == '?' || c
                == '\n') {
                let pe = punct_run_end_exec(t, e);
                current_len += pe - e;
                let abbrev = c == '.' && ends_with_abbreviation_exec(t, s, pe, abbrevs);
                if !abbrev {
                    return (true, pe);
                }
                if current_len >= self.max_chunk_length {
                    return (true, fallback_cut_exec(t, s, pe));
                }
                e = pe + 1;
            } else if current_len >= self.max_chunk_length {
                return (true, fallback_cut_exec(t, s, e));
            } else {
                e += 1;
            }
        }
    }

    /// Splits `text` into chunks; never returns an empty list (blank text gives one empty chunk).
    pub fn chunk_text(&self, text: &str) -> (res: Vec<String>)
        ensures
            string_views(res@) == spec_chunk_text(
                text@,
                self.min_length() as int,
                self.max_length() as int,
            ),
            res.len() >= 1,
    {
        let ghost min = self.min_chunk_length as int;
        let ghost max = self.max_chunk_length as int;
        let all = chars_of(text);
        let (a, b) = trim_bounds(&all, 0, all.len());
        assert(all@.subrange(0, all@.len() as int) =~= text@);
        let mut t: Vec<char> = Vec::new();
        let mut i = a;
        while i < b
            invariant
                a <= i <= b <= all.len(),
                t@ == all@.subrange(a as int, i as int),
            decreases b - i,
        {
            t.push(all[i]);
            assert(all@.subrange(a as int, i as int).push(all@[i as int]) =~= all@.subrange(
                a as int,
                i + 1,
            ));
            i += 1;
        }
        assert(t@ == trim(text@));
        if t.len() == 0 {
            let mut res: Vec<String> = Vec::new();
            res.push(String::new());
            assert(string_views(res@) =~= seq![Seq::<char>::empty()]);
            return res;
        }
        let abbrevs = Self::abbrev_set();
        let mut chunks: Vec<Vec<char>> = Vec::new();
        let mut s: usize = 0;
        assert(views(chunks@) =~= Seq::<Seq<char>>::empty());
        while s < t.len()
            invariant
                s <= t.len(),
                t@ == trim(text@),
                views(abbrevs@) == abbreviations(),
                min == self.min_chunk_length,
                max == self.max_chunk_length,
                chunks_from(t@, s as int, views(chunks@), min, max) == chunks_from(
                    t@,
                    0,
                    Seq::empty(),
                    min,
                    max,
                ),
            decreases t.len() - s,
        {
            let (found, end) = self.scan_exec(&t, s, &abbrevs);
            let (pa, pb) = trim_bounds(&t, s, end + 1);
            let ghost piece = t@.subrange(pa as int, pb as int);
            let ghost old_views = views(chunks@);
            if pb > pa {
                let plen = pb - pa;
                let n_chunks = chunks.len();
                if !found && plen < self.min_chunk_length && n_chunks > 0 {
                    let last_len = chunks[n_chunks - 1].len();
                    if last_len < self.max_chunk_length && plen < self.max_chunk_length - last_len {
                        let mut merged: Vec<char> = chunks[n_chunks - 1].clone();
                        let ghost prev = merged@;
                        merged.push(' ');
                        let mut k = pa;
                        while k < pb
                            invariant
                                pa <= k <= pb <= t.len(),
                                merged@ == prev + seq![' '] + t@.subrange(pa as int, k as int),
                            decreases pb - k,
                        {
                            merged.push(t[k]);
                            assert(t@.subrange(pa as int, k as int).push(t@[k as int])
                                =~= t@.subrange(pa as int, k + 1));
                            k += 1;
                        }
                        chunks.set(n_chunks - 1, merged);
                        assert(views(chunks@) =~= add_piece(old_views, piece, found, min, max));
                    } else {
                        let p = copy_range(&t, pa, pb);
                        chunks.push(p);
                        assert(views(chunks@) =~= add_piece(old_views, piece, found, min, max));
                    }
                } else {
                    let p = copy_range(&t, pa, pb);
                    chunks.push(p);
                    assert(views(chunks@) =~= add_piece(old_views, piece, found, min, max));
                }
            } else {
                assert(views(chunks@) =~= add_piece(old_views, piece, found, min, max));
            }
            s = end + 1;
        }
        let ghost final_chunks = views(chunks@);
        assert(chunks_from(t@, s as int, views(chunks@), min, max) == views(chunks@));
        let mut res: Vec<String> = Vec::new();
        let mut j: usize = 0;
        while j < chunks.len()
            invariant
                j <= chunks.len(),
                string_views(res@) == views(chunks@).take(j as int),
            decreases chunks.len() - j,
        {
            let sj = string_from_chars(&chunks[j]);
            let ghost before = res@;
            assert(string_views(before).len() == before.len());
            assert(views(chunks@).take(j as int).len() == j);
            assert(before.len() == j);
            res.push(sj);
            assert(res@ == before.push(sj));
            assert(sj@ == views(chunks@)[j as int]);
            assert forall|k: int| 0 <= k < j + 1 implies #[trigger] string_views(res@)[k] == views(
                chunks@,
            ).take(j + 1)[k] by {
                assert(string_views(res@)[k] == res@[k]@);
                if k < j {
                    assert(res@[k] == before[k]);
                    assert(string_views(before)[k] == before[k]@);
                    assert(string_views(before)[k] == views(chunks@).take(j as int)[k]);
                    assert(views(chunks@).take(j as int)[k] == views(chunks@)[k]);
                } else {
                    assert(res@[k] == sj);
                }
                assert(views(chunks@).take(j + 1)[k] == views(chunks@)[k]);
            }
            assert(string_views(res@) =~= views(chunks@).take(j + 1));
            j += 1;
        }
        assert(views(chunks@).take(chunks.len() as int) =~= views(chunks@));
        if res.len() == 0 {
            res.push(String::new());
            assert(string_views(res@) =~= seq![Seq::<char>::empty()]);
        }
        res
    }
}


/// The characters of `s` that are not whitespace, in order.
pub open spec fn non_ws(s: Seq<char>) -> Seq<char> {
    s.filter(|c: char| !is_ws(c))
}

pub proof fn lemma_non_ws_add(a: Seq<char>, b: Seq<char>)
    ensures
        non_ws(a + b) == non_ws(a) + non_ws(b),
{
    Seq::filter_distributes_over_add(a, b, |c: char| !is_ws(c));
}

pub proof fn lemma_non_ws_blank(s: Seq<char>)
    requires
        forall|k: int| 0 <= k < s.len() ==> is_ws(#[trigger] s[k]),
    ensures
        non_ws(s) == Seq::<char>::empty(),
{
    assert(s.all(|x: char| !(!is_ws(x))));
    s.lemma_all_neg_filter_empty(|c: char| !is_ws(c));
}

pub proof fn lemma_non_ws_trim(s: Seq<char>)
    ensures
        non_ws(trim(s)) == non_ws(s),
{
    let a = skip_ws_fwd(s, 0);
    lemma_skip_ws_fwd_bounds(s, 0);
    let b = skip_ws_back(s, a, s.len() as int);
    lemma_skip_ws_back_bounds(s, a, s.len() as int);
    let pre = s.subrange(0, a);
    let mid = s.subrange(a, b);
    let post = s.subrange(b, s.len() as int);
    assert(s =~= pre + mid + post);
    lemma_non_ws_blank(pre);
    lemma_non_ws_blank(post);
    lemma_non_ws_add(pre + mid, post);
    lemma_non_ws_add(pre, mid);
    assert(non_ws(pre) + non_ws(mid) =~= non_ws(mid));
    assert(non_ws(mid) + non_ws(post) =~= non_ws(mid));
}

pub proof fn lemma_non_ws_add_piece(
    acc: Seq<Seq<char>>,
    piece: Seq<char>,
    found: bool,
    min: int,
    max: int,
)
    ensures
        non_ws(add_piece(acc, piece, found, min, max).flatten()) == non_ws(acc.flatten()) + non_ws(
            piece,
        ),
{
    broadcast use Seq::lemma_flatten_push;

    if piece.len() == 0 {
        assert(piece =~= Seq::<char>::empty());
        lemma_non_ws_blank(piece);
        assert(non_ws(acc.flatten()) + non_ws(piece) =~= non_ws(acc.flatten()));
    } else if !found && piece.len() < min && acc.len() > 0 && acc.last().len() + piece.len() < max {
        let init = acc.drop_last();
        let last = acc.last();
        assert(acc =~= init.push(last));
        let merged = last + seq![' '] + piece;
        assert(acc.update(acc.len() - 1, merged) =~= init.push(merged));
        lemma_non_ws_add(init.flatten(), last);
        lemma_non_ws_add(init.flatten(), merged);
        lemma_non_ws_add(last + seq![' '], piece);
        lemma_non_ws_add(last, seq![' ']);
        lemma_non_ws_blank(seq![' ']);
        assert(non_ws(last) + non_ws(seq![' ']) =~= non_ws(last));
    } else {
        lemma_non_ws_add(acc.flatten(), piece);
    }
}

pub proof fn lemma_non_ws_chunks_from(t: Seq<char>, s: int, acc: Seq<Seq<char>>, min: int, max: int)
    requires
        0 <= s <= t.len(),
    ensures
        non_ws(chunks_from(t, s, acc, min, max).flatten()) == non_ws(acc.flatten()) + non_ws(
            t.subrange(s, t.len() as int),
        ),
    decreases t.len() - s,
{
    if s == t.len() {
        lemma_non_ws_blank(t.subrange(s, t.len() as int));
        assert(non_ws(acc.flatten()) + non_ws(t.subrange(s, t.len() as int)) =~= non_ws(
            acc.flatten(),
        ));
    } else {
        let (found, end) = scan(t, s, s, min, max);
        lemma_scan_bounds(t, s, s, min, max);
        let raw = t.subrange(s, end + 1);
        let piece = trim(raw);
        let acc2 = add_piece(acc, piece, found, min, max);
        lemma_non_ws_chunks_from(t, end + 1, acc2, min, max);
        lemma_non_ws_add_piece(acc, piece, found, min, max);
        lemma_non_ws_trim(raw);
        let rest = t.subrange(end + 1, t.len() as int);
        assert(t.subrange(s, t.len() as int) =~= raw + rest);
        lemma_non_ws_add(raw, rest);
        assert(non_ws(acc.flatten()) + non_ws(raw) + non_ws(rest) =~= non_ws(acc.flatten()) + (
        non_ws(raw) + non_ws(rest)));
    }
}

/// Chunking loses, adds and reorders no character other than whitespace: the
/// chunks, laid end to end, hold the same non-whitespace characters as the text.
pub proof fn law_chunking_keeps_content(text: Seq<char>, min: int, max: int)
    ensures
        non_ws(spec_chunk_text(text, min, max).flatten()) == non_ws(text),
{
    let t = trim(text);
    lemma_non_ws_trim(text);
    let one_empty = seq![Seq::<char>::empty()];
    assert(one_empty.flatten() =~= Seq::<char>::empty()) by {
        assert(one_empty.drop_first().flatten() =~= Seq::<char>::empty());
    }
    lemma_non_ws_blank(Seq::<char>::empty());
    if t.len() == 0 {
        lemma_non_ws_blank(t);
    } else {
        let r = chunks_from(t, 0, Seq::empty(), min, max);
        lemma_non_ws_chunks_from(t, 0, Seq::empty(), min, max);
        assert(t.subrange(0, t.len() as int) =~= t);
        assert(Seq::<Seq<char>>::empty().flatten() =~= Seq::<char>::empty());
        assert(non_ws(Seq::<char>::empty()) + non_ws(t) =~= non_ws(t));
        if r.len() == 0 {
            assert(r.flatten() =~= Seq::<char>::empty());
        }
    }
}

/// A chunk as spoken: not empty, and neither starting nor ending with whitespace.
pub open spec fn trimmed_chunk(c: Seq<char>) -> bool {
    c.len() > 0 && !is_ws(c[0]) && !is_ws(c.last())
}

pub proof fn lemma_trim_shape(s: Seq<char>)
    ensures
        trim(s).len() <= s.len(),
        trim(s).len() > 0 ==> trimmed_chunk(trim(s)),
        s.len() > 0 && !is_ws(s[0]) ==> trim(s).len() > 0,
{
    let a = skip_ws_fwd(s, 0);
    lemma_skip_ws_fwd_bounds(s, 0);
    let b = skip_ws_back(s, a, s.len() as int);
    lemma_skip_ws_back_bounds(s, a, s.len() as int);
    if b > a {
        assert(trim(s)[0] == s[a]);
        assert(trim(s).last() == s[b - 1]);
    }
    if s.len() > 0 && !is_ws(s[0]) {
        assert(a == 0);
        if b == a {
            assert(is_ws(s[0]));
        }
    }
}

pub proof fn lemma_add_piece_shape(acc: Seq<Seq<char>>, piece: Seq<char>, found: bool, min: int, max: int)
    requires
        forall|i: int| 0 <= i < acc.len() ==> trimmed_chunk(#[trigger] acc[i]),
        piece.len() > 0 ==> trimmed_chunk(piece),
    ensures
        forall|i: int| 0 <= i < add_piece(acc, piece, found, min, max).len() ==> trimmed_chunk(#[trigger] add_piece(acc, piece, found, min, max)[i]),
        acc.len() <= add_piece(acc, piece, found, min, max).len() <= acc.len() + 1,
        (forall|i: int| 0 <= i < acc.len() ==> (#[trigger] acc[i]).len() <= max) && piece.len() <= max ==>
            forall|i: int| 0 <= i < add_piece(acc, piece, found, min, max).len() ==> (#[trigger] add_piece(acc, piece, found, min, max)[i]).len() <= max,
{
    let r = add_piece(acc, piece, found, min, max);
    if piece.len() > 0 && !found && piece.len() < min && acc.len() > 0 && acc.last().len() + piece.len() < max {
        let m = acc.last() + seq![' '] + piece;
        assert(trimmed_chunk(acc[acc.len() - 1]));
        assert(m[0] == acc.last()[0]);
        assert(m.last() == piece.last());
        assert forall|i: int| 0 <= i < r.len() implies trimmed_chunk(#[trigger] r[i]) by {
            if i < acc.len() - 1 {
                assert(r[i] == acc[i]);
            }
        }
    }
}

pub proof fn lemma_chunks_from_shape(t: Seq<char>, s: int, acc: Seq<Seq<char>>, min: int, max: int)
    requires
        0 <= s <= t.len(),
        acc.len() <= s,
        forall|i: int| 0 <= i < acc.len() ==> trimmed_chunk(#[trigger] acc[i]),
    ensures
        forall|i: int| 0 <= i < chunks_from(t, s, acc, min, max).len() ==> trimmed_chunk(#[trigger] chunks_from(t, s, acc, min, max)[i]),
        acc.len() <= chunks_from(t, s, acc, min, max).len() <= t.len(),
    decreases t.len() - s,
{
    if s < t.len() {
        let (found, end) = scan(t, s, s, min, max);
        lemma_scan_bounds(t, s, s, min, max);
        let piece = trim(t.subrange(s, end + 1));
        lemma_trim_shape(t.subrange(s, end + 1));
        lemma_add_piece_shape(acc, piece, found, min, max);
        lemma_chunks_from_shape(t, end + 1, add_piece(acc, piece, found, min, max), min, max);
    }
}

/// Without sentence marks, a scan never runs past `max` characters.
pub proof fn lemma_scan_unmarked(t: Seq<char>, s: int, e: int, min: int, max: int)
    requires
        0 <= s <= e,
        e - s + 1 <= max,
        forall|i: int| 0 <= i < t.len() ==> !is_punct(#[trigger] t[i]),
    ensures
        scan(t, s, e, min, max).1 - s + 1 <= max,
    decreases t.len() - e,
{
    if e < t.len() {
        if e - s + 1 >= max {
            lemma_fallback_cut(t, s, e);
        } else {
            lemma_scan_unmarked(t, s, e + 1, min, max);
        }
    }
}

pub proof fn lemma_chunks_from_unmarked(t: Seq<char>, s: int, acc: Seq<Seq<char>>, min: int, max: int)
    requires
        0 <= s <= t.len(),
        max >= 1,
        forall|i: int| 0 <= i < t.len() ==> !is_punct(#[trigger] t[i]),
        forall|i: int| 0 <= i < acc.len() ==> trimmed_chunk(#[trigger] acc[i]),
        forall|i: int| 0 <= i < acc.len() ==> (#[trigger] acc[i]).len() <= max,
    ensures
        forall|i: int| 0 <= i < chunks_from(t, s, acc, min, max).len() ==> (#[trigger] chunks_from(t, s, acc, min, max)[i]).len() <= max,
    decreases t.len() - s,
{
    if s < t.len() {
        let (found, end) = scan(t, s, s, min, max);
        lemma_scan_bounds(t, s, s, min, max);
        lemma_scan_unmarked(t, s, s, min, max);
        let piece = trim(t.subrange(s, end + 1));
        lemma_trim_shape(t.subrange(s, end + 1));
        assert(piece.len() <= max);
        lemma_add_piece_shape(acc, piece, found, min, max);
        let acc2 = add_piece(acc, piece, found, min, max);
        assert(forall|i: int| 0 <= i < acc.len() ==> (#[trigger] acc[i]).len() <= max);
        assert(forall|i: int| 0 <= i < acc2.len() ==> (#[trigger] acc2[i]).len() <= max);
        lemma_chunks_from_unmarked(t, end + 1, acc2, min, max);
        assert(chunks_from(t, s, acc, min, max) == chunks_from(t, end + 1, acc2, min, max));
    }
}

/// What the chunks of a text are like: a blank text gives the one empty chunk;
/// otherwise every chunk is non-empty and trimmed, there are no more chunks
/// than characters in the trimmed text, and a text without sentence marks is
/// cut into chunks of at most `max` characters (for `max` of at least one).
pub proof fn law_chunk_shapes(text: Seq<char>, min: int, max: int)
    ensures
        trim(text).len() == 0 ==> spec_chunk_text(text, min, max) == seq![Seq::<char>::empty()],
        trim(text).len() > 0 ==> {
            let r = spec_chunk_text(text, min, max);
            &&& 1 <= r.len() <= trim(text).len()
            &&& forall|i: int| 0 <= i < r.len() ==> trimmed_chunk(#[trigger] r[i])
        },
        max >= 1 && (forall|i: int| 0 <= i < text.len() ==> !is_punct(#[trigger] text[i])) ==>
            forall|i: int| 0 <= i < spec_chunk_text(text, min, max).len() ==> (#[trigger] spec_chunk_text(text, min, max)[i]).len() <= max,
{
    let t = trim(text);
    lemma_trim_shape(text);
    if t.len() > 0 {
        lemma_chunks_from_shape(t, 0, Seq::empty(), min, max);
        let (found, end) = scan(t, 0, 0, min, max);
        lemma_scan_bounds(t, 0, 0, min, max);
        let piece = trim(t.subrange(0, end + 1));
        assert(t.subrange(0, end + 1)[0] == t[0]);
        lemma_trim_shape(t.subrange(0, end + 1));
        let acc1 = add_piece(Seq::empty(), piece, found, min, max);
        assert(acc1.len() == 1);
        lemma_chunks_from_shape(t, end + 1, acc1, min, max);
        if max >= 1 && (forall|i: int| 0 <= i < text.len() ==> !is_punct(#[trigger] text[i])) {
            let a = skip_ws_fwd(text, 0);
            lemma_skip_ws_fwd_bounds(text, 0);
            lemma_skip_ws_back_bounds(text, a, text.len() as int);
            assert forall|i: int| 0 <= i < t.len() implies !is_punct(#[trigger] t[i]) by {
                assert(t[i] == text[a + i]);
            }
            lemma_chunks_from_unmarked(t, 0, Seq::empty(), min, max);
        }
    } else {
        assert(spec_chunk_text(text, min, max) == seq![Seq::<char>::empty()]);
    }
}

/// The characters that end a sentence: full stop, exclamation and question
/// marks, and the line break.
pub open spec fn ends_sentence(c: char) -> bool {
    c == '.' || c == '!' || c == '?' || c == '\n'
}

/// A mark at `e` closes the chunk that starts at `s`: the chunk has reached the
/// minimum length and the mark is not the full stop of an abbreviation.
pub open spec fn closing_mark(t: Seq<char>, s: int, e: int, min: int) -> bool {
    &&& e - s + 1 >= min
    &&& ends_sentence(t[e])
    &&& !(t[e] == '.' && ends_with_abbreviation(t, s, punct_run_end(t, e)))
}

/// The end of the run of sentence marks that starts at `e`: every character up to
/// it is a mark, and the next one (if any) is not.
pub proof fn lemma_mark_run(t: Seq<char>, e: int)
    requires
        0 <= e < t.len(),
    ensures
        e <= punct_run_end(t, e) < t.len(),
        forall|k: int| e < k <= punct_run_end(t, e) ==> ends_sentence(#[trigger] t[k]),
        punct_run_end(t, e) + 1 < t.len() ==> !ends_sentence(t[punct_run_end(t, e) + 1]),
    decreases t.len() - e,
{
    if e + 1 < t.len() && is_punct(t[e + 1]) {
        lemma_mark_run(t, e + 1);
    }
}

/// Position `k` of the chunk that starts at `s` neither closes it nor reaches
/// the maximum length.
pub open spec fn passes(t: Seq<char>, s: int, k: int, min: int, max: int) -> bool {
    k - s + 1 < max && !(k - s + 1 >= min && ends_sentence(t[k]))
}

pub proof fn lemma_scan_reaches(t: Seq<char>, s: int, j: int, e: int, min: int, max: int)
    requires
        0 <= s <= j <= e < t.len(),
        forall|k: int| j <= k < e ==> #[trigger] passes(t, s, k, min, max),
    ensures
        scan(t, s, j, min, max) == scan(t, s, e, min, max),
    decreases e - j,
{
    if j < e {
        assert(passes(t, s, j, min, max));
        lemma_scan_reaches(t, s, j + 1, e, min, max);
    }
}

/// The first chunk of `t` closes at `e`: every earlier position passes (see
/// `passes`) and `e` holds a closing mark.
pub open spec fn first_close_at(t: Seq<char>, e: int, min: int, max: int) -> bool {
    &&& 0 <= e < t.len()
    &&& closing_mark(t, 0, e, min)
    &&& forall|k: int| 0 <= k < e ==> #[trigger] passes(t, 0, k, min, max)
}

/// A sentence mark ends the chunk it closes: when the text (trimmed, not empty)
/// has no sentence mark at or past the minimum length before `e`, does not reach
/// the maximum length before `e`, and `e` holds a closing mark (see
/// `closing_mark`), the first chunk is the text up to the end of the marks that
/// start at `e`, and the rest of the text is chunked after it on its own.
pub proof fn law_sentence_marks_end_chunks(text: Seq<char>, e: int, min: int, max: int)
    requires
        first_close_at(trim(text), e, min, max),
    ensures
        ({
            let t = trim(text);
            let pe = punct_run_end(t, e);
            &&& e <= pe < t.len()
            &&& forall|k: int| e < k <= pe ==> ends_sentence(#[trigger] t[k])
            &&& spec_chunk_text(text, min, max) == chunks_from(t, pe + 1, seq![trim(t.subrange(0, pe + 1))], min, max)
        }),
{
    let t = trim(text);
    let pe = punct_run_end(t, e);
    lemma_mark_run(t, e);
    lemma_scan_reaches(t, 0, 0, e, min, max);
    assert(is_punct(t[e]));
    assert(scan(t, 0, e, min, max) == (true, pe));
    lemma_trim_shape(text);
    let piece = trim(t.subrange(0, pe + 1));
    assert(t.subrange(0, pe + 1)[0] == t[0]);
    lemma_trim_shape(t.subrange(0, pe + 1));
    assert(add_piece(Seq::empty(), piece, true, min, max) =~= seq![piece]);
    assert(chunks_from(t, 0, Seq::empty(), min, max) == chunks_from(t, pe + 1, seq![piece], min, max));
    lemma_chunks_from_shape(t, pe + 1, seq![piece], min, max);
}

fn copy_range(t: &Vec<char>, lo: usize, hi: usize) -> (r: Vec<char>)
    requires
        lo <= hi <= t.len(),
    ensures
        r@ == t@.subrange(lo as int, hi as int),
{
    let mut r: Vec<char> = Vec::new();
    let mut k = lo;
    while k < hi
        invariant
            lo <= k <= hi <= t.len(),
            r@ == t@.subrange(lo as int, k as int),
        decreases hi - k,
    {
        r.push(t[k]);
        assert(t@.subrange(lo as int, k as int).push(t@[k as int]) =~= t@.subrange(
            lo as int,
            k + 1,
        ));
        k += 1;
    }
    r
}

/// What the free `chunk_text` uses as its minimum for a given maximum.
pub open spec fn legacy_min(max_len: int) -> int {
    if MIN_CHUNK_LENGTH <= max_len / 2 {
        MIN_CHUNK_LENGTH as int
    } else {
        max_len / 2
    }
}

/// Chunks `text` with the given maximum (default 300) and a minimum of
/// `min(50, max / 2)`.
pub fn chunk_text(text: &str, max_len: Option<usize>) -> (res: Vec<String>)
    ensures
        ({
            let max = match max_len {
                Some(m) => m as int,
                None => MAX_CHUNK_LENGTH as int,
            };
            string_views(res@) == spec_chunk_text(text@, legacy_min(max), max)
        }),
{
    let max_len = match max_len {
        Some(m) => m,
        None => MAX_CHUNK_LENGTH,
    };
    let half = max_len / 2;
    let min_len = if MIN_CHUNK_LENGTH <= half {
        MIN_CHUNK_LENGTH
    } else {
        half
    };
    let chunker = TextChunker::with_max_length(min_len, max_len);
    chunker.chunk_text(text)
}

} // verus!
