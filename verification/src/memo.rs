//! The braille memo: its modes, what each key does in each mode, and the byte
//! format in which the text is saved between runs.
//!
//! The text is lines of words, each word a sequence of braille cells (one byte
//! per cell). Saved, it reads: the number of lines, then for each line the number
//! of its words, then for each word its number of cells and the cells; every count
//! is four bytes, least significant first.
use vstd::prelude::*;
use crate::input::{KeyCode, KeyState, Language};

verus! {

/// Largest count of lines, words per line or cells per word that loading accepts.
pub const MAX_COUNT: u32 = 10000;

/// The memo's text as plain values.
pub type Lines = Seq<Seq<Seq<u8>>>;

pub open spec fn word_views(v: Seq<Vec<u8>>) -> Seq<Seq<u8>> {
    v.map_values(|w: Vec<u8>| w@)
}

pub open spec fn lines_view(v: Seq<Vec<Vec<u8>>>) -> Lines {
    v.map_values(|l: Vec<Vec<u8>>| word_views(l@))
}

/// The four bytes of `x`, least significant first.
pub open spec fn le_bytes(x: u32) -> Seq<u8> {
    seq![
        (x % 256) as u8,
        ((x / 256) % 256) as u8,
        ((x / 65536) % 256) as u8,
        ((x / 16777216) % 256) as u8,
    ]
}

/// The number whose bytes, least significant first, are `b[c..c + 4]`.
pub open spec fn le_value(b: Seq<u8>, c: int) -> u32 {
    (b[c] + 256 * b[c + 1] + 65536 * b[c + 2] + 16777216 * b[c + 3]) as u32
}

pub open spec fn enc_words(ws: Seq<Seq<u8>>) -> Seq<u8>
    decreases ws.len(),
{
    if ws.len() == 0 {
        Seq::empty()
    } else {
        le_bytes(ws[0].len() as u32) + ws[0] + enc_words(ws.drop_first())
    }
}

pub open spec fn enc_lines(ls: Lines) -> Seq<u8>
    decreases ls.len(),
{
    if ls.len() == 0 {
        Seq::empty()
    } else {
        le_bytes(ls[0].len() as u32) + enc_words(ls[0]) + enc_lines(ls.drop_first())
    }
}

/// The saved form of a text.
pub open spec fn encode(ls: Lines) -> Seq<u8> {
    le_bytes(ls.len() as u32) + enc_lines(ls)
}

/// The count at `c`, when four bytes are there.
pub open spec fn read_u32(b: Seq<u8>, c: int) -> Option<u32> {
    if 0 <= c && c + 4 <= b.len() {
        Some(le_value(b, c))
    } else {
        None
    }
}

/// Reads `n` words from `c`: each a count of at most `MAX_COUNT` and that many
/// bytes. Gives the words and where reading stopped.
pub open spec fn parse_words(b: Seq<u8>, c: int, n: nat) -> Option<(Seq<Seq<u8>>, int)>
    decreases n,
{
    if n == 0 {
        Some((Seq::empty(), c))
    } else {
        match read_u32(b, c) {
            None => None,
            Some(k) => if k > MAX_COUNT || c + 4 + k > b.len() {
                None
            } else {
                match parse_words(b, c + 4 + k, (n - 1) as nat) {
                    None => None,
                    Some((ws, e)) => Some((seq![b.subrange(c + 4, c + 4 + k)] + ws, e)),
                }
            },
        }
    }
}

/// Reads `n` lines from `c`: each a count of at most `MAX_COUNT` and that many words.
pub open spec fn parse_lines(b: Seq<u8>, c: int, n: nat) -> Option<(Lines, int)>
    decreases n,
{
    if n == 0 {
        Some((Seq::empty(), c))
    } else {
        match read_u32(b, c) {
            None => None,
            Some(k) => if k > MAX_COUNT {
                None
            } else {
                match parse_words(b, c + 4, k as nat) {
                    None => None,
                    Some((ws, e)) => match parse_lines(b, e, (n - 1) as nat) {
                        None => None,
                        Some((ls, e2)) => Some((seq![ws] + ls, e2)),
                    },
                }
            },
        }
    }
}

/// The text a saved form holds: `None` when a count is missing, larger than
/// `MAX_COUNT`, or announces more bytes than there are. Bytes after the text are
/// ignored.
pub open spec fn decode(b: Seq<u8>) -> Option<Lines> {
    match read_u32(b, 0) {
        None => None,
        Some(n) => if n > MAX_COUNT {
            None
        } else {
            match parse_lines(b, 4, n as nat) {
                None => None,
                Some((ls, e)) => Some(ls),
            }
        },
    }
}

/// Every count of the text is at most `MAX_COUNT`.
pub open spec fn counts_small(ls: Lines) -> bool {
    &&& ls.len() <= MAX_COUNT
    &&& forall|i: int| 0 <= i < ls.len() ==> #[trigger] ls[i].len() <= MAX_COUNT
    &&& forall|i: int, j: int| 0 <= i < ls.len() && 0 <= j < ls[i].len() ==> #[trigger] ls[i][j].len() <= MAX_COUNT
}


/// Reading back the four bytes of `x` gives `x`.
pub proof fn lemma_le_roundtrip(x: u32)
    ensures
        le_value(le_bytes(x), 0) == x,
{
    let xi = x as int;
    let q1 = xi / 256;
    let q2 = q1 / 256;
    let q3 = q2 / 256;
    vstd::arithmetic::div_mod::lemma_fundamental_div_mod(xi, 256);
    vstd::arithmetic::div_mod::lemma_fundamental_div_mod(q1, 256);
    vstd::arithmetic::div_mod::lemma_fundamental_div_mod(q2, 256);
    vstd::arithmetic::div_mod::lemma_div_denominator(xi, 256, 256);
    vstd::arithmetic::div_mod::lemma_div_denominator(q1, 256, 256);
    vstd::arithmetic::div_mod::lemma_div_denominator(xi, 256, 65536);
    assert(xi / 65536 == q2);
    assert(xi / 16777216 == q3);
    assert(q3 < 256) by {
        vstd::arithmetic::div_mod::lemma_div_is_ordered(xi, 0xffff_ffff, 16777216);
    }
    vstd::arithmetic::div_mod::lemma_small_mod(q3 as nat, 256);
    let b = le_bytes(x);
    assert(b[0] == xi % 256);
    assert(b[1] == q1 % 256);
    assert(b[2] == q2 % 256);
    assert(b[3] == q3);
    assert(xi == b[0] + 256 * b[1] + 65536 * b[2] + 16777216 * b[3]) by (nonlinear_arith)
        requires
            xi == 256 * q1 + xi % 256,
            q1 == 256 * q2 + q1 % 256,
            q2 == 256 * q3 + q2 % 256,
            b[0] == xi % 256,
            b[1] == q1 % 256,
            b[2] == q2 % 256,
            b[3] == q3,
    ;
}


pub proof fn lemma_read_le(b: Seq<u8>, c: int, x: u32)
    requires
        0 <= c,
        c + 4 <= b.len(),
        b.subrange(c, c + 4) == le_bytes(x),
    ensures
        read_u32(b, c) == Some(x),
{
    lemma_le_roundtrip(x);
    assert(b[c] == b.subrange(c, c + 4)[0]);
    assert(b[c + 1] == b.subrange(c, c + 4)[1]);
    assert(b[c + 2] == b.subrange(c, c + 4)[2]);
    assert(b[c + 3] == b.subrange(c, c + 4)[3]);
}

pub proof fn lemma_parse_enc_words(b: Seq<u8>, c: int, ws: Seq<Seq<u8>>)
    requires
        0 <= c,
        c + enc_words(ws).len() <= b.len(),
        b.subrange(c, c + enc_words(ws).len()) == enc_words(ws),
        forall|j: int| 0 <= j < ws.len() ==> #[trigger] ws[j].len() <= MAX_COUNT,
    ensures
        parse_words(b, c, ws.len()) == Some((ws, c + enc_words(ws).len())),
    decreases ws.len(),
{
    if ws.len() > 0 {
        let w = ws[0];
        let k = w.len() as u32;
        let rest = ws.drop_first();
        let e = enc_words(ws);
        let er = enc_words(rest);
        assert(e == le_bytes(k) + w + er);
        let c2 = c + 4 + k;
        assert(b.subrange(c, c + 4) =~= e.subrange(0, 4));
        assert(e.subrange(0, 4) =~= le_bytes(k));
        lemma_read_le(b, c, k);
        assert(b.subrange(c + 4, c2) =~= e.subrange(4, 4 + k as int));
        assert(e.subrange(4, 4 + k as int) =~= w);
        assert(b.subrange(c2, c2 + er.len()) =~= e.subrange(4 + k as int, e.len() as int));
        assert(e.subrange(4 + k as int, e.len() as int) =~= er);
        assert forall|j: int| 0 <= j < rest.len() implies #[trigger] rest[j].len() <= MAX_COUNT by {
            assert(rest[j] == ws[j + 1]);
        }
        lemma_parse_enc_words(b, c2, rest);
        assert(seq![w] + rest =~= ws);
    }
}

pub proof fn lemma_parse_enc_lines(b: Seq<u8>, c: int, ls: Lines)
    requires
        0 <= c,
        c + enc_lines(ls).len() <= b.len(),
        b.subrange(c, c + enc_lines(ls).len()) == enc_lines(ls),
        forall|i: int| 0 <= i < ls.len() ==> #[trigger] ls[i].len() <= MAX_COUNT,
        forall|i: int, j: int| 0 <= i < ls.len() && 0 <= j < ls[i].len() ==> #[trigger] ls[i][j].len() <= MAX_COUNT,
    ensures
        parse_lines(b, c, ls.len()) == Some((ls, c + enc_lines(ls).len())),
    decreases ls.len(),
{
    if ls.len() > 0 {
        let ws = ls[0];
        let k = ws.len() as u32;
        let rest = ls.drop_first();
        let e = enc_lines(ls);
        let ew = enc_words(ws);
        let er = enc_lines(rest);
        assert(e == le_bytes(k) + ew + er);
        assert(b.subrange(c, c + 4) =~= e.subrange(0, 4));
        assert(e.subrange(0, 4) =~= le_bytes(k));
        lemma_read_le(b, c, k);
        let c1 = c + 4;
        let c2 = c1 + ew.len();
        assert(b.subrange(c1, c2) =~= e.subrange(4, 4 + ew.len() as int));
        assert(e.subrange(4, 4 + ew.len() as int) =~= ew);
        assert forall|j: int| 0 <= j < ws.len() implies #[trigger] ws[j].len() <= MAX_COUNT by {
            assert(ls[0][j].len() <= MAX_COUNT);
        }
        lemma_parse_enc_words(b, c1, ws);
        assert(b.subrange(c2, c2 + er.len()) =~= e.subrange(4 + ew.len() as int, e.len() as int));
        assert(e.subrange(4 + ew.len() as int, e.len() as int) =~= er);
        assert forall|i: int| 0 <= i < rest.len() implies #[trigger] rest[i].len() <= MAX_COUNT by {
            assert(rest[i] == ls[i + 1]);
        }
        assert forall|i: int, j: int| 0 <= i < rest.len() && 0 <= j < rest[i].len() implies #[trigger] rest[i][j].len()
            <= MAX_COUNT by {
            assert(rest[i] == ls[i + 1]);
            assert(ls[i + 1][j].len() <= MAX_COUNT);
        }
        lemma_parse_enc_lines(b, c2, rest);
        assert(seq![ws] + rest =~= ls);
    }
}

/// Saving then loading gives back the same text, whatever follows the saved bytes,
/// when no count exceeds `MAX_COUNT`.
pub proof fn law_saved_text_loads_back(ls: Lines, extra: Seq<u8>)
    requires
        counts_small(ls),
    ensures
        decode(encode(ls) + extra) == Some(ls),
{
    let b = encode(ls) + extra;
    let n = ls.len() as u32;
    assert(b.subrange(0, 4) =~= le_bytes(n));
    lemma_read_le(b, 0, n);
    assert(b.subrange(4, 4 + enc_lines(ls).len() as int) =~= enc_lines(ls));
    lemma_parse_enc_lines(b, 4, ls);
}


pub proof fn lemma_enc_words_push(ws: Seq<Seq<u8>>, w: Seq<u8>)
    ensures
        enc_words(ws.push(w)) == enc_words(ws) + le_bytes(w.len() as u32) + w,
    decreases ws.len(),
{
    let s1 = ws.push(w);
    assert(s1[0] == if ws.len() == 0 { w } else { ws[0] });
    if ws.len() == 0 {
        assert(s1.drop_first() =~= Seq::<Seq<u8>>::empty());
        assert(enc_words(s1.drop_first()) == Seq::<u8>::empty());
        assert(enc_words(s1) == le_bytes(w.len() as u32) + w + Seq::<u8>::empty());
        assert(enc_words(ws) == Seq::<u8>::empty());
        assert(enc_words(s1) =~= enc_words(ws) + le_bytes(w.len() as u32) + w);
    } else {
        let t = ws.drop_first();
        assert(s1.drop_first() =~= t.push(w));
        lemma_enc_words_push(t, w);
        let h = le_bytes(ws[0].len() as u32) + ws[0];
        assert(enc_words(s1) == h + enc_words(t.push(w)));
        assert(enc_words(ws) == h + enc_words(t));
        assert(enc_words(s1) =~= enc_words(ws) + le_bytes(w.len() as u32) + w);
    }
}

pub proof fn lemma_enc_lines_push(ls: Lines, l: Seq<Seq<u8>>)
    ensures
        enc_lines(ls.push(l)) == enc_lines(ls) + le_bytes(l.len() as u32) + enc_words(l),
    decreases ls.len(),
{
    let s1 = ls.push(l);
    assert(s1[0] == if ls.len() == 0 { l } else { ls[0] });
    if ls.len() == 0 {
        assert(s1.drop_first() =~= Seq::<Seq<Seq<u8>>>::empty());
        assert(enc_lines(s1.drop_first()) == Seq::<u8>::empty());
        assert(enc_lines(s1) == le_bytes(l.len() as u32) + enc_words(l) + Seq::<u8>::empty());
        assert(enc_lines(ls) == Seq::<u8>::empty());
        assert(enc_lines(s1) =~= enc_lines(ls) + le_bytes(l.len() as u32) + enc_words(l));
    } else {
        let t = ls.drop_first();
        assert(s1.drop_first() =~= t.push(l));
        lemma_enc_lines_push(t, l);
        let h = le_bytes(ls[0].len() as u32) + enc_words(ls[0]);
        assert(enc_lines(s1) == h + enc_lines(t.push(l)));
        assert(enc_lines(ls) == h + enc_lines(t));
        assert(enc_lines(s1) =~= enc_lines(ls) + le_bytes(l.len() as u32) + enc_words(l));
    }
}

/// Appends the four bytes of `x`, least significant first.
fn push_le(bytes: &mut Vec<u8>, x: u32)
    ensures
        final(bytes)@ == old(bytes)@ + le_bytes(x),
{
    bytes.push((x % 256) as u8);
    bytes.push(((x / 256) % 256) as u8);
    bytes.push(((x / 65536) % 256) as u8);
    bytes.push(((x / 16777216) % 256) as u8);
    assert(bytes@ =~= old(bytes)@ + le_bytes(x));
}

/// The saved form of the memo's text (see the module's description).
pub fn serialize_lines(lines: &[Vec<Vec<u8>>]) -> (r: Vec<u8>)
    ensures
        r@ == encode(lines_view(lines@)),
{
    let ghost ls = lines_view(lines@);
    let mut bytes: Vec<u8> = Vec::new();
    push_le(&mut bytes, lines.len() as u32);
    let mut i: usize = 0;
    while i < lines.len()
        invariant
            i <= lines.len(),
            ls == lines_view(lines@),
            bytes@ == le_bytes(ls.len() as u32) + enc_lines(ls.take(i as int)),
        decreases lines.len() - i,
    {
        let line = &lines[i];
        let ghost l = ls[i as int];
        assert(l == word_views(line@));
        let ghost before = bytes@;
        push_le(&mut bytes, line.len() as u32);
        let mut j: usize = 0;
        while j < line.len()
            invariant
                j <= line.len(),
                l == word_views(line@),
                i < ls.len(),
                ls[i as int] == l,
                    bytes@ == before + le_bytes(l.len() as u32) + enc_words(l.take(j as int)),
            decreases line.len() - j,
        {
            let word = &line[j];
            assert(l[j as int] == word@);
            let ghost b2 = bytes@;
            push_le(&mut bytes, word.len() as u32);
            let mut k: usize = 0;
            while k < word.len()
                invariant
                    k <= word.len(),
                    bytes@ == b2 + le_bytes(word.len() as u32) + word@.take(k as int),
                decreases word.len() - k,
            {
                bytes.push(word[k]);
                assert(word@.take(k + 1) =~= word@.take(k as int).push(word@[k as int]));
                k += 1;
            }
            assert(word@.take(word.len() as int) =~= word@);
            proof {
                assert(l.take(j + 1) =~= l.take(j as int).push(l[j as int]));
                lemma_enc_words_push(l.take(j as int), l[j as int]);
            }
            assert(bytes@ =~= before + le_bytes(l.len() as u32) + enc_words(l.take(j + 1)));
            j += 1;
        }
        assert(l.take(line.len() as int) =~= l);
        proof {
            assert(ls.take(i + 1) =~= ls.take(i as int).push(l));
            lemma_enc_lines_push(ls.take(i as int), l);
        }
        assert(bytes@ =~= le_bytes(ls.len() as u32) + enc_lines(ls.take(i + 1)));
        i += 1;
    }
    assert(ls.take(lines.len() as int) =~= ls);
    bytes
}


/// `acc` put before the words of a parse result.
pub open spec fn after_words(acc: Seq<Seq<u8>>, r: Option<(Seq<Seq<u8>>, int)>) -> Option<(Seq<Seq<u8>>, int)> {
    match r {
        None => None,
        Some((ws, e)) => Some((acc + ws, e)),
    }
}

/// `acc` put before the lines of a parse result.
pub open spec fn after_lines(acc: Lines, r: Option<(Lines, int)>) -> Option<(Lines, int)> {
    match r {
        None => None,
        Some((ls, e)) => Some((acc + ls, e)),
    }
}

/// The count at `c`, when four bytes are there.
fn read_count(bytes: &[u8], c: usize) -> (r: Option<u32>)
    ensures
        r == read_u32(bytes@, c as int),
{
    if c <= bytes.len() && bytes.len() - c >= 4 {
        Some(bytes[c] as u32 + 256 * (bytes[c + 1] as u32) + 65536 * (bytes[c + 2] as u32) + 16777216 * (
        bytes[c + 3] as u32))
    } else {
        None
    }
}

fn copy_bytes(bytes: &[u8], c: usize, k: usize) -> (r: Vec<u8>)
    requires
        c + k <= bytes.len(),
    ensures
        r@ == bytes@.subrange(c as int, c + k),
{
    let mut r: Vec<u8> = Vec::new();
    let mut i: usize = 0;
    while i < k
        invariant
            i <= k,
            c + k <= bytes.len(),
            r@ == bytes@.subrange(c as int, c + i),
        decreases k - i,
    {
        r.push(bytes[c + i]);
        assert(bytes@.subrange(c as int, c + i + 1) =~= bytes@.subrange(c as int, c + i).push(bytes@[c + i]));
        i += 1;
    }
    r
}

/// Loads the memo's text from its saved form; `None` when the bytes do not hold
/// one (see `decode`).
pub fn deserialize_lines(bytes: &[u8]) -> (r: Option<Vec<Vec<Vec<u8>>>>)
    ensures
        match r {
            Some(v) => decode(bytes@) == Some(lines_view(v@)),
            None => decode(bytes@) is None,
        },
{
    let ghost b = bytes@;
    let num_lines = match read_count(bytes, 0) {
        Some(n) => n,
        None => return None,
    };
    if num_lines > MAX_COUNT {
        return None;
    }
    let mut cursor: usize = 4;
    let mut lines: Vec<Vec<Vec<u8>>> = Vec::new();
    let mut i: u32 = 0;
    while i < num_lines
        invariant
            i <= num_lines <= MAX_COUNT,
            b == bytes@,
            read_u32(b, 0) == Some(num_lines),
            cursor <= bytes.len(),
            parse_lines(b, 4, num_lines as nat) == after_lines(
                lines_view(lines@),
                parse_lines(b, cursor as int, (num_lines - i) as nat),
            ),
        decreases num_lines - i,
    {
        let ghost c0 = cursor as int;
        let ghost rem = (num_lines - i) as nat;
        let num_words = match read_count(bytes, cursor) {
            Some(n) => n,
            None => {
                assert(parse_lines(b, c0, rem) is None);
                return None;
            },
        };
        if num_words > MAX_COUNT {
            assert(parse_lines(b, c0, rem) is None);
            return None;
        }
        cursor = cursor + 4;
        let mut line: Vec<Vec<u8>> = Vec::new();
        let mut j: u32 = 0;
        while j < num_words
            invariant
                j <= num_words <= MAX_COUNT,
                b == bytes@,
                read_u32(b, 0) == Some(num_lines),
                num_lines <= MAX_COUNT,
                read_u32(b, c0) == Some(num_words),
                rem > 0,
                parse_lines(b, 4, num_lines as nat) == after_lines(lines_view(lines@), parse_lines(b, c0, rem)),
                cursor <= bytes.len(),
                parse_words(b, c0 + 4, num_words as nat) == after_words(
                    word_views(line@),
                    parse_words(b, cursor as int, (num_words - j) as nat),
                ),
            decreases num_words - j,
        {
            let ghost cw = cursor as int;
            let ghost wrem = (num_words - j) as nat;
            let num_chords = match read_count(bytes, cursor) {
                Some(n) => n,
                None => {
                    assert(parse_words(b, cw, wrem) is None);
                    assert(parse_lines(b, c0, rem) is None);
                    return None;
                },
            };
            if num_chords > MAX_COUNT || bytes.len() - cursor - 4 < num_chords as usize {
                assert(parse_words(b, cw, wrem) is None);
                assert(parse_lines(b, c0, rem) is None);
                return None;
            }
            let ghost ws0 = word_views(line@);
            let ghost sub = b.subrange(cw + 4, cw + 4 + num_chords);
            let word = copy_bytes(bytes, cursor + 4, num_chords as usize);
            line.push(word);
            assert(word_views(line@) =~= ws0.push(sub));
            cursor = cursor + 4 + num_chords as usize;
            proof {
                match parse_words(b, cursor as int, (wrem - 1) as nat) {
                    Some((ws, e)) => {
                        assert(parse_words(b, cw, wrem) == Some((seq![sub] + ws, e)));
                        assert(ws0 + (seq![sub] + ws) =~= ws0.push(sub) + ws);
                    },
                    None => {
                        assert(parse_words(b, cw, wrem) is None);
                    },
                }
            }
            j += 1;
        }
        let ghost lv0 = lines_view(lines@);
        let ghost lw = word_views(line@);
        assert(lw + Seq::<Seq<u8>>::empty() =~= lw);
        assert(parse_words(b, c0 + 4, num_words as nat) == Some((lw, cursor as int)));
        lines.push(line);
        assert(lines_view(lines@) =~= lv0.push(lw));
        proof {
            match parse_lines(b, cursor as int, (rem - 1) as nat) {
                Some((ls, e)) => {
                    assert(parse_lines(b, c0, rem) == Some((seq![lw] + ls, e)));
                    assert(lv0 + (seq![lw] + ls) =~= lv0.push(lw) + ls);
                },
                None => {
                    assert(parse_lines(b, c0, rem) is None);
                },
            }
        }
        i += 1;
    }
    assert(lines_view(lines@) + Seq::<Seq<Seq<u8>>>::empty() =~= lines_view(lines@));
    Some(lines)
}


/// The memo's modes: typing braille, moving the cursor, reading.
#[derive(Clone, Copy, Debug, PartialEq, Eq, Structural)]
pub enum MemoMode {
    Insert,
    Edit,
    View,
}

pub open spec fn next_memo_mode(m: MemoMode) -> MemoMode {
    match m {
        MemoMode::Insert => MemoMode::Edit,
        MemoMode::Edit => MemoMode::View,
        MemoMode::View => MemoMode::Insert,
    }
}

impl MemoMode {
    /// The mode the Function key switches to, in a cycle.
    pub fn next(&self) -> (r: Self)
        ensures
            r == next_memo_mode(*self),
    {
        match self {
            MemoMode::Insert => MemoMode::Edit,
            MemoMode::Edit => MemoMode::View,
            MemoMode::View => MemoMode::Insert,
        }
    }
}

/// Three presses of the Function key return to the mode one started in.
pub proof fn law_memo_modes_cycle(m: MemoMode)
    ensures
        next_memo_mode(next_memo_mode(next_memo_mode(m))) == m,
        next_memo_mode(m) != m,
{
}

/// The spoken names of the modes.
#[derive(Clone, Copy, Debug, PartialEq, Eq, Structural)]
pub enum ModeTtsMessage {
    Insert,
    Edit,
    View,
}

pub open spec fn mode_tts_text(m: ModeTtsMessage, lang: Language) -> Seq<char> {
    match m {
        ModeTtsMessage::Insert => match lang {
            Language::Ko => "인서트 모드"@,
            Language::En => "Insert mode"@,
            Language::Ja => "インサートモード"@,
        },
        ModeTtsMessage::Edit => match lang {
            Language::Ko => "편집 모드"@,
            Language::En => "Edit mode"@,
            Language::Ja => "編集モード"@,
        },
        ModeTtsMessage::View => match lang {
            Language::Ko => "뷰 모드"@,
            Language::En => "View mode"@,
            Language::Ja => "ビューモード"@,
        },
    }
}

impl ModeTtsMessage {
    /// The name in a language.
    pub fn text(&self, lang: Language) -> (r: &'static str)
        ensures
            r@ == mode_tts_text(*self, lang),
    {
        match self {
            ModeTtsMessage::Insert => match lang {
                Language::Ko => "인서트 모드",
                Language::En => "Insert mode",
                Language::Ja => "インサートモード",
            },
            ModeTtsMessage::Edit => match lang {
                Language::Ko => "편집 모드",
                Language::En => "Edit mode",
                Language::Ja => "編集モード",
            },
            ModeTtsMessage::View => match lang {
                Language::Ko => "뷰 모드",
                Language::En => "View mode",
                Language::Ja => "ビューモード",
            },
        }
    }
}

pub open spec fn mode_message(m: MemoMode) -> ModeTtsMessage {
    match m {
        MemoMode::Insert => ModeTtsMessage::Insert,
        MemoMode::Edit => ModeTtsMessage::Edit,
        MemoMode::View => ModeTtsMessage::View,
    }
}

/// The side of the keypad a key is on.
#[derive(Clone, Copy, Debug, PartialEq, Eq, Structural)]
pub enum KeypadSide {
    Left,
    Right,
}

/// What a key asks of the text area.
#[derive(Clone, Copy, Debug, PartialEq, Eq, Structural)]
pub enum TextCommand {
    /// The mode changed: braille typing is on only in Insert, reading only in View.
    SwitchMode(MemoMode),
    PushSpace,
    Backspace,
    PushNewline,
    MoveLeft,
    MoveRight,
    MovePrevWord,
    MoveNextWord,
    MoveUp,
    MoveDown,
    MoveLineStart,
    MoveLineEnd,
    ScrollUp,
    ScrollDown,
    ScrollPageUp,
    ScrollPageDown,
    ScrollLeft,
    ScrollRight,
    ScrollToStart,
    ScrollToEnd,
    Delete,
}

/// The memo's key state: its mode, and whether Center is held and was used as a
/// modifier since it went down.
#[derive(Clone, Copy, Debug, PartialEq, Eq, Structural)]
pub struct MemoKeys {
    pub mode: MemoMode,
    pub center_pressed: bool,
    pub center_modifier_used: bool,
}

/// A key event: Function cycles the modes. In Insert, Center types a space and
/// Down erases (left side) or breaks the line (right side). In Edit the arrows move
/// the cursor, by word or to the line's ends while Center is held, and Center
/// released without such use deletes. In View the arrows scroll, by page or to
/// the ends while Center is held.
pub open spec fn memo_key(k: MemoKeys, code: KeyCode, state: KeyState, side: KeypadSide) -> (MemoKeys, Option<TextCommand>) {
    let k1 = if code == KeyCode::Center {
        MemoKeys {
            center_pressed: state == KeyState::Pressed,
            center_modifier_used: if state == KeyState::Pressed { false } else { k.center_modifier_used },
            ..k
        }
    } else {
        k
    };
    let held = k1.center_pressed;
    let used = MemoKeys { center_modifier_used: true, ..k1 };
    if state == KeyState::Pressed {
        match (code, k1.mode) {
            (KeyCode::Function, _) => {
                let m = next_memo_mode(k1.mode);
                (MemoKeys { mode: m, ..k1 }, Some(TextCommand::SwitchMode(m)))
            },
            (KeyCode::Center, MemoMode::Insert) => (k1, Some(TextCommand::PushSpace)),
            (KeyCode::Down, MemoMode::Insert) => (
                k1,
                Some(if side == KeypadSide::Left { TextCommand::Backspace } else { TextCommand::PushNewline }),
            ),
            (KeyCode::Left, MemoMode::Edit) => if held { (used, Some(TextCommand::MovePrevWord)) } else { (k1, Some(TextCommand::MoveLeft)) },
            (KeyCode::Right, MemoMode::Edit) => if held { (used, Some(TextCommand::MoveNextWord)) } else { (k1, Some(TextCommand::MoveRight)) },
            (KeyCode::Up, MemoMode::Edit) => if held { (used, Some(TextCommand::MoveLineStart)) } else { (k1, Some(TextCommand::MoveUp)) },
            (KeyCode::Down, MemoMode::Edit) => if held { (used, Some(TextCommand::MoveLineEnd)) } else { (k1, Some(TextCommand::MoveDown)) },
            (KeyCode::Up, MemoMode::View) => if held { (used, Some(TextCommand::ScrollPageUp)) } else { (k1, Some(TextCommand::ScrollUp)) },
            (KeyCode::Down, MemoMode::View) => if held { (used, Some(TextCommand::ScrollPageDown)) } else { (k1, Some(TextCommand::ScrollDown)) },
            (KeyCode::Left, MemoMode::View) => if held { (used, Some(TextCommand::ScrollToStart)) } else { (k1, Some(TextCommand::ScrollLeft)) },
            (KeyCode::Right, MemoMode::View) => if held { (used, Some(TextCommand::ScrollToEnd)) } else { (k1, Some(TextCommand::ScrollRight)) },
            _ => (k1, None),
        }
    } else if code == KeyCode::Center && k1.mode == MemoMode::Edit && !k1.center_modifier_used {
        (k1, Some(TextCommand::Delete))
    } else {
        (k1, None)
    }
}

impl MemoKeys {
    /// The state the memo starts in: Insert mode, Center up.
    pub fn new() -> (r: Self)
        ensures
            r == (MemoKeys { mode: MemoMode::Insert, center_pressed: false, center_modifier_used: false }),
    {
        MemoKeys { mode: MemoMode::Insert, center_pressed: false, center_modifier_used: false }
    }

    /// Whether typed braille chords go into the text (only in Insert mode).
    pub fn accepts_chords(&self) -> (r: bool)
        ensures
            r == (self.mode == MemoMode::Insert),
    {
        self.mode == MemoMode::Insert
    }

    /// The spoken name of the current mode.
    pub fn speech(&self) -> (r: ModeTtsMessage)
        ensures
            r == mode_message(self.mode),
    {
        match self.mode {
            MemoMode::Insert => ModeTtsMessage::Insert,
            MemoMode::Edit => ModeTtsMessage::Edit,
            MemoMode::View => ModeTtsMessage::View,
        }
    }

    /// Handles a key event; returns what the text area must do, if anything (the
    /// screen is redrawn exactly when something is returned).
    pub fn handle_key(&mut self, code: KeyCode, state: KeyState, side: KeypadSide) -> (r: Option<TextCommand>)
        ensures
            (*final(self), r) == memo_key(*old(self), code, state, side),
    {
        if code == KeyCode::Center {
            self.center_pressed = state == KeyState::Pressed;
            if state == KeyState::Pressed {
                self.center_modifier_used = false;
            }
        }
        let held = self.center_pressed;
        match state {
            KeyState::Pressed => match code {
                KeyCode::Function => {
                    self.mode = self.mode.next();
                    Some(TextCommand::SwitchMode(self.mode))
                },
                KeyCode::Center => if self.mode == MemoMode::Insert { Some(TextCommand::PushSpace) } else { None },
                KeyCode::Down => match self.mode {
                    MemoMode::Insert => Some(if side == KeypadSide::Left { TextCommand::Backspace } else { TextCommand::PushNewline }),
                    MemoMode::Edit => self.modified(held, TextCommand::MoveLineEnd, TextCommand::MoveDown),
                    MemoMode::View => self.modified(held, TextCommand::ScrollPageDown, TextCommand::ScrollDown),
                },
                KeyCode::Left => match self.mode {
                    MemoMode::Insert => None,
                    MemoMode::Edit => self.modified(held, TextCommand::MovePrevWord, TextCommand::MoveLeft),
                    MemoMode::View => self.modified(held, TextCommand::ScrollToStart, TextCommand::ScrollLeft),
                },
                KeyCode::Right => match self.mode {
                    MemoMode::Insert => None,
                    MemoMode::Edit => self.modified(held, TextCommand::MoveNextWord, TextCommand::MoveRight),
                    MemoMode::View => self.modified(held, TextCommand::ScrollToEnd, TextCommand::ScrollRight),
                },
                KeyCode::Up => match self.mode {
                    MemoMode::Insert => None,
                    MemoMode::Edit => self.modified(held, TextCommand::MoveLineStart, TextCommand::MoveUp),
                    MemoMode::View => self.modified(held, TextCommand::ScrollPageUp, TextCommand::ScrollUp),
                },
                _ => None,
            },
            KeyState::Released => {
                if code == KeyCode::Center && self.mode == MemoMode::Edit && !self.center_modifier_used {
                    Some(TextCommand::Delete)
                } else {
                    None
                }
            },
        }
    }

    /// `with_center` (marking Center as used) while Center is held, else `plain`.
    fn modified(&mut self, held: bool, with_center: TextCommand, plain: TextCommand) -> (r: Option<TextCommand>)
        ensures
            held ==> *final(self) == (MemoKeys { center_modifier_used: true, ..*old(self) }) && r == Some(with_center),
            !held ==> *final(self) == *old(self) && r == Some(plain),
    {
        if held {
            self.center_modifier_used = true;
            Some(with_center)
        } else {
            Some(plain)
        }
    }
}

/// Where the cursor goes after a text is loaded: the last line, its last word, and
/// the end of that word (no position in the word when the last line is empty).
pub fn end_cursor(lines: &Vec<Vec<Vec<u8>>>) -> (r: (usize, usize, Option<usize>))
    ensures
        r.0 == if lines.len() == 0 { 0 } else { lines.len() - 1 },
        lines.len() == 0 ==> r.1 == 0 && r.2 is None,
        lines.len() > 0 ==> {
            let last = lines@[lines.len() - 1]@;
            &&& r.1 == if last.len() == 0 { 0 } else { last.len() - 1 }
            &&& r.2 == if last.len() == 0 { None } else { Some(last[last.len() - 1]@.len() as usize) }
        },
{
    if lines.len() == 0 {
        return (0, 0, None);
    }
    let last = &lines[lines.len() - 1];
    let w = if last.len() == 0 { 0 } else { last.len() - 1 };
    let c = if last.len() == 0 { None } else { Some(last[last.len() - 1].len()) };
    (lines.len() - 1, w, c)
}

} // verus!
