//! Braille text in BRF (ASCII braille) and as lines of words of cells.
//!
//! A cell is a byte whose six low bits are the dots. A text area holds lines,
//! each a sequence of words, each a sequence of cells.
use vstd::prelude::*;
use crate::input::KeyCode;
use crate::memo::TextCommand;
use crate::text::{trim, trim_bounds, chars_of, string_from_chars};

verus! {

broadcast use vstd::string::group_string_axioms;

/// The BRF character of a cell's six dots.
pub open spec fn brf_of_cell(cell: u8) -> char {
    match cell & 0x3fu8 {
        0b000000 => ' ',
        0b000001 => 'A',
        0b000010 => '1',
        0b000011 => 'B',
        0b000100 => '\'',
        0b000101 => 'K',
        0b000110 => '2',
        0b000111 => 'L',
        0b001000 => '@',
        0b001001 => 'C',
        0b001010 => 'I',
        0b001011 => 'F',
        0b001100 => '/',
        0b001101 => 'M',
        0b001110 => 'S',
        0b001111 => 'P',
        0b010000 => '"',
        0b010001 => 'E',
        0b010010 => '3',
        0b010011 => 'H',
        0b010100 => '9',
        0b010101 => 'O',
        0b010110 => '6',
        0b010111 => 'R',
        0b011000 => '^',
        0b011001 => 'D',
        0b011010 => 'J',
        0b011011 => 'G',
        0b011100 => '>',
        0b011101 => 'N',
        0b011110 => 'T',
        0b011111 => 'Q',
        0b100000 => ',',
        0b100001 => '*',
        0b100010 => '5',
        0b100011 => '<',
        0b100100 => '-',
        0b100101 => 'U',
        0b100110 => '8',
        0b100111 => 'V',
        0b101000 => '.',
        0b101001 => '%',
        0b101010 => '[',
        0b101011 => '$',
        0b101100 => '+',
        0b101101 => 'X',
        0b101110 => '!',
        0b101111 => '&',
        0b110000 => ';',
        0b110001 => ':',
        0b110010 => '4',
        0b110011 => '\\',
        0b110100 => '0',
        0b110101 => 'Z',
        0b110110 => '7',
        0b110111 => '(',
        0b111000 => '_',
        0b111001 => '?',
        0b111010 => 'W',
        0b111011 => ']',
        0b111100 => '#',
        0b111101 => 'Y',
        0b111110 => ')',
        0b111111 => '=',
        _ => ' ',
    }
}

/// The cell a BRF character stands for (letters in either case); characters
/// outside BRF give the empty cell.
pub open spec fn cell_of_brf(c: char) -> u8 {
    match c {
        ' ' => 0b000000,
        'A' | 'a' => 0b000001,
        '1' => 0b000010,
        'B' | 'b' => 0b000011,
        '\'' => 0b000100,
        'K' | 'k' => 0b000101,
        '2' => 0b000110,
        'L' | 'l' => 0b000111,
        '@' => 0b001000,
        'C' | 'c' => 0b001001,
        'I' | 'i' => 0b001010,
        'F' | 'f' => 0b001011,
        '/' => 0b001100,
        'M' | 'm' => 0b001101,
        'S' | 's' => 0b001110,
        'P' | 'p' => 0b001111,
        '"' => 0b010000,
        'E' | 'e' => 0b010001,
        '3' => 0b010010,
        'H' | 'h' => 0b010011,
        '9' => 0b010100,
        'O' | 'o' => 0b010101,
        '6' => 0b010110,
        'R' | 'r' => 0b010111,
        '^' => 0b011000,
        'D' | 'd' => 0b011001,
        'J' | 'j' => 0b011010,
        'G' | 'g' => 0b011011,
        '>' => 0b011100,
        'N' | 'n' => 0b011101,
        'T' | 't' => 0b011110,
        'Q' | 'q' => 0b011111,
        ',' => 0b100000,
        '*' => 0b100001,
        '5' => 0b100010,
        '<' => 0b100011,
        '-' => 0b100100,
        'U' | 'u' => 0b100101,
        '8' => 0b100110,
        'V' | 'v' => 0b100111,
        '.' => 0b101000,
        '%' => 0b101001,
        '[' => 0b101010,
        '$' => 0b101011,
        '+' => 0b101100,
        'X' | 'x' => 0b101101,
        '!' => 0b101110,
        '&' => 0b101111,
        ';' => 0b110000,
        ':' => 0b110001,
        '4' => 0b110010,
        '\\' => 0b110011,
        '0' => 0b110100,
        'Z' | 'z' => 0b110101,
        '7' => 0b110110,
        '(' => 0b110111,
        '_' => 0b111000,
        '?' => 0b111001,
        'W' | 'w' => 0b111010,
        ']' => 0b111011,
        '#' => 0b111100,
        'Y' | 'y' => 0b111101,
        ')' => 0b111110,
        '=' => 0b111111,
        _ => 0b000000,
    }
}

/// Converts a cell (its six low bits) to its BRF character.
pub fn cell_to_brf_char(cell: u8) -> (r: char)
    ensures
        r == brf_of_cell(cell),
{
    match cell & 0b111111 {
        0b000000 => ' ',
        0b000001 => 'A',
        0b000010 => '1',
        0b000011 => 'B',
        0b000100 => '\'',
        0b000101 => 'K',
        0b000110 => '2',
        0b000111 => 'L',
        0b001000 => '@',
        0b001001 => 'C',
        0b001010 => 'I',
        0b001011 => 'F',
        0b001100 => '/',
        0b001101 => 'M',
        0b001110 => 'S',
        0b001111 => 'P',
        0b010000 => '"',
        0b010001 => 'E',
        0b010010 => '3',
        0b010011 => 'H',
        0b010100 => '9',
        0b010101 => 'O',
        0b010110 => '6',
        0b010111 => 'R',
        0b011000 => '^',
        0b011001 => 'D',
        0b011010 => 'J',
        0b011011 => 'G',
        0b011100 => '>',
        0b011101 => 'N',
        0b011110 => 'T',
        0b011111 => 'Q',
        0b100000 => ',',
        0b100001 => '*',
        0b100010 => '5',
        0b100011 => '<',
        0b100100 => '-',
        0b100101 => 'U',
        0b100110 => '8',
        0b100111 => 'V',
        0b101000 => '.',
        0b101001 => '%',
        0b101010 => '[',
        0b101011 => '$',
        0b101100 => '+',
        0b101101 => 'X',
        0b101110 => '!',
        0b101111 => '&',
        0b110000 => ';',
        0b110001 => ':',
        0b110010 => '4',
        0b110011 => '\\',
        0b110100 => '0',
        0b110101 => 'Z',
        0b110110 => '7',
        0b110111 => '(',
        0b111000 => '_',
        0b111001 => '?',
        0b111010 => 'W',
        0b111011 => ']',
        0b111100 => '#',
        0b111101 => 'Y',
        0b111110 => ')',
        0b111111 => '=',
        _ => ' ',
    }
}

/// Converts a BRF character to its cell.
pub fn brf_char_to_cell(c: char) -> (r: u8)
    ensures
        r == cell_of_brf(c),
{
    match c {
        ' ' => 0b000000,
        'A' | 'a' => 0b000001,
        '1' => 0b000010,
        'B' | 'b' => 0b000011,
        '\'' => 0b000100,
        'K' | 'k' => 0b000101,
        '2' => 0b000110,
        'L' | 'l' => 0b000111,
        '@' => 0b001000,
        'C' | 'c' => 0b001001,
        'I' | 'i' => 0b001010,
        'F' | 'f' => 0b001011,
        '/' => 0b001100,
        'M' | 'm' => 0b001101,
        'S' | 's' => 0b001110,
        'P' | 'p' => 0b001111,
        '"' => 0b010000,
        'E' | 'e' => 0b010001,
        '3' => 0b010010,
        'H' | 'h' => 0b010011,
        '9' => 0b010100,
        'O' | 'o' => 0b010101,
        '6' => 0b010110,
        'R' | 'r' => 0b010111,
        '^' => 0b011000,
        'D' | 'd' => 0b011001,
        'J' | 'j' => 0b011010,
        'G' | 'g' => 0b011011,
        '>' => 0b011100,
        'N' | 'n' => 0b011101,
        'T' | 't' => 0b011110,
        'Q' | 'q' => 0b011111,
        ',' => 0b100000,
        '*' => 0b100001,
        '5' => 0b100010,
        '<' => 0b100011,
        '-' => 0b100100,
        'U' | 'u' => 0b100101,
        '8' => 0b100110,
        'V' | 'v' => 0b100111,
        '.' => 0b101000,
        '%' => 0b101001,
        '[' => 0b101010,
        '$' => 0b101011,
        '+' => 0b101100,
        'X' | 'x' => 0b101101,
        '!' => 0b101110,
        '&' => 0b101111,
        ';' => 0b110000,
        ':' => 0b110001,
        '4' => 0b110010,
        '\\' => 0b110011,
        '0' => 0b110100,
        'Z' | 'z' => 0b110101,
        '7' => 0b110110,
        '(' => 0b110111,
        '_' => 0b111000,
        '?' => 0b111001,
        'W' | 'w' => 0b111010,
        ']' => 0b111011,
        '#' => 0b111100,
        'Y' | 'y' => 0b111101,
        ')' => 0b111110,
        '=' => 0b111111,
        _ => 0b000000,
    }
}

/// Reading back the BRF character of a cell gives the cell's six dots: each of
/// the 64 cells has a character of its own.
pub proof fn law_brf_roundtrip(cell: u8)
    ensures
        cell_of_brf(brf_of_cell(cell)) == cell & 0x3fu8,
{
    assert(cell & 0x3fu8 < 64) by (bit_vector);
    assert((cell & 0x3fu8) & 0x3fu8 == cell & 0x3fu8) by (bit_vector);
}

/// Two cells with different dots get different BRF characters, and only the six
/// low bits of a cell count.
pub proof fn law_brf_one_char_per_cell(a: u8, b: u8)
    ensures
        a & 0x3fu8 != b & 0x3fu8 ==> brf_of_cell(a) != brf_of_cell(b),
        brf_of_cell(a) == brf_of_cell(a & 0x3fu8),
{
    law_brf_roundtrip(a);
    law_brf_roundtrip(b);
    assert((a & 0x3fu8) & 0x3fu8 == a & 0x3fu8) by (bit_vector);
}

/// The bit of braille dot `k` (1 to 6) in a cell.
pub open spec fn dot(k: int) -> int {
    if k == 1 { 1 } else if k == 2 { 2 } else if k == 3 { 4 } else if k == 4 { 8 } else if k == 5 { 16 } else { 32 }
}

/// The first ten letters of braille, a to j, all in the top two rows.
pub open spec fn top_letter(i: int) -> int {
    if i == 0 { dot(1) }
    else if i == 1 { dot(1) + dot(2) }
    else if i == 2 { dot(1) + dot(4) }
    else if i == 3 { dot(1) + dot(4) + dot(5) }
    else if i == 4 { dot(1) + dot(5) }
    else if i == 5 { dot(1) + dot(2) + dot(4) }
    else if i == 6 { dot(1) + dot(2) + dot(4) + dot(5) }
    else if i == 7 { dot(1) + dot(2) + dot(5) }
    else if i == 8 { dot(2) + dot(4) }
    else { dot(2) + dot(4) + dot(5) }
}

/// The cell of the `i`-th letter of the alphabet by braille's rule: k to t add
/// dot 3 to a to j; u, v, x, y and z add dots 3 and 6 to a to e; w is dots 2, 4,
/// 5 and 6.
pub open spec fn letter_cell(i: int) -> u8 {
    (if i < 10 { top_letter(i) }
    else if i < 20 { top_letter(i - 10) + dot(3) }
    else if i == 22 { dot(2) + dot(4) + dot(5) + dot(6) }
    else if i < 22 { top_letter(i - 20) + dot(3) + dot(6) }
    else { top_letter(i - 21) + dot(3) + dot(6) }) as u8
}

pub open spec fn upper_letters() -> Seq<char> {
    seq!['A', 'B', 'C', 'D', 'E', 'F', 'G', 'H', 'I', 'J', 'K', 'L', 'M', 'N', 'O', 'P', 'Q', 'R', 'S', 'T', 'U', 'V', 'W', 'X', 'Y', 'Z']
}

pub open spec fn lower_letters() -> Seq<char> {
    seq!['a', 'b', 'c', 'd', 'e', 'f', 'g', 'h', 'i', 'j', 'k', 'l', 'm', 'n', 'o', 'p', 'q', 'r', 's', 't', 'u', 'v', 'w', 'x', 'y', 'z']
}

/// The digits 1 to 9 and 0 in BRF order.
pub open spec fn digit_chars() -> Seq<char> {
    seq!['1', '2', '3', '4', '5', '6', '7', '8', '9', '0']
}

proof fn lemma_low_cell(x: u8)
    requires
        x < 64,
    ensures
        x & 0x3fu8 == x,
{
    assert(x < 64 ==> x & 0x3fu8 == x) by (bit_vector);
}

/// BRF is ASCII braille: each letter is written as its capital (and read in
/// either case) for the cell braille gives it, and the digits 1 to 9 and 0 are
/// the cells of a to j moved down one row.
pub proof fn law_brf_is_ascii_braille(i: int)
    requires
        0 <= i < 26,
    ensures
        brf_of_cell(letter_cell(i)) == upper_letters()[i],
        cell_of_brf(upper_letters()[i]) == letter_cell(i),
        cell_of_brf(lower_letters()[i]) == letter_cell(i),
        i < 10 ==> brf_of_cell((2 * top_letter(i)) as u8) == digit_chars()[i],
        i < 10 ==> cell_of_brf(digit_chars()[i]) == 2 * top_letter(i),
{
    lemma_low_cell(letter_cell(i));
    if i < 10 {
        lemma_low_cell((2 * top_letter(i)) as u8);
    }
}

/// The maximal runs of elements other than `sep`, in order.
pub open spec fn words_of<A>(s: Seq<A>, sep: A) -> Seq<Seq<A>>
    decreases s.len(),
{
    if s.len() == 0 {
        Seq::empty()
    } else {
        let w = words_of(s.drop_last(), sep);
        if s.last() == sep {
            w
        } else if s.len() >= 2 && s[s.len() - 2] != sep {
            w.update(w.len() - 1, w.last().push(s.last()))
        } else {
            w.push(seq![s.last()])
        }
    }
}

/// The pieces of `s` between the separators `sep` (`str::split`): one more piece
/// than there are separators, empty pieces included.
pub open spec fn split_on<A>(s: Seq<A>, sep: A) -> Seq<Seq<A>>
    decreases s.len(),
{
    if s.len() == 0 {
        seq![Seq::empty()]
    } else {
        let p = split_on(s.drop_last(), sep);
        if s.last() == sep {
            p.push(Seq::empty())
        } else {
            p.update(p.len() - 1, p.last().push(s.last()))
        }
    }
}

/// A line without the carriage return that ended it, if any.
pub open spec fn strip_cr(l: Seq<char>) -> Seq<char> {
    if l.len() > 0 && l.last() == '\r' {
        l.drop_last()
    } else {
        l
    }
}

/// The lines of a text as `str::lines` gives them: split at each `'\n'`, a `'\r'`
/// before the `'\n'` dropped, and no empty line after a final `'\n'`.
pub open spec fn lines_of(s: Seq<char>) -> Seq<Seq<char>> {
    let p = split_on(s, '\n');
    Seq::new((p.len() - 1) as nat, |i: int| strip_cr(p[i])) + if p.last().len() == 0 {
        Seq::empty()
    } else {
        seq![p.last()]
    }
}

pub proof fn lemma_split_on_len<A>(s: Seq<A>, sep: A)
    ensures
        split_on(s, sep).len() >= 1,
    decreases s.len(),
{
    if s.len() > 0 {
        lemma_split_on_len(s.drop_last(), sep);
    }
}

/// No piece of a split is longer than what was split, and there is at most one
/// piece more than it has elements.
pub proof fn lemma_split_on_bounded<A>(s: Seq<A>, sep: A)
    ensures
        split_on(s, sep).len() <= s.len() + 1,
        forall|i: int| 0 <= i < split_on(s, sep).len() ==> #[trigger] split_on(s, sep)[i].len() <= s.len(),
    decreases s.len(),
{
    if s.len() > 0 {
        lemma_split_on_bounded(s.drop_last(), sep);
        lemma_split_on_len(s.drop_last(), sep);
    }
}

/// A text has at most one line more than characters, and no line longer than it.
pub proof fn lemma_lines_bounded(s: Seq<char>)
    ensures
        lines_of(s).len() <= s.len() + 1,
        forall|i: int| 0 <= i < lines_of(s).len() ==> #[trigger] lines_of(s)[i].len() <= s.len(),
{
    lemma_split_on_bounded(s, '\n');
    lemma_split_on_len(s, '\n');
    let p = split_on(s, '\n');
    assert forall|i: int| 0 <= i < lines_of(s).len() implies #[trigger] lines_of(s)[i].len() <= s.len() by {
        if i < p.len() - 1 {
            assert(lines_of(s)[i] == strip_cr(p[i]));
        } else {
            assert(lines_of(s)[i] == p.last());
        }
    }
}

/// Splits characters at `'\n'` (`str::split`).
fn split_chars(v: &Vec<char>, sep: char) -> (r: (Vec<Vec<char>>, Vec<char>))
    ensures
        views(r.0@).push(r.1@) == split_on(v@, sep),
{
    let mut done: Vec<Vec<char>> = Vec::new();
    let mut cur: Vec<char> = Vec::new();
    let mut i: usize = 0;
    while i < v.len()
        invariant
            i <= v.len(),
            views(done@).push(cur@) == split_on(v@.take(i as int), sep),
        decreases v.len() - i,
    {
        let c = v[i];
        proof {
            assert(v@.take(i + 1).drop_last() =~= v@.take(i as int));
            lemma_split_on_len(v@.take(i as int), sep);
        }
        if c == sep {
            let ghost dv = views(done@);
            done.push(cur);
            cur = Vec::new();
            assert(views(done@) =~= dv.push(split_on(v@.take(i as int), sep).last()));
            assert(views(done@).push(cur@) =~= split_on(v@.take(i + 1), sep));
        } else {
            cur.push(c);
            assert(views(done@).push(cur@) =~= split_on(v@.take(i + 1), sep));
        }
        i += 1;
    }
    assert(v@.take(v.len() as int) =~= v@);
    (done, cur)
}

pub open spec fn views<A>(v: Seq<Vec<A>>) -> Seq<Seq<A>> {
    v.map_values(|x: Vec<A>| x@)
}

/// The lines of a text (`str::lines`).
pub fn lines_chars(text: &str) -> (r: Vec<Vec<char>>)
    ensures
        views(r@) == lines_of(text@),
{
    let chars = crate::text::chars_of(text);
    let (pieces, last) = split_chars(&chars, '\n');
    let ghost p = split_on(text@, '\n');
    let mut out: Vec<Vec<char>> = Vec::new();
    let mut i: usize = 0;
    while i < pieces.len()
        invariant
            i <= pieces.len(),
            views(pieces@).push(last@) == p,
            views(out@) == Seq::new(i as nat, |k: int| strip_cr(p[k])),
        decreases pieces.len() - i,
    {
        let piece = &pieces[i];
        assert(piece@ == p[i as int]);
        let mut line: Vec<char> = Vec::new();
        let n = if piece.len() > 0 && piece[piece.len() - 1] == '\r' { piece.len() - 1 } else { piece.len() };
        let mut j: usize = 0;
        while j < n
            invariant
                j <= n <= piece.len(),
                line@ == piece@.take(j as int),
            decreases n - j,
        {
            line.push(piece[j]);
            assert(piece@.take(j + 1) =~= piece@.take(j as int).push(piece@[j as int]));
            j += 1;
        }
        assert(line@ =~= strip_cr(piece@));
        let ghost ov = views(out@);
        out.push(line);
        assert(views(out@) =~= ov.push(strip_cr(p[i as int])));
        assert(views(out@) =~= Seq::new((i + 1) as nat, |k: int| strip_cr(p[k])));
        i += 1;
    }
    let ghost front = views(out@);
    if last.len() > 0 {
        out.push(last);
        assert(views(out@) =~= front + seq![p.last()]);
    } else {
        assert(views(out@) =~= front + Seq::<Seq<char>>::empty());
    }
    out
}


/// The cells of a BRF word.
pub open spec fn brf_cells(w: Seq<char>) -> Seq<u8> {
    w.map_values(|c: char| cell_of_brf(c))
}

/// The words of a BRF line, as cells; a line without words is one empty word.
pub open spec fn brf_line(l: Seq<char>) -> Seq<Seq<u8>> {
    let ws = words_of(l, ' ');
    if ws.len() == 0 {
        seq![Seq::empty()]
    } else {
        ws.map_values(|w: Seq<char>| brf_cells(w))
    }
}

/// The text area lines of a BRF text; a text without lines is one empty line.
pub open spec fn parse_brf(s: Seq<char>) -> Seq<Seq<Seq<u8>>> {
    let ls = lines_of(s);
    if ls.len() == 0 {
        seq![seq![Seq::empty()]]
    } else {
        ls.map_values(|l: Seq<char>| brf_line(l))
    }
}

pub open spec fn deep_views(v: Seq<Vec<Vec<u8>>>) -> Seq<Seq<Seq<u8>>> {
    v.map_values(|l: Vec<Vec<u8>>| views(l@))
}

/// The words of one BRF line, as cells.
fn brf_line_exec(v: &Vec<char>) -> (r: Vec<Vec<u8>>)
    ensures
        views(r@) == brf_line(v@),
{
    let mut done: Vec<Vec<u8>> = Vec::new();
    let mut cur: Vec<u8> = Vec::new();
    let ghost mut done_c: Seq<Seq<char>> = Seq::empty();
    let ghost mut cur_c: Seq<char> = Seq::empty();
    let mut i: usize = 0;
    while i < v.len()
        invariant
            i <= v.len(),
            words_of(v@.take(i as int), ' ') == if cur_c.len() > 0 { done_c.push(cur_c) } else { done_c },
            cur_c.len() > 0 <==> (i > 0 && v@[i - 1] != ' '),
            views(done@) == done_c.map_values(|w: Seq<char>| brf_cells(w)),
            cur@ == brf_cells(cur_c),
        decreases v.len() - i,
    {
        let c = v[i];
        let ghost s1 = v@.take(i + 1);
        assert(s1.drop_last() =~= v@.take(i as int));
        assert(s1.last() == c);
        let ghost od = done_c;
        let ghost oc = cur_c;
        proof {
            if i > 0 {
                assert(s1[i - 1] == v@[i - 1]);
            }
        }
        if c == ' ' {
            if cur.len() > 0 {
                let ghost dv = views(done@);
                done.push(cur);
                cur = Vec::new();
                proof {
                    done_c = done_c.push(cur_c);
                    cur_c = Seq::empty();
                }
                assert(views(done@) =~= dv.push(brf_cells(oc)));
                assert(views(done@) =~= done_c.map_values(|w: Seq<char>| brf_cells(w)));
            }
            assert(cur@ =~= brf_cells(cur_c));
        } else {
            cur.push(brf_char_to_cell(c));
            proof {
                cur_c = cur_c.push(c);
            }
            assert(cur@ =~= brf_cells(cur_c));
            proof {
                if oc.len() > 0 {
                    let w = words_of(s1.drop_last(), ' ');
                    assert(w == od.push(oc));
                    assert(words_of(s1, ' ') == w.update(w.len() - 1, w.last().push(c)));
                    assert(words_of(s1, ' ') =~= done_c.push(cur_c));
                } else {
                    assert(words_of(s1, ' ') == od.push(seq![c]));
                    assert(cur_c =~= seq![c]);
                    assert(words_of(s1, ' ') =~= done_c.push(cur_c));
                }
            }
        }
        i += 1;
    }
    assert(v@.take(v.len() as int) =~= v@);
    if cur.len() > 0 {
        let ghost dv = views(done@);
        let ghost oc = cur_c;
        done.push(cur);
        proof {
            done_c = done_c.push(cur_c);
        }
        assert(views(done@) =~= dv.push(brf_cells(oc)));
    }
    assert(views(done@) =~= done_c.map_values(|w: Seq<char>| brf_cells(w)));
    if done.len() == 0 {
        done.push(Vec::new());
        assert(views(done@) =~= seq![Seq::<u8>::empty()]);
    }
    done
}

/// Parses a BRF text into text area lines: one line per line of the text, the
/// words of each line split at spaces, each character read as its cell.
pub fn parse_brf_to_lines(brf: &str) -> (r: Vec<Vec<Vec<u8>>>)
    ensures
        deep_views(r@) == parse_brf(brf@),
{
    let ls = lines_chars(brf);
    let mut out: Vec<Vec<Vec<u8>>> = Vec::new();
    let mut i: usize = 0;
    while i < ls.len()
        invariant
            i <= ls.len(),
            views(ls@) == lines_of(brf@),
            deep_views(out@) == Seq::new(i as nat, |k: int| brf_line(lines_of(brf@)[k])),
        decreases ls.len() - i,
    {
        assert(ls@[i as int]@ == lines_of(brf@)[i as int]);
        let line = brf_line_exec(&ls[i]);
        let ghost before = deep_views(out@);
        out.push(line);
        assert(deep_views(out@) =~= before.push(brf_line(lines_of(brf@)[i as int])));
        assert(deep_views(out@) =~= Seq::new((i + 1) as nat, |k: int| brf_line(lines_of(brf@)[k])));
        i += 1;
    }
    if out.len() == 0 {
        let mut l: Vec<Vec<u8>> = Vec::new();
        l.push(Vec::new());
        assert(views(l@) =~= seq![Seq::<u8>::empty()]);
        out.push(l);
        assert(deep_views(out@) =~= seq![seq![Seq::<u8>::empty()]]);
    } else {
        assert(deep_views(out@) =~= lines_of(brf@).map_values(|l: Seq<char>| brf_line(l)));
    }
    out
}


/// The BRF characters of a line of cells.
pub open spec fn brf_text(cells: Seq<u8>) -> Seq<char> {
    cells.map_values(|c: u8| brf_of_cell(c))
}

/// Lines of cells written in BRF, joined by `'\n'`.
pub open spec fn brf_join(ls: Seq<Seq<u8>>) -> Seq<char>
    decreases ls.len(),
{
    if ls.len() == 0 {
        Seq::empty()
    } else if ls.len() == 1 {
        brf_text(ls[0])
    } else {
        brf_join(ls.drop_last()) + seq!['\n'] + brf_text(ls.last())
    }
}

/// Writes lines of cells (the braille of a text's lines) as a BRF text.
pub fn text_to_brf(cell_lines: &Vec<Vec<u8>>) -> (r: String)
    ensures
        r@ == brf_join(views(cell_lines@)),
{
    let mut out: Vec<char> = Vec::new();
    let mut i: usize = 0;
    while i < cell_lines.len()
        invariant
            i <= cell_lines.len(),
            out@ == brf_join(views(cell_lines@).take(i as int)),
        decreases cell_lines.len() - i,
    {
        let ghost before = out@;
        let line = &cell_lines[i];
        if i > 0 {
            out.push('\n');
        }
        let mut j: usize = 0;
        while j < line.len()
            invariant
                j <= line.len(),
                out@ == (if i > 0 { before + seq!['\n'] } else { before }) + brf_text(line@.take(j as int)),
            decreases line.len() - j,
        {
            out.push(cell_to_brf_char(line[j]));
            assert(brf_text(line@.take(j + 1)) =~= brf_text(line@.take(j as int)).push(brf_of_cell(line@[j as int])));
            j += 1;
        }
        assert(line@.take(line.len() as int) =~= line@);
        let ghost t = views(cell_lines@).take(i + 1);
        assert(t.drop_last() =~= views(cell_lines@).take(i as int));
        if i == 0 {
            assert(before =~= Seq::<char>::empty());
            assert(out@ =~= brf_join(t));
        } else {
            assert(out@ =~= brf_join(t));
        }
        i += 1;
    }
    assert(views(cell_lines@).take(cell_lines.len() as int) =~= views(cell_lines@));
    string_from_chars(&out)
}

/// Splits a line of cells into its words, at the cell `space`.
pub fn cell_words(v: &Vec<u8>, space: u8) -> (r: Vec<Vec<u8>>)
    ensures
        views(r@) == words_of(v@, space),
{
    let mut done: Vec<Vec<u8>> = Vec::new();
    let mut cur: Vec<u8> = Vec::new();
    let mut i: usize = 0;
    while i < v.len()
        invariant
            i <= v.len(),
            words_of(v@.take(i as int), space) == if cur@.len() > 0 { views(done@).push(cur@) } else { views(done@) },
            cur@.len() > 0 <==> (i > 0 && v@[i - 1] != space),
        decreases v.len() - i,
    {
        let c = v[i];
        let ghost s1 = v@.take(i + 1);
        assert(s1.drop_last() =~= v@.take(i as int));
        assert(s1.last() == c);
        let ghost od = views(done@);
        let ghost oc = cur@;
        proof {
            if i > 0 {
                assert(s1[i - 1] == v@[i - 1]);
            }
        }
        if c == space {
            if cur.len() > 0 {
                done.push(cur);
                cur = Vec::new();
                assert(views(done@) =~= od.push(oc));
            }
        } else {
            cur.push(c);
            proof {
                if oc.len() > 0 {
                    let w = words_of(s1.drop_last(), space);
                    assert(words_of(s1, space) == w.update(w.len() - 1, w.last().push(c)));
                    assert(words_of(s1, space) =~= views(done@).push(cur@));
                } else {
                    assert(words_of(s1, space) == od.push(seq![c]));
                    assert(cur@ =~= seq![c]);
                }
            }
        }
        i += 1;
    }
    assert(v@.take(v.len() as int) =~= v@);
    if cur.len() > 0 {
        let ghost od = views(done@);
        let ghost oc = cur@;
        done.push(cur);
        assert(views(done@) =~= od.push(oc));
    }
    done
}

/// Text area lines of a text given as the braille cells of its lines: the words
/// of each line split at the cell `space`, a line without words being one empty
/// word, and a text without lines one empty line.
pub open spec fn braille_lines(ls: Seq<Seq<u8>>, space: u8) -> Seq<Seq<Seq<u8>>> {
    if ls.len() == 0 {
        seq![seq![Seq::empty()]]
    } else {
        ls.map_values(|l: Seq<u8>| braille_line(l, space))
    }
}

/// The words of a line of cells; a line without words is one empty word.
pub open spec fn braille_line(l: Seq<u8>, space: u8) -> Seq<Seq<u8>> {
    if words_of(l, space).len() == 0 {
        seq![Seq::empty()]
    } else {
        words_of(l, space)
    }
}

/// Builds text area lines from the braille cells of a text's lines.
pub fn text_to_braille_lines(cell_lines: &Vec<Vec<u8>>, space: u8) -> (r: Vec<Vec<Vec<u8>>>)
    ensures
        deep_views(r@) == braille_lines(views(cell_lines@), space),
{
    let mut out: Vec<Vec<Vec<u8>>> = Vec::new();
    let mut i: usize = 0;
    while i < cell_lines.len()
        invariant
            i <= cell_lines.len(),
            deep_views(out@) == Seq::new(i as nat, |k: int| braille_line(cell_lines@[k]@, space)),
        decreases cell_lines.len() - i,
    {
        let mut ws = cell_words(&cell_lines[i], space);
        if ws.len() == 0 {
            ws.push(Vec::new());
            assert(views(ws@) =~= seq![Seq::<u8>::empty()]);
        }
        assert(views(ws@) == braille_line(cell_lines@[i as int]@, space));
        let ghost before = deep_views(out@);
        out.push(ws);
        assert(deep_views(out@) =~= before.push(braille_line(cell_lines@[i as int]@, space)));
        assert(deep_views(out@) =~= Seq::new((i + 1) as nat, |k: int| braille_line(cell_lines@[k]@, space)));
        i += 1;
    }
    if out.len() == 0 {
        let mut l: Vec<Vec<u8>> = Vec::new();
        l.push(Vec::new());
        assert(views(l@) =~= seq![Seq::<u8>::empty()]);
        out.push(l);
        assert(deep_views(out@) =~= seq![seq![Seq::<u8>::empty()]]);
    } else {
        assert(deep_views(out@) =~= views(cell_lines@).map_values(|l: Seq<u8>| braille_line(l, space)));
    }
    out
}

/// The lines of a text as strings (`str::lines`).
pub fn text_lines(text: &str) -> (r: Vec<String>)
    ensures
        r@.map_values(|s: String| s@) == lines_of(text@),
{
    let ls = lines_chars(text);
    let mut out: Vec<String> = Vec::new();
    let mut i: usize = 0;
    while i < ls.len()
        invariant
            i <= ls.len(),
            views(ls@) == lines_of(text@),
            out@.map_values(|s: String| s@) == views(ls@).take(i as int),
        decreases ls.len() - i,
    {
        let ghost before = out@.map_values(|s: String| s@);
        out.push(string_from_chars(&ls[i]));
        assert(out@.map_values(|s: String| s@) =~= before.push(ls@[i as int]@));
        assert(views(ls@).take(i + 1) =~= views(ls@).take(i as int).push(ls@[i as int]@));
        i += 1;
    }
    assert(views(ls@).take(ls.len() as int) =~= views(ls@));
    out
}


/// The line at `idx`, "빈 줄" (empty line) for an empty one, nothing past the end.
pub open spec fn reader_speech(lines: Seq<Seq<char>>, idx: int) -> Option<Seq<char>> {
    if 0 <= idx < lines.len() {
        Some(if lines[idx].len() == 0 { "빈 줄"@ } else { lines[idx] })
    } else {
        None
    }
}

/// A text read aloud line by line while its braille scrolls.
pub struct LineReader {
    /// The text's lines, without surrounding whitespace.
    pub lines: Vec<String>,
    pub current_line_idx: usize,
}

pub open spec fn trimmed_lines(text: Seq<char>) -> Seq<Seq<char>> {
    lines_of(text).map_values(|l: Seq<char>| trim(l))
}

impl LineReader {
    pub open spec fn line_views(&self) -> Seq<Seq<char>> {
        self.lines@.map_values(|s: String| s@)
    }

    /// A reader at the first line of `text`.
    pub fn new(text: &str) -> (r: Self)
        ensures
            r.line_views() == trimmed_lines(text@),
            r.current_line_idx == 0,
    {
        let ls = lines_chars(text);
        let mut out: Vec<String> = Vec::new();
        let mut i: usize = 0;
        while i < ls.len()
            invariant
                i <= ls.len(),
                views(ls@) == lines_of(text@),
                out@.map_values(|s: String| s@) == Seq::new(i as nat, |k: int| trim(lines_of(text@)[k])),
            decreases ls.len() - i,
        {
            let line = &ls[i];
            let (a, b) = trim_bounds(line, 0, line.len());
            assert(line@.subrange(0, line.len() as int) =~= line@);
            let mut t: Vec<char> = Vec::new();
            let mut j = a;
            while j < b
                invariant
                    a <= j <= b <= line.len(),
                    t@ == line@.subrange(a as int, j as int),
                decreases b - j,
            {
                t.push(line[j]);
                assert(line@.subrange(a as int, j + 1) =~= line@.subrange(a as int, j as int).push(line@[j as int]));
                j += 1;
            }
            let ghost before = out@.map_values(|s: String| s@);
            out.push(string_from_chars(&t));
            assert(out@.map_values(|s: String| s@) =~= before.push(trim(lines_of(text@)[i as int])));
            assert(out@.map_values(|s: String| s@) =~= Seq::new((i + 1) as nat, |k: int| trim(lines_of(text@)[k])));
            i += 1;
        }
        let r = LineReader { lines: out, current_line_idx: 0 };
        assert(r.line_views() =~= trimmed_lines(text@));
        r
    }

    /// Up and Down move to the previous or next line (staying on the first or last)
    /// and scroll the braille; Left and Right scroll it sideways.
    pub fn handle_key(&mut self, code: KeyCode) -> (r: Option<TextCommand>)
        ensures
            final(self).lines == old(self).lines,
            final(self).current_line_idx == match code {
                KeyCode::Up => if old(self).current_line_idx > 0 { (old(self).current_line_idx - 1) as usize } else { old(self).current_line_idx },
                KeyCode::Down => if old(self).current_line_idx + 1 < old(self).lines.len() { (old(self).current_line_idx + 1) as usize } else { old(self).current_line_idx },
                _ => old(self).current_line_idx,
            },
            r == match code {
                KeyCode::Up => Some(TextCommand::ScrollUp),
                KeyCode::Down => Some(TextCommand::ScrollDown),
                KeyCode::Left => Some(TextCommand::ScrollLeft),
                KeyCode::Right => Some(TextCommand::ScrollRight),
                _ => None::<TextCommand>,
            },
    {
        match code {
            KeyCode::Up => {
                if self.current_line_idx > 0 {
                    self.current_line_idx -= 1;
                }
                Some(TextCommand::ScrollUp)
            },
            KeyCode::Down => {
                if self.lines.len() > 0 && self.current_line_idx < self.lines.len() - 1 {
                    self.current_line_idx += 1;
                }
                Some(TextCommand::ScrollDown)
            },
            KeyCode::Left => Some(TextCommand::ScrollLeft),
            KeyCode::Right => Some(TextCommand::ScrollRight),
            _ => None,
        }
    }

    /// What is said of the current line: the line, "빈 줄" (empty line) for an
    /// empty one, nothing past the end.
    pub fn speech(&self) -> (r: Option<String>)
        ensures
            match r {
                Some(t) => reader_speech(self.line_views(), self.current_line_idx as int) == Some(t@),
                None => reader_speech(self.line_views(), self.current_line_idx as int) is None,
            },
    {
        if self.current_line_idx < self.lines.len() {
            let line = &self.lines[self.current_line_idx];
            if line.as_str().is_empty() {
                Some("빈 줄".to_string())
            } else {
                Some(line.clone())
            }
        } else {
            None
        }
    }
}

} // verus!
