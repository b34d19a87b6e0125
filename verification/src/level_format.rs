//! The text format of Breakout levels.
//!
//! A level file is a grid of tile codes: one row per line, codes separated by
//! single spaces. Each space-separated piece is trimmed of whitespace and read
//! as an unsigned decimal number; pieces that are not numbers are skipped.

use vstd::prelude::*;
use crate::mesh::{decimal_string, lemma_decimal_string};

verus! {

/// `char::is_whitespace`: the Unicode `White_Space` characters.
pub open spec fn is_whitespace(c: char) -> bool {
    let u = c as u32;
    ||| 0x09 <= u <= 0x0d
    ||| u == 0x20
    ||| u == 0x85
    ||| u == 0xa0
    ||| u == 0x1680
    ||| 0x2000 <= u <= 0x200a
    ||| u == 0x2028
    ||| u == 0x2029
    ||| u == 0x202f
    ||| u == 0x205f
    ||| u == 0x3000
}

/// `s` without its leading whitespace.
pub open spec fn trim_start(s: Seq<char>) -> Seq<char>
    decreases s.len(),
{
    if s.len() > 0 && is_whitespace(s[0]) {
        trim_start(s.drop_first())
    } else {
        s
    }
}

/// `s` without its trailing whitespace.
pub open spec fn trim_end(s: Seq<char>) -> Seq<char>
    decreases s.len(),
{
    if s.len() > 0 && is_whitespace(s.last()) {
        trim_end(s.drop_last())
    } else {
        s
    }
}

/// `str::trim`: `s` without leading and trailing whitespace.
pub open spec fn trim(s: Seq<char>) -> Seq<char> {
    trim_end(trim_start(s))
}

/// An ASCII decimal digit.
pub open spec fn is_digit(c: char) -> bool {
    48 <= (c as u32) <= 57
}

/// The value of a digit character.
pub open spec fn digit_value(c: char) -> nat {
    ((c as u32) - 48) as nat
}

/// Every character is a decimal digit.
pub open spec fn all_digits(s: Seq<char>) -> bool {
    forall|i: int| 0 <= i < s.len() ==> is_digit(#[trigger] s[i])
}

/// The number that a string of decimal digits denotes.
pub open spec fn decimal_value(s: Seq<char>) -> nat
    decreases s.len(),
{
    if s.len() == 0 {
        0
    } else {
        decimal_value(s.drop_last()) * 10 + digit_value(s.last())
    }
}

/// The digits of an unsigned number: the text after an optional leading `+`.
pub open spec fn unsigned_digits(s: Seq<char>) -> Seq<char> {
    if s.len() > 0 && s[0] == '+' {
        s.drop_first()
    } else {
        s
    }
}

/// `u32::from_str`: an optional `+` followed by at least one decimal digit, denoting a
/// value that fits in 32 bits.
pub open spec fn parse_u32(s: Seq<char>) -> Option<u32> {
    let d = unsigned_digits(s);
    if d.len() > 0 && all_digits(d) && decimal_value(d) <= u32::MAX {
        Some(decimal_value(d) as u32)
    } else {
        None
    }
}

/// `s.split(' ')`: the pieces between single spaces, empty pieces included.
pub open spec fn split_spaces(s: Seq<char>) -> Seq<Seq<char>>
    decreases s.len(),
{
    if s.len() == 0 {
        seq![Seq::empty()]
    } else {
        let p = split_spaces(s.drop_last());
        if s.last() == ' ' {
            p.push(Seq::empty())
        } else {
            p.update(p.len() - 1, p.last().push(s.last()))
        }
    }
}

/// The numbers among the trimmed pieces, in order.
pub open spec fn parsed_numbers(pieces: Seq<Seq<char>>) -> Seq<u32>
    decreases pieces.len(),
{
    if pieces.len() == 0 {
        Seq::empty()
    } else {
        let rest = parsed_numbers(pieces.drop_last());
        match parse_u32(trim(pieces.last())) {
            Some(v) => rest.push(v),
            None => rest,
        }
    }
}

/// The tile codes of one line of a level file.
pub open spec fn row_numbers(line: Seq<char>) -> Seq<u32> {
    parsed_numbers(split_spaces(line))
}

proof fn lemma_split_nonempty(s: Seq<char>)
    ensures
        split_spaces(s).len() >= 1,
    decreases s.len(),
{
    if s.len() > 0 {
        lemma_split_nonempty(s.drop_last());
    }
}

proof fn lemma_value_monotone(t: Seq<char>, j: int)
    requires
        0 <= j <= t.len(),
    ensures
        decimal_value(t.take(j)) <= decimal_value(t),
    decreases t.len(),
{
    if j < t.len() {
        assert(t.drop_last().take(j) =~= t.take(j));
        lemma_value_monotone(t.drop_last(), j);
    } else {
        assert(t.take(j) =~= t);
    }
}

/// A row of tile codes as a level file writes it: decimal numbers separated by single spaces.
pub open spec fn written_row(codes: Seq<u32>) -> Seq<char>
    decreases codes.len(),
{
    if codes.len() == 0 {
        Seq::empty()
    } else if codes.len() == 1 {
        decimal_string(codes[0] as nat)
    } else {
        written_row(codes.drop_last()) + seq![' '] + decimal_string(codes.last() as nat)
    }
}

/// Appending text without spaces extends the last piece.
proof fn lemma_split_append(x: Seq<char>, d: Seq<char>)
    requires
        forall|i: int| 0 <= i < d.len() ==> d[i] != ' ',
    ensures
        split_spaces(x).len() >= 1,
        split_spaces(x + d) == split_spaces(x).update(
            split_spaces(x).len() - 1,
            split_spaces(x).last() + d,
        ),
    decreases d.len(),
{
    lemma_split_nonempty(x);
    let q = split_spaces(x);
    if d.len() == 0 {
        assert(x + d =~= x);
        assert(q.last() + d =~= q.last());
        assert(q.update(q.len() - 1, q.last()) =~= q);
    } else {
        let d0 = d.drop_last();
        lemma_split_append(x, d0);
        assert((x + d).drop_last() =~= x + d0);
        assert((x + d).last() == d.last());
        let p = split_spaces(x + d0);
        assert(p == q.update(q.len() - 1, q.last() + d0));
        assert((q.last() + d0).push(d.last()) =~= q.last() + d);
        assert(p.update(p.len() - 1, p.last().push(d.last())) =~= q.update(q.len() - 1, q.last() + d));
    }
}

/// A digit string is its own trimmed form and holds no space.
proof fn lemma_digits_plain(s: Seq<char>)
    requires
        s.len() > 0,
        all_digits(s),
    ensures
        trim(s) == s,
        forall|i: int| 0 <= i < s.len() ==> s[i] != ' ',
{
    assert(is_digit(s[0]));
    assert(is_digit(s.last()));
    assert(trim_start(s) == s);
    assert(trim_end(s) == s);
    assert forall|i: int| 0 <= i < s.len() implies s[i] != ' ' by {
        assert(is_digit(s[i]));
    }
}

/// Reading a row that was written as decimal numbers separated by single spaces gives the
/// numbers back.
pub proof fn lemma_row_round_trip(codes: Seq<u32>)
    ensures
        row_numbers(written_row(codes)) == codes,
    decreases codes.len(),
{
    if codes.len() == 0 {
        assert(split_spaces(Seq::<char>::empty()) == seq![Seq::<char>::empty()]);
        let pieces = seq![Seq::<char>::empty()];
        assert(pieces.drop_last() =~= Seq::<Seq<char>>::empty());
        assert(trim(Seq::<char>::empty()) =~= Seq::<char>::empty());
        assert(parse_u32(Seq::<char>::empty()) is None);
        assert(pieces.last() == Seq::<char>::empty());
        assert(parsed_numbers(Seq::<Seq<char>>::empty()) == Seq::<u32>::empty());
        assert(written_row(codes) == Seq::<char>::empty());
        assert(parsed_numbers(pieces) == Seq::<u32>::empty());
        assert(row_numbers(written_row(codes)) =~= codes);
    } else {
        let last = codes.last();
        let d = decimal_string(last as nat);
        lemma_decimal_string(last as nat);
        lemma_digits_plain(d);
        crate::mesh::lemma_decimal_round_trip(last);
        if codes.len() == 1 {
            lemma_split_append(Seq::<char>::empty(), d);
            assert(Seq::<char>::empty() + d =~= d);
            let pieces = split_spaces(d);
            assert(pieces =~= seq![d]);
            assert(pieces.drop_last() =~= Seq::<Seq<char>>::empty());
            assert(codes[0] == last);
            assert(pieces.last() == d);
            assert(parsed_numbers(Seq::<Seq<char>>::empty()) == Seq::<u32>::empty());
            assert(parse_u32(trim(d)) == Some(last));
            assert(parsed_numbers(pieces) == seq![last]);
            assert(written_row(codes) == d);
            assert(row_numbers(d) =~= codes);
        } else {
            let w = written_row(codes.drop_last());
            lemma_row_round_trip(codes.drop_last());
            let ws = w + seq![' '];
            assert((ws).drop_last() =~= w);
            lemma_split_nonempty(w);
            assert(split_spaces(ws) == split_spaces(w).push(Seq::<char>::empty()));
            lemma_split_append(ws, d);
            let pieces = split_spaces(ws + d);
            assert(Seq::<char>::empty() + d =~= d);
            assert(pieces =~= split_spaces(w).push(d));
            assert(pieces.drop_last() =~= split_spaces(w));
            assert(pieces.last() == d);
            assert(written_row(codes) == ws + d);
            assert(row_numbers(written_row(codes)) =~= codes.drop_last().push(last));
            assert(codes.drop_last().push(last) =~= codes);
        }
    }
}

proof fn lemma_trim_start_ws(w: Seq<char>, rest: Seq<char>)
    requires
        forall|i: int| 0 <= i < w.len() ==> is_whitespace(#[trigger] w[i]),
        rest.len() > 0 ==> !is_whitespace(rest[0]),
    ensures
        trim_start(w + rest) == rest,
    decreases w.len(),
{
    if w.len() == 0 {
        assert(w + rest =~= rest);
    } else {
        assert((w + rest)[0] == w[0]);
        assert((w + rest).drop_first() =~= w.drop_first() + rest);
        lemma_trim_start_ws(w.drop_first(), rest);
    }
}

proof fn lemma_trim_end_ws(rest: Seq<char>, w: Seq<char>)
    requires
        forall|i: int| 0 <= i < w.len() ==> is_whitespace(#[trigger] w[i]),
        rest.len() > 0 ==> !is_whitespace(rest.last()),
    ensures
        trim_end(rest + w) == rest,
    decreases w.len(),
{
    if w.len() == 0 {
        assert(rest + w =~= rest);
    } else {
        assert((rest + w).last() == w.last());
        assert((rest + w).drop_last() =~= rest + w.drop_last());
        lemma_trim_end_ws(rest, w.drop_last());
    }
}

/// A tile code padded with whitespace on either side (a tab, a carriage return, a
/// non-breaking space, ...) is still read as that code.
pub proof fn lemma_padded_code(before: Seq<char>, n: u32, after: Seq<char>)
    requires
        forall|i: int| 0 <= i < before.len() ==> is_whitespace(#[trigger] before[i]),
        forall|i: int| 0 <= i < after.len() ==> is_whitespace(#[trigger] after[i]),
    ensures
        parse_u32(trim(before + decimal_string(n as nat) + after)) == Some(n),
{
    let d = decimal_string(n as nat);
    lemma_decimal_string(n as nat);
    assert(is_digit(d[0]));
    assert(is_digit(d.last()));
    assert(before + d + after =~= before + (d + after));
    assert((d + after)[0] == d[0]);
    lemma_trim_start_ws(before, d + after);
    lemma_trim_end_ws(d, after);
    crate::mesh::lemma_decimal_round_trip(n);
}

/// `char::is_whitespace`.
pub fn char_is_whitespace(c: char) -> (r: bool)
    ensures
        r == is_whitespace(c),
{
    let u = c as u32;
    (0x09 <= u && u <= 0x0d) || u == 0x20 || u == 0x85 || u == 0xa0 || u == 0x1680 || (0x2000 <= u
        && u <= 0x200a) || u == 0x2028 || u == 0x2029 || u == 0x202f || u == 0x205f || u == 0x3000
}

/// The characters of `line`, in order.
pub fn line_chars(line: &String) -> (r: Vec<char>)
    ensures
        r@ == line@,
{
    let s = line.as_str();
    let n = s.unicode_len();
    let mut out: Vec<char> = Vec::new();
    let mut i: usize = 0;
    while i < n
        invariant
            0 <= i <= n,
            n == s@.len(),
            s@ == line@,
            out@ == s@.take(i as int),
        decreases n - i,
    {
        out.push(s.get_char(i));
        assert(out@ =~= s@.take(i + 1));
        i = i + 1;
    }
    assert(out@ =~= s@);
    out
}

/// Reads the piece `chars[start..end]` as a tile code: trims whitespace, then parses an
/// unsigned 32-bit decimal number.
pub fn parse_piece(chars: &Vec<char>, start: usize, end: usize) -> (r: Option<u32>)
    requires
        start <= end <= chars@.len(),
    ensures
        r == parse_u32(trim(chars@.subrange(start as int, end as int))),
{
    let ghost c = chars@;
    let mut s = start;
    while s < end && char_is_whitespace(chars[s])
        invariant
            start <= s <= end,
            end <= c.len(),
            c == chars@,
            trim_start(c.subrange(start as int, end as int)) == trim_start(
                c.subrange(s as int, end as int),
            ),
        decreases end - s,
    {
        assert(c.subrange(s as int, end as int).drop_first() =~= c.subrange(s + 1, end as int));
        s = s + 1;
    }
    assert(trim_start(c.subrange(start as int, end as int)) == c.subrange(s as int, end as int));
    let mut e = end;
    while e > s && char_is_whitespace(chars[e - 1])
        invariant
            start <= s <= e <= end,
            end <= c.len(),
            c == chars@,
            trim_end(c.subrange(s as int, end as int)) == trim_end(c.subrange(s as int, e as int)),
        decreases e - s,
    {
        assert(c.subrange(s as int, e as int).drop_last() =~= c.subrange(s as int, e - 1));
        e = e - 1;
    }
    let ghost t = c.subrange(s as int, e as int);
    assert(trim(c.subrange(start as int, end as int)) == t);
    let mut d = s;
    if d < e && chars[d] == '+' {
        d = d + 1;
        assert(unsigned_digits(t) =~= c.subrange(d as int, e as int));
    } else {
        assert(unsigned_digits(t) =~= c.subrange(d as int, e as int));
    }
    let ghost digits = c.subrange(d as int, e as int);
    if d == e {
        return None;
    }
    let mut acc: u64 = 0;
    let mut k = d;
    while k < e
        invariant
            start <= s <= d <= k <= e <= end <= c.len(),
            c == chars@,
            digits == c.subrange(d as int, e as int),
            trim(c.subrange(start as int, end as int)) == t,
            t == c.subrange(s as int, e as int),
            unsigned_digits(t) == digits,
            acc == decimal_value(digits.take(k - d)),
            acc <= u32::MAX,
            all_digits(digits.take(k - d)),
        decreases e - k,
    {
        let ch = chars[k];
        let u = ch as u32;
        if u < 48 || u > 57 {
            assert(!is_digit(digits[k - d]));
            return None;
        }
        assert(digits.take(k - d + 1).drop_last() =~= digits.take(k - d));
        acc = acc * 10 + ((u - 48) as u64);
        assert(acc == decimal_value(digits.take(k - d + 1)));
        if acc > 0xffff_ffff {
            proof {
                lemma_value_monotone(digits, k - d + 1);
            }
            return None;
        }
        k = k + 1;
    }
    assert(digits.take(k - d) =~= digits);
    Some(acc as u32)
}

/// The tile codes of one line of a level file.
pub fn parse_row(line: &String) -> (r: Vec<u32>)
    ensures
        r@ == row_numbers(line@),
{
    let chars = line_chars(line);
    let ghost c = chars@;
    let n = chars.len();
    let mut values: Vec<u32> = Vec::new();
    let mut start: usize = 0;
    let mut j: usize = 0;
    proof {
        assert(c.subrange(0, 0) =~= Seq::<char>::empty());
    }
    while j < n
        invariant
            0 <= start <= j <= n,
            n == c.len(),
            c == chars@,
            split_spaces(c.subrange(0, j as int)).len() >= 1,
            split_spaces(c.subrange(0, j as int)).last() == c.subrange(start as int, j as int),
            values@ == parsed_numbers(split_spaces(c.subrange(0, j as int)).drop_last()),
        decreases n - j,
    {
        let ghost prefix = c.subrange(0, j as int);
        let ghost next = c.subrange(0, j + 1);
        let ghost p = split_spaces(prefix);
        assert(next.drop_last() =~= prefix);
        assert(next.last() == c[j as int]);
        if chars[j] == ' ' {
            let v = parse_piece(&chars, start, j);
            match v {
                Some(x) => values.push(x),
                None => {},
            }
            assert(split_spaces(next) == p.push(Seq::empty()));
            assert(split_spaces(next).drop_last() =~= p);
            assert(p =~= p.drop_last().push(p.last()));
            assert(c.subrange(j + 1, j + 1) =~= Seq::<char>::empty());
            start = j + 1;
        } else {
            assert(split_spaces(next) == p.update(p.len() - 1, p.last().push(c[j as int])));
            assert(split_spaces(next).drop_last() =~= p.drop_last());
            assert(c.subrange(start as int, j + 1) =~= c.subrange(start as int, j as int).push(
                c[j as int],
            ));
        }
        j = j + 1;
    }
    let ghost p = split_spaces(c.subrange(0, n as int));
    assert(c.subrange(0, n as int) =~= c);
    assert(p =~= p.drop_last().push(p.last()));
    let v = parse_piece(&chars, start, n);
    match v {
        Some(x) => values.push(x),
        None => {},
    }
    values
}

/// The tile codes of a level: one row per line of the file.
pub fn parse_tile_data(lines: &Vec<String>) -> (r: Vec<Vec<u32>>)
    ensures
        r@.len() == lines@.len(),
        forall|i: int| 0 <= i < r@.len() ==> #[trigger] r@[i]@ == row_numbers(lines@[i]@),
{
    let mut rows: Vec<Vec<u32>> = Vec::new();
    let mut i: usize = 0;
    while i < lines.len()
        invariant
            0 <= i <= lines@.len(),
            rows@.len() == i,
            forall|k: int| 0 <= k < i ==> #[trigger] rows@[k]@ == row_numbers(lines@[k]@),
        decreases lines@.len() - i,
    {
        rows.push(parse_row(&lines[i]));
        i = i + 1;
    }
    rows
}

} // verus!
