//! Characters and the small vocabulary a protocol line is written in: white
//! space, words, trimmed ends, upper case and decimal numbers.

use vstd::prelude::*;

verus! {

/// A character with Unicode's `White_Space` property.
pub open spec fn is_white(c: char) -> bool {
    ||| '\u{9}' <= c <= '\u{d}'
    ||| c == '\u{20}'
    ||| c == '\u{85}'
    ||| c == '\u{a0}'
    ||| c == '\u{1680}'
    ||| '\u{2000}' <= c <= '\u{200a}'
    ||| c == '\u{2028}'
    ||| c == '\u{2029}'
    ||| c == '\u{202f}'
    ||| c == '\u{205f}'
    ||| c == '\u{3000}'
}

/// Whether `c` is white space.
pub fn white(c: char) -> (res: bool)
    ensures
        res == is_white(c),
{
    ('\u{9}' <= c && c <= '\u{d}') || c == '\u{20}' || c == '\u{85}' || c == '\u{a0}' || c
        == '\u{1680}' || ('\u{2000}' <= c && c <= '\u{200a}') || c == '\u{2028}' || c == '\u{2029}'
        || c == '\u{202f}' || c == '\u{205f}' || c == '\u{3000}'
}

/// The characters of `s`, one by one.
pub fn chars(s: &str) -> (res: Vec<char>)
    ensures
        res@ == s@,
{
    let mut res: Vec<char> = Vec::new();
    for c in it: s.chars()
        invariant
            it.seq() == s@,
            res@ == s@.take(it.index() as int),
    {
        res.push(c);
    }
    res
}

/// How many characters `s` opens with before the first white space.
pub open spec fn word_len(s: Seq<char>) -> nat
    decreases s.len(),
{
    if s.len() == 0 || is_white(s[0]) {
        0
    } else {
        1 + word_len(s.drop_first())
    }
}

/// The runs of characters between white space, in order.
pub open spec fn words(s: Seq<char>) -> Seq<Seq<char>>
    decreases s.len(),
{
    if s.len() == 0 {
        seq![]
    } else if is_white(s[0]) {
        words(s.drop_first())
    } else {
        proof {
            lemma_word_len_bound(s);
        }
        seq![s.take(word_len(s) as int)] + words(s.skip(word_len(s) as int))
    }
}

/// `s` is one word: not empty, and no white space in it.
pub open spec fn is_word(s: Seq<char>) -> bool {
    s.len() > 0 && forall|i: int| 0 <= i < s.len() ==> !is_white(#[trigger] s[i])
}

/// A word ends where its text does, at the latest.
pub proof fn lemma_word_len_bound(s: Seq<char>)
    ensures
        word_len(s) <= s.len(),
    decreases s.len(),
{
    if s.len() > 0 && !is_white(s[0]) {
        lemma_word_len_bound(s.drop_first());
    }
}

/// `word_len` is where the first white space stands, or the end.
pub proof fn lemma_word_len(s: Seq<char>, n: nat)
    requires
        n <= s.len(),
        forall|i: int| 0 <= i < n ==> !is_white(#[trigger] s[i]),
        n < s.len() ==> is_white(s[n as int]),
    ensures
        word_len(s) == n,
    decreases n,
{
    if n > 0 {
        assert(forall|i: int| 0 <= i < n - 1 ==> s.drop_first()[i] == s[i + 1]);
        lemma_word_len(s.drop_first(), (n - 1) as nat);
    }
}

/// Where each word of `text` from `from` on begins and ends.
pub fn word_ranges(text: &Vec<char>, from: usize) -> (res: Vec<(usize, usize)>)
    requires
        from <= text@.len(),
    ensures
        res@.len() == words(text@.skip(from as int)).len(),
        forall|k: int|
            0 <= k < res@.len() ==> {
                &&& (#[trigger] res@[k]).0 <= res@[k].1 <= text@.len()
                &&& text@.subrange(res@[k].0 as int, res@[k].1 as int) == words(
                    text@.skip(from as int),
                )[k]
            },
{
    let mut res: Vec<(usize, usize)> = Vec::new();
    let mut i: usize = from;
    let ghost all = words(text@.skip(from as int));
    let ghost mut done: Seq<Seq<char>> = seq![];
    while i < text.len()
        invariant
            from <= i <= text@.len(),
            all == words(text@.skip(from as int)),
            all == done + words(text@.skip(i as int)),
            done.len() == res@.len(),
            forall|k: int|
                0 <= k < res@.len() ==> {
                    &&& (#[trigger] res@[k]).0 <= res@[k].1 <= text@.len()
                    &&& text@.subrange(res@[k].0 as int, res@[k].1 as int) == done[k]
                },
        decreases text@.len() - i,
    {
        let ghost here = text@.skip(i as int);
        if white(text[i]) {
            assert(here.drop_first() =~= text@.skip(i + 1));
            i = i + 1;
        } else {
            let mut j: usize = i + 1;
            while j < text.len() && !white(text[j])
                invariant
                    i < j <= text@.len(),
                    forall|k: int| i <= k < j ==> !is_white(#[trigger] text@[k]),
                decreases text@.len() - j,
            {
                j = j + 1;
            }
            proof {
                lemma_word_len(here, (j - i) as nat);
                assert(here.take(j - i) =~= text@.subrange(i as int, j as int));
                assert(here.skip(j - i) =~= text@.skip(j as int));
                let word = text@.subrange(i as int, j as int);
                assert(all =~= done.push(word) + words(text@.skip(j as int)));
                done = done.push(word);
            }
            res.push((i, j));
            i = j;
        }
    }
    assert(text@.skip(i as int).len() == 0);
    assert(all =~= done);
    res
}

/// What a text is trimmed of at its ends.
#[derive(Clone, Copy, Debug, PartialEq, Eq, Structural)]
pub enum Edge {
    White,
    Quote,
}

/// `c` is trimmed off as `edge` says.
pub open spec fn on_edge(edge: Edge, c: char) -> bool {
    match edge {
        Edge::White => is_white(c),
        Edge::Quote => c == '\'',
    }
}

/// `s` from its first character that stays.
pub open spec fn trim_start(s: Seq<char>, edge: Edge) -> Seq<char>
    decreases s.len(),
{
    if s.len() > 0 && on_edge(edge, s[0]) {
        trim_start(s.drop_first(), edge)
    } else {
        s
    }
}

/// `s` up to its last character that stays.
pub open spec fn trim_end(s: Seq<char>, edge: Edge) -> Seq<char>
    decreases s.len(),
{
    if s.len() > 0 && on_edge(edge, s.last()) {
        trim_end(s.drop_last(), edge)
    } else {
        s
    }
}

/// `s` without the characters of `edge` at either end.
pub open spec fn trim(s: Seq<char>, edge: Edge) -> Seq<char> {
    trim_end(trim_start(s, edge), edge)
}

/// Neither end of `s` would be trimmed off.
pub open spec fn is_trimmed(s: Seq<char>, edge: Edge) -> bool {
    s.len() > 0 ==> !on_edge(edge, s[0]) && !on_edge(edge, s.last())
}

/// What is trimmed is a part of what was there, and has nothing left to trim.
pub proof fn lemma_trim(s: Seq<char>, edge: Edge)
    ensures
        is_trimmed(trim(s, edge), edge),
        is_trimmed(s, edge) <==> trim(s, edge) == s,
        trim(s, edge).len() <= s.len(),
{
    lemma_trim_start(s, edge);
    lemma_trim_end(trim_start(s, edge), edge);
}

proof fn lemma_trim_start(s: Seq<char>, edge: Edge)
    ensures
        trim_start(s, edge).len() <= s.len(),
        trim_start(s, edge).len() > 0 ==> !on_edge(edge, trim_start(s, edge)[0]),
        trim_start(s, edge).len() == s.len() ==> trim_start(s, edge) == s,
    decreases s.len(),
{
    if s.len() > 0 && on_edge(edge, s[0]) {
        lemma_trim_start(s.drop_first(), edge);
    }
}

proof fn lemma_trim_end(s: Seq<char>, edge: Edge)
    ensures
        trim_end(s, edge).len() <= s.len(),
        trim_end(s, edge).len() > 0 ==> !on_edge(edge, trim_end(s, edge).last()) && trim_end(
            s,
            edge,
        )[0] == s[0],
        trim_end(s, edge).len() == s.len() ==> trim_end(s, edge) == s,
    decreases s.len(),
{
    if s.len() > 0 && on_edge(edge, s.last()) {
        lemma_trim_end(s.drop_last(), edge);
    }
}

fn edge_char(edge: Edge, c: char) -> (res: bool)
    ensures
        res == on_edge(edge, c),
{
    match edge {
        Edge::White => white(c),
        Edge::Quote => c == '\'',
    }
}

/// Where the part of `text` between `from` and `to` begins and ends once it is
/// trimmed.
pub fn trim_range(text: &Vec<char>, from: usize, to: usize, edge: Edge) -> (res: (usize, usize))
    requires
        from <= to <= text@.len(),
    ensures
        from <= res.0 <= res.1 <= to,
        text@.subrange(res.0 as int, res.1 as int) == trim(
            text@.subrange(from as int, to as int),
            edge,
        ),
{
    let mut a: usize = from;
    while a < to && edge_char(edge, text[a])
        invariant
            from <= a <= to <= text@.len(),
            trim_start(text@.subrange(a as int, to as int), edge) == trim_start(
                text@.subrange(from as int, to as int),
                edge,
            ),
        decreases to - a,
    {
        assert(text@.subrange(a as int, to as int).drop_first() =~= text@.subrange(
            a + 1,
            to as int,
        ));
        a = a + 1;
    }
    let mut b: usize = to;
    let ghost begun = text@.subrange(a as int, to as int);
    while b > a && edge_char(edge, text[b - 1])
        invariant
            from <= a <= b <= to <= text@.len(),
            trim_end(text@.subrange(a as int, b as int), edge) == trim_end(begun, edge),
        decreases b,
    {
        assert(text@.subrange(a as int, b as int).drop_last() =~= text@.subrange(
            a as int,
            b - 1,
        ));
        b = b - 1;
    }
    (a, b)
}

/// `c`, in upper case where it is an ASCII letter.
pub open spec fn upper_char(c: char) -> char {
    if 'a' <= c <= 'z' {
        (c as u32 - 32) as char
    } else {
        c
    }
}

/// `s` with its ASCII letters in upper case.
pub open spec fn upper(s: Seq<char>) -> Seq<char> {
    Seq::new(s.len(), |i: int| upper_char(s[i]))
}

/// `str::to_ascii_uppercase`: a copy with the letters `a` to `z` mapped to `A`
/// to `Z` and every other character as it was.
pub assume_specification[ str::to_ascii_uppercase ](s: &str) -> (res: String)
    ensures
        res@ == upper(s@),
;

/// Whether `a` and `b` read the same.
pub fn same(a: &str, b: &str) -> (res: bool)
    ensures
        res == (a@ == b@),
{
    let x = a.as_bytes();
    let y = b.as_bytes();
    proof {
        vstd::utf8::encode_utf8_decode_utf8(a@);
        vstd::utf8::encode_utf8_decode_utf8(b@);
    }
    if x.len() != y.len() {
        return false;
    }
    let mut i: usize = 0;
    while i < x.len()
        invariant
            i <= x@.len() == y@.len(),
            a@ == b@ ==> x@ == y@,
            forall|k: int| 0 <= k < i ==> x@[k] == y@[k],
        decreases x@.len() - i,
    {
        if x[i] != y[i] {
            return false;
        }
        i = i + 1;
    }
    assert(x@ =~= y@);
    true
}

/// The digit that stands for `d`.
pub open spec fn digit(d: nat) -> char {
    (48 + d) as char
}

/// `c` is a decimal digit.
pub open spec fn is_digit(c: char) -> bool {
    '0' <= c <= '9'
}

/// What `c` counts for as a digit.
pub open spec fn digit_value(c: char) -> nat {
    (c as u32 - 48) as nat
}

/// `n` in decimal, without leading zeros.
pub open spec fn decimal(n: nat) -> Seq<char>
    decreases n,
{
    if n < 10 {
        seq![digit(n)]
    } else {
        decimal(n / 10).push(digit(n % 10))
    }
}

/// The number that the digits `s` write.
pub open spec fn value(s: Seq<char>) -> nat
    decreases s.len(),
{
    if s.len() == 0 {
        0
    } else {
        value(s.drop_last()) * 10 + digit_value(s.last())
    }
}

/// `s` is made of digits, at least one.
pub open spec fn is_digits(s: Seq<char>) -> bool {
    s.len() > 0 && forall|i: int| 0 <= i < s.len() ==> is_digit(#[trigger] s[i])
}

/// `s` without the plus sign it may open with.
pub open spec fn unsigned(s: Seq<char>) -> Seq<char> {
    if s.len() > 0 && s[0] == '+' {
        s.drop_first()
    } else {
        s
    }
}

/// The number `s` writes, if it is a number that a `usize` holds: digits, after
/// a plus sign or none.
pub open spec fn number(s: Seq<char>) -> Option<usize> {
    if is_digits(unsigned(s)) && value(unsigned(s)) <= usize::MAX {
        Some(value(unsigned(s)) as usize)
    } else {
        None
    }
}

fn digit_text(d: u64) -> (res: &'static str)
    requires
        d < 10,
    ensures
        res@ == seq![digit(d as nat)],
{
    proof {
        reveal_strlit("0123456789");
    }
    let res = "0123456789".substring_char(d as usize, d as usize + 1);
    assert(res@ =~= seq![digit(d as nat)]);
    res
}

/// `n` in decimal.
pub fn decimal_text(n: u64) -> (res: String)
    ensures
        res@ == decimal(n as nat),
    decreases n,
{
    if n < 10 {
        digit_text(n).to_owned()
    } else {
        let mut res = decimal_text(n / 10);
        res.append(digit_text(n % 10));
        assert(res@ =~= decimal((n / 10) as nat).push(digit((n % 10) as nat)));
        res
    }
}

/// More digits never write a smaller number.
proof fn lemma_value_grows(s: Seq<char>, n: int)
    requires
        0 <= n <= s.len(),
    ensures
        value(s.take(n)) <= value(s),
    decreases s.len() - n,
{
    if n < s.len() {
        lemma_value_grows(s, n + 1);
        assert(s.take(n + 1).drop_last() =~= s.take(n));
    } else {
        assert(s.take(n) =~= s);
    }
}

/// The number that `text` writes between `from` and `to`.
pub fn number_in(text: &Vec<char>, from: usize, to: usize) -> (res: Option<usize>)
    requires
        from <= to <= text@.len(),
    ensures
        res == number(text@.subrange(from as int, to as int)),
{
    let ghost s = text@.subrange(from as int, to as int);
    let start: usize = if from < to && text[from] == '+' {
        from + 1
    } else {
        from
    };
    let ghost digits = unsigned(s);
    assert(digits =~= text@.subrange(start as int, to as int));
    if start == to {
        return None;
    }
    let mut n: usize = 0;
    let mut i: usize = start;
    while i < to
        invariant
            start <= i <= to <= text@.len(),
            s == text@.subrange(from as int, to as int),
            digits == unsigned(s),
            digits == text@.subrange(start as int, to as int),
            n == value(digits.take(i - start)),
            forall|k: int| start <= k < i ==> is_digit(#[trigger] text@[k]),
        decreases to - i,
    {
        let c = text[i];
        assert(digits[i - start] == c);
        if !('0' <= c && c <= '9') {
            return None;
        }
        let d: usize = (c as u32 - 48) as usize;
        proof {
            assert(digits.take(i - start + 1).drop_last() =~= digits.take(i - start));
            lemma_value_grows(digits, i - start + 1);
        }
        let tens = match n.checked_mul(10) {
            Some(tens) => tens,
            None => {
                return None;
            },
        };
        n = match tens.checked_add(d) {
            Some(sum) => sum,
            None => {
                return None;
            },
        };
        i = i + 1;
    }
    assert(digits.take(to - start) =~= digits);
    Some(n)
}

/// What a number is written as reads back as the number.
pub proof fn lemma_decimal(n: nat)
    ensures
        is_digits(decimal(n)),
        is_word(decimal(n)),
        value(decimal(n)) == n,
        decimal(n)[0] != '+',
    decreases n,
{
    if n >= 10 {
        lemma_decimal(n / 10);
        assert(decimal(n).drop_last() =~= decimal(n / 10));
    } else {
        reveal_with_fuel(value, 2);
        assert(decimal(n).drop_last() =~= seq![]);
    }
}

} // verus!
