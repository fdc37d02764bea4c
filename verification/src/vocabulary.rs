//! What the vocabulary of a protocol line comes to on every text: which
//! characters part its words, what trimming leaves, how numbers are written.

use crate::framing;
use crate::text;
use crate::text::Edge;
use vstd::prelude::*;

verus! {

/// The characters that part words are Unicode's `White_Space`, by number, and no
/// others.
pub proof fn law_white_space_by_number(c: char)
    ensures
        text::is_white(c) <==> {
            let u = c as u32;
            ||| 0x9 <= u <= 0xd
            ||| u == 0x20
            ||| u == 0x85
            ||| u == 0xa0
            ||| u == 0x1680
            ||| 0x2000 <= u <= 0x200a
            ||| u == 0x2028
            ||| u == 0x2029
            ||| u == 0x202f
            ||| u == 0x205f
            ||| u == 0x3000
        },
{
}

/// A word is a text that is not empty and that no white space stands in.
pub proof fn law_word_holds_no_white_space(s: Seq<char>)
    ensures
        text::is_word(s) <==> s.len() > 0 && !(exists|i: int|
            0 <= i < s.len() && text::is_white(#[trigger] s[i])),
{
}

/// White space parts the words of a text, however much of it there is, before
/// the first word, between two and behind the last; and a word stays whole.
pub proof fn law_white_space_parts_words(gap: char, word: Seq<char>, rest: Seq<char>)
    ensures
        text::words(Seq::empty()) == Seq::<Seq<char>>::empty(),
        text::is_white(gap) ==> text::words(seq![gap] + rest) == text::words(rest),
        text::is_word(word) ==> text::words(word) == seq![word],
        text::is_word(word) && text::is_white(gap) ==> text::words(word + seq![gap] + rest) == seq![
            word,
        ] + text::words(rest),
{
    if text::is_white(gap) {
        lemma_words_behind_gap(gap, rest);
    }
    if text::is_word(word) {
        framing::lemma_words_last(word);
        if text::is_white(gap) {
            let s = word + seq![gap] + rest;
            assert(forall|i: int| 0 <= i < word.len() ==> s[i] == word[i]);
            text::lemma_word_len(s, word.len());
            assert(s.take(word.len() as int) =~= word);
            assert(s.skip(word.len() as int) =~= seq![gap] + rest);
        }
    }
}

proof fn lemma_words_behind_gap(gap: char, rest: Seq<char>)
    requires
        text::is_white(gap),
    ensures
        text::words(seq![gap] + rest) == text::words(rest),
{
    assert((seq![gap] + rest)[0] == gap);
    assert((seq![gap] + rest).drop_first() =~= rest);
}

/// `s` is made of characters that `edge` trims off.
pub open spec fn all_on_edge(s: Seq<char>, edge: Edge) -> bool {
    forall|i: int| 0 <= i < s.len() ==> text::on_edge(edge, #[trigger] s[i])
}

/// Trimming takes off what stands at the ends, all of it, and leaves what stands
/// between: white space, or single quotes.
pub proof fn law_trimming_leaves_the_middle(before: Seq<char>, middle: Seq<char>, after: Seq<char>)
    ensures
        ({
            &&& forall|i: int| 0 <= i < before.len() ==> text::is_white(#[trigger] before[i])
            &&& forall|i: int| 0 <= i < after.len() ==> text::is_white(#[trigger] after[i])
            &&& middle.len() > 0 ==> !text::is_white(middle[0]) && !text::is_white(middle.last())
        }) ==> text::trim(before + middle + after, Edge::White) == middle,
        ({
            &&& forall|i: int| 0 <= i < before.len() ==> #[trigger] before[i] == '\''
            &&& forall|i: int| 0 <= i < after.len() ==> #[trigger] after[i] == '\''
            &&& middle.len() > 0 ==> middle[0] != '\'' && middle.last() != '\''
        }) ==> text::trim(before + middle + after, Edge::Quote) == middle,
{
    if (forall|i: int| 0 <= i < before.len() ==> text::is_white(#[trigger] before[i])) && (forall|
        i: int,
    |
        0 <= i < after.len() ==> text::is_white(#[trigger] after[i])) && (middle.len() > 0
        ==> !text::is_white(middle[0]) && !text::is_white(middle.last())) {
        lemma_trimmed(before, middle, after, Edge::White);
    }
    if (forall|i: int| 0 <= i < before.len() ==> #[trigger] before[i] == '\'') && (forall|i: int|
        0 <= i < after.len() ==> #[trigger] after[i] == '\'') && (middle.len() > 0 ==> middle[0]
        != '\'' && middle.last() != '\'') {
        lemma_trimmed(before, middle, after, Edge::Quote);
    }
}

/// What stands between characters that are trimmed off is what trimming leaves.
pub proof fn lemma_trimmed(before: Seq<char>, middle: Seq<char>, after: Seq<char>, edge: Edge)
    requires
        all_on_edge(before, edge),
        all_on_edge(after, edge),
        text::is_trimmed(middle, edge),
    ensures
        text::trim(before + middle + after, edge) == middle,
    decreases before.len(),
{
    let s = before + middle + after;
    if before.len() > 0 {
        let rest = before.drop_first();
        assert(text::on_edge(edge, before[0]));
        assert(s.drop_first() =~= rest + middle + after);
        assert forall|i: int| 0 <= i < rest.len() implies text::on_edge(edge, #[trigger] rest[i]) by {
            assert(rest[i] == before[i + 1]);
        }
        lemma_trimmed(rest, middle, after, edge);
    } else if middle.len() > 0 {
        assert(s =~= middle + after);
        assert(text::trim_start(s, edge) == s);
        lemma_trimmed_end(middle, after, edge);
    } else {
        assert(s =~= after);
        assert(middle =~= Seq::empty());
        lemma_trimmed_away(after, edge);
    }
}

proof fn lemma_trimmed_end(middle: Seq<char>, after: Seq<char>, edge: Edge)
    requires
        all_on_edge(after, edge),
        middle.len() > 0,
        !text::on_edge(edge, middle.last()),
    ensures
        text::trim_end(middle + after, edge) == middle,
    decreases after.len(),
{
    let s = middle + after;
    if after.len() > 0 {
        assert(s.last() == after[after.len() - 1]);
        assert(s.drop_last() =~= middle + after.drop_last());
        assert forall|i: int| 0 <= i < after.drop_last().len() implies text::on_edge(
            edge,
            #[trigger] after.drop_last()[i],
        ) by {
            assert(after.drop_last()[i] == after[i]);
        }
        lemma_trimmed_end(middle, after.drop_last(), edge);
    } else {
        assert(s =~= middle);
    }
}

proof fn lemma_trimmed_away(s: Seq<char>, edge: Edge)
    requires
        all_on_edge(s, edge),
    ensures
        text::trim(s, edge) == Seq::<char>::empty(),
    decreases s.len(),
{
    if s.len() > 0 {
        assert(text::on_edge(edge, s[0]));
        assert forall|i: int| 0 <= i < s.drop_first().len() implies text::on_edge(
            edge,
            #[trigger] s.drop_first()[i],
        ) by {
            assert(s.drop_first()[i] == s[i + 1]);
        }
        lemma_trimmed_away(s.drop_first(), edge);
    } else {
        assert(s =~= Seq::empty());
    }
}

/// Upper case maps the letters `a` to `z` to `A` to `Z`, each where it stands,
/// and leaves every other character alone.
pub proof fn law_upper_case_maps_letters(s: Seq<char>)
    ensures
        text::upper(s).len() == s.len(),
        forall|i: int|
            0 <= i < s.len() && 97 <= (#[trigger] s[i]) as u32 <= 122 ==> text::upper(s)[i] as u32
                == s[i] as u32 - 32,
        forall|i: int|
            0 <= i < s.len() && !(97 <= (#[trigger] s[i]) as u32 <= 122) ==> text::upper(s)[i]
                == s[i],
{
}

/// A number is written digit by digit, the highest first, and no number but a
/// single digit opens with a zero.
pub proof fn law_number_is_written_in_digits(n: nat, d: nat)
    requires
        d < 10,
    ensures
        text::decimal(d) == seq!["0123456789"@[d as int]],
        n > 0 ==> text::decimal(n * 10 + d) == text::decimal(n).push("0123456789"@[d as int]),
        n > 0 ==> text::decimal(n)[0] != '0',
{
    reveal_strlit("0123456789");
    if n > 0 {
        assert((n * 10 + d) / 10 == n);
        assert((n * 10 + d) % 10 == d);
        lemma_decimal_opens(n);
    }
}

proof fn lemma_decimal_opens(n: nat)
    requires
        n > 0,
    ensures
        text::decimal(n).len() > 0,
        text::decimal(n)[0] != '0',
    decreases n,
{
    if n >= 10 {
        lemma_decimal_opens(n / 10);
        assert(text::decimal(n)[0] == text::decimal(n / 10)[0]);
    }
}

/// Digits are read as the number they write, behind a plus sign too, where a
/// `usize` holds it; what holds anything but digits, or none, is no number.
pub proof fn law_digits_are_read_as_their_number(s: Seq<char>, n: nat)
    ensures
        n <= usize::MAX ==> text::number(text::decimal(n)) == Some(n as usize),
        n > usize::MAX ==> text::number(text::decimal(n)) is None,
        s.len() > 0 && (forall|i: int| 0 <= i < s.len() ==> '0' <= #[trigger] s[i] <= '9')
            ==> text::number(seq!['0'] + s) == text::number(s) && text::number(seq!['+'] + s)
            == text::number(s),
        text::number(Seq::empty()) is None,
        text::number(seq!['+']) is None,
        forall|i: int|
            0 <= i < s.len() && !('0' <= #[trigger] s[i] <= '9') && !(i == 0 && s[i] == '+')
                ==> text::number(s) is None,
{
    text::lemma_decimal(n);
    let plus = seq!['+'] + s;
    assert(plus.drop_first() =~= s);
    assert(seq!['+'].drop_first() =~= Seq::empty());
    if s.len() > 0 && (forall|i: int| 0 <= i < s.len() ==> '0' <= #[trigger] s[i] <= '9') {
        let padded = seq!['0'] + s;
        lemma_value_padded(s);
        assert(forall|i: int| 0 <= i < s.len() ==> padded[i + 1] == s[i]);
        assert(s[0] != '+');
        assert(padded[0] == '0');
        assert(text::is_digits(s));
        assert forall|i: int| 0 <= i < padded.len() implies text::is_digit(
            #[trigger] padded[i],
        ) by {
            if i > 0 {
                assert(padded[i] == s[i - 1]);
            }
        }
    }
    assert forall|i: int|
        0 <= i < s.len() && !('0' <= #[trigger] s[i] <= '9') && !(i == 0 && s[i] == '+') implies
        text::number(s) is None by {
        let digits = text::unsigned(s);
        if s[0] == '+' {
            assert(digits[i - 1] == s[i]);
        } else {
            assert(digits[i] == s[i]);
        }
    }
}

proof fn lemma_value_padded(s: Seq<char>)
    ensures
        text::value(seq!['0'] + s) == text::value(s),
    decreases s.len(),
{
    let padded = seq!['0'] + s;
    if s.len() == 0 {
        reveal_with_fuel(text::value, 2);
        assert(padded.drop_last() =~= Seq::empty());
        assert(s =~= Seq::empty());
    } else {
        assert(padded.drop_last() =~= seq!['0'] + s.drop_last());
        lemma_value_padded(s.drop_last());
    }
}

} // verus!
