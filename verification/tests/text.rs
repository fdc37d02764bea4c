//! Words, trimmed ends and numbers, held against the standard library's.

use transport_nats::text::chars;
use transport_nats::text::decimal_text;
use transport_nats::text::number_in;
use transport_nats::text::same;
use transport_nats::text::trim_range;
use transport_nats::text::white;
use transport_nats::text::word_ranges;
use transport_nats::text::Edge;

#[test]
fn white_space_is_what_unicode_says() {
    for code in 0..=0x10ffff_u32 {
        if let Some(c) = char::from_u32(code) {
            assert_eq!(white(c), c.is_whitespace(), "{code:x}");
        }
    }
}

#[test]
fn words_are_those_between_white_space() {
    let texts = ["", " ", "a", " a", "a ", "a b", "\ta \u{a0} bc\u{2003}d\r\n", "x\u{1f600} y"];
    for s in texts {
        let cs = chars(s);
        let words: Vec<String> = word_ranges(&cs, 0)
            .into_iter()
            .map(|(a, b)| cs[a..b].iter().collect())
            .collect();
        let expected: Vec<&str> = s.split_whitespace().collect();
        assert_eq!(words, expected, "{s:?}");
    }
}

#[test]
fn ends_are_trimmed() {
    let texts = ["", "  ", "a", " a b ", "\u{3000}x\u{85}", "'a'", "''", "'", "'a'b'", " 'x' "];
    for s in texts {
        let cs = chars(s);
        let (a, b) = trim_range(&cs, 0, cs.len(), Edge::White);
        assert_eq!(cs[a..b].iter().collect::<String>(), s.trim(), "{s:?}");
        let (a, b) = trim_range(&cs, 0, cs.len(), Edge::Quote);
        assert_eq!(cs[a..b].iter().collect::<String>(), s.trim_matches('\''), "{s:?}");
    }
}

#[test]
fn numbers_are_written_and_read() {
    for n in [0, 1, 9, 10, 11, 99, 100, 1048576, u64::MAX - 1, u64::MAX] {
        assert_eq!(decimal_text(n), n.to_string());
    }
    let texts = [
        "", "+", "-", "0", "7", "+7", "-7", "++7", "007", "10", "1a", "a1", " 1", "1 ", "1_0",
        "18446744073709551615", "18446744073709551616", "99999999999999999999", "\u{664}",
    ];
    for s in texts {
        let cs = chars(s);
        assert_eq!(number_in(&cs, 0, cs.len()), s.parse::<usize>().ok(), "{s:?}");
    }
}

#[test]
fn texts_are_the_same_or_not() {
    let texts = ["", "a", "A", "ab", "\u{e9}", "e\u{301}"];
    for a in texts {
        for b in texts {
            assert_eq!(same(a, b), a == b, "{a:?} {b:?}");
        }
    }
}
