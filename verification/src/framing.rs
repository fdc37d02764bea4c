//! What reading gives back of what was written.

use crate::error::ErrorModel;
use crate::text;
use crate::text::Edge;
use crate::wire;
use crate::wire::HeadModel;
use crate::wire::LineModel;
use crate::wire::ReadingModel;
use vstd::prelude::*;
use vstd::utf8;

verus! {

/// No line feed in `s`.
pub open spec fn on_one_line(s: Seq<char>) -> bool {
    forall|i: int| 0 <= i < s.len() ==> #[trigger] s[i] != '\n'
}

/// `word` is absent, or one word.
pub open spec fn is_word_or_absent(word: Option<Seq<char>>) -> bool {
    match word {
        Some(word) => text::is_word(word),
        None => true,
    }
}

/// `line` keeps its shape on the wire: its subject, reply, queue and sid are
/// words, and its text stays on one line with nothing at its ends that a reader
/// trims off.
pub open spec fn is_sound(line: LineModel) -> bool {
    match line {
        LineModel::Info(json) => on_one_line(json) && text::is_trimmed(json, Edge::White),
        LineModel::Connect(json) => on_one_line(json) && text::is_trimmed(json, Edge::White),
        LineModel::Pub { subject, reply, payload } => text::is_word(subject) && is_word_or_absent(
            reply,
        ) && payload.len() <= usize::MAX,
        LineModel::Sub { subject, queue, sid } => text::is_word(subject) && is_word_or_absent(queue)
            && text::is_word(sid),
        LineModel::Unsub { sid } => sid.len() == 0 || text::is_word(sid),
        LineModel::Msg { subject, sid, reply, payload } => text::is_word(subject) && text::is_word(
            sid,
        ) && is_word_or_absent(reply) && payload.len() <= usize::MAX,
        LineModel::Ping => true,
        LineModel::Pong => true,
        LineModel::PlusOk => true,
        LineModel::MinusErr(message) => on_one_line(message) && text::is_trimmed(
            message,
            Edge::Quote,
        ),
    }
}

/// The head that `line` has on the wire.
pub open spec fn head_of_line(line: LineModel) -> HeadModel {
    match line {
        LineModel::Pub { subject, reply, payload } => HeadModel::Pub {
            subject,
            reply,
            length: payload.len() as usize,
        },
        LineModel::Msg { subject, sid, reply, payload } => HeadModel::Msg {
            subject,
            sid,
            reply,
            length: payload.len() as usize,
        },
        _ => HeadModel::Whole(line),
    }
}

proof fn lemma_encode_scalar_no_feed(c: char)
    requires
        c != '\n',
    ensures
        forall|i: int|
            0 <= i < utf8::encode_scalar(c as u32).len() ==> #[trigger] utf8::encode_scalar(
                c as u32,
            )[i] != 10,
{
    let u = c as u32;
    assert(u <= 0x7f ==> u & 0x7f == u) by (bit_vector);
    assert(u <= 0x7f ==> (u & 0x7f) as u8 == u) by (bit_vector);
    assert(0xC0 | ((u >> 6) & 0x1F) as u8 != 10u8) by (bit_vector);
    assert(0xE0 | ((u >> 12) & 0x0F) as u8 != 10u8) by (bit_vector);
    assert(0xF0 | ((u >> 18) & 0x7) as u8 != 10u8) by (bit_vector);
    assert(0x80 | (u & 0x3F) as u8 != 10u8) by (bit_vector);
    assert(0x80 | ((u >> 6) & 0x3F) as u8 != 10u8) by (bit_vector);
    assert(0x80 | ((u >> 12) & 0x3F) as u8 != 10u8) by (bit_vector);
}

/// No character but the line feed is written with a line feed byte.
pub proof fn lemma_encode_no_feed(s: Seq<char>)
    requires
        on_one_line(s),
    ensures
        forall|i: int|
            0 <= i < utf8::encode_utf8(s).len() ==> #[trigger] utf8::encode_utf8(s)[i] != 10,
    decreases s.len(),
{
    if s.len() > 0 {
        lemma_encode_scalar_no_feed(s[0]);
        assert forall|i: int| 0 <= i < s.drop_first().len() implies #[trigger] s.drop_first()[i]
            != '\n' by {
            assert(s.drop_first()[i] == s[i + 1]);
        }
        lemma_encode_no_feed(s.drop_first());
        let first = utf8::encode_scalar(s[0] as u32);
        let rest = utf8::encode_utf8(s.drop_first());
        assert forall|i: int|
            0 <= i < utf8::encode_utf8(s).len() implies #[trigger] utf8::encode_utf8(s)[i]
            != 10 by {
            if i < first.len() {
                assert((first + rest)[i] == first[i]);
            } else {
                assert((first + rest)[i] == rest[i - first.len()]);
            }
        }
    }
}

/// Where the verb ends and what it is followed by.
pub proof fn lemma_verb(s: Seq<char>, v: Seq<char>, rest: Seq<char>)
    requires
        s == v + seq![' '] + rest,
        forall|i: int| 0 <= i < v.len() ==> #[trigger] v[i] != ' ',
    ensures
        wire::verb(s) == v,
        wire::arguments(s) == rest,
{
    lemma_verb_len(s, v.len());
    assert(s.take(v.len() as int) =~= v);
    assert(s.skip(v.len() as int + 1) =~= rest);
}

/// `verb_len` is where the first space stands, or the end.
pub proof fn lemma_verb_len(s: Seq<char>, n: nat)
    requires
        n <= s.len(),
        forall|i: int| 0 <= i < n ==> #[trigger] s[i] != ' ',
        n < s.len() ==> s[n as int] == ' ',
    ensures
        wire::verb_len(s) == n,
    decreases n,
{
    if n > 0 {
        assert(forall|i: int| 0 <= i < n - 1 ==> s.drop_first()[i] == s[i + 1]);
        lemma_verb_len(s.drop_first(), (n - 1) as nat);
    }
}

/// The first word of a text that opens with a word and a space.
pub proof fn lemma_words_first(w: Seq<char>, rest: Seq<char>)
    requires
        text::is_word(w),
    ensures
        text::words(w + seq![' '] + rest) == seq![w] + text::words(rest),
{
    let s = w + seq![' '] + rest;
    assert(forall|i: int| 0 <= i < w.len() ==> s[i] == w[i]);
    text::lemma_word_len(s, w.len());
    assert(s.take(w.len() as int) =~= w);
    let after = s.skip(w.len() as int);
    assert(after[0] == ' ');
    assert(after.drop_first() =~= rest);
    assert(text::words(after) == text::words(rest));
}

/// A word is its own only word.
pub proof fn lemma_words_last(w: Seq<char>)
    requires
        text::is_word(w),
    ensures
        text::words(w) == seq![w],
{
    text::lemma_word_len(w, w.len());
    assert(w.take(w.len() as int) =~= w);
    assert(w.skip(w.len() as int) =~= Seq::empty());
    assert(seq![w] + text::words(Seq::empty()) =~= seq![w]);
}

/// The words of a line that has one word, perhaps another, and a last one.
proof fn lemma_words_between(w: Seq<char>, middle: Option<Seq<char>>, last: Seq<char>)
    requires
        text::is_word(w),
        is_word_or_absent(middle),
        text::is_word(last),
    ensures
        text::words(w + " "@ + wire::word_and_space(middle) + last) == match middle {
            Some(m) => seq![w, m, last],
            None => seq![w, last],
        },
{
    reveal_strlit(" ");
    assert(" "@ =~= seq![' ']);
    lemma_words_last(last);
    match middle {
        Some(m) => {
            let rest = m + seq![' '] + last;
            assert(w + " "@ + wire::word_and_space(middle) + last =~= w + seq![' '] + rest);
            lemma_words_first(w, rest);
            lemma_words_first(m, last);
            assert(seq![w] + (seq![m] + seq![last]) =~= seq![w, m, last]);
        },
        None => {
            assert(w + " "@ + wire::word_and_space(middle) + last =~= w + seq![' '] + last);
            lemma_words_first(w, last);
            assert(seq![w] + seq![last] =~= seq![w, last]);
        },
    }
}

/// The verbs, letter by letter.
pub proof fn lemma_verbs()
    ensures
        "INFO"@ == seq!['I', 'N', 'F', 'O'],
        "CONNECT"@ == seq!['C', 'O', 'N', 'N', 'E', 'C', 'T'],
        "PUB"@ == seq!['P', 'U', 'B'],
        "SUB"@ == seq!['S', 'U', 'B'],
        "UNSUB"@ == seq!['U', 'N', 'S', 'U', 'B'],
        "MSG"@ == seq!['M', 'S', 'G'],
        "PING"@ == seq!['P', 'I', 'N', 'G'],
        "PONG"@ == seq!['P', 'O', 'N', 'G'],
        "+OK"@ == seq!['+', 'O', 'K'],
        "-ERR"@ == seq!['-', 'E', 'R', 'R'],
{
    reveal_strlit("INFO");
    reveal_strlit("CONNECT");
    reveal_strlit("PUB");
    reveal_strlit("SUB");
    reveal_strlit("UNSUB");
    reveal_strlit("MSG");
    reveal_strlit("PING");
    reveal_strlit("PONG");
    reveal_strlit("+OK");
    reveal_strlit("-ERR");
    assert("INFO"@ =~= seq!['I', 'N', 'F', 'O']);
    assert("CONNECT"@ =~= seq!['C', 'O', 'N', 'N', 'E', 'C', 'T']);
    assert("PUB"@ =~= seq!['P', 'U', 'B']);
    assert("SUB"@ =~= seq!['S', 'U', 'B']);
    assert("UNSUB"@ =~= seq!['U', 'N', 'S', 'U', 'B']);
    assert("MSG"@ =~= seq!['M', 'S', 'G']);
    assert("PING"@ =~= seq!['P', 'I', 'N', 'G']);
    assert("PONG"@ =~= seq!['P', 'O', 'N', 'G']);
    assert("+OK"@ =~= seq!['+', 'O', 'K']);
    assert("-ERR"@ =~= seq!['-', 'E', 'R', 'R']);
}

/// `v` is one of the protocol's verbs.
pub open spec fn is_verb(v: Seq<char>) -> bool {
    ||| v == "INFO"@
    ||| v == "CONNECT"@
    ||| v == "PUB"@
    ||| v == "SUB"@
    ||| v == "UNSUB"@
    ||| v == "MSG"@
    ||| v == "PING"@
    ||| v == "PONG"@
    ||| v == "+OK"@
    ||| v == "-ERR"@
}

/// No two verbs are the same.
pub proof fn lemma_verbs_differ()
    ensures
        "INFO"@ != "CONNECT"@,
        "PUB"@ != "INFO"@,
        "PUB"@ != "CONNECT"@,
        "SUB"@ != "INFO"@,
        "SUB"@ != "CONNECT"@,
        "SUB"@ != "PUB"@,
        "UNSUB"@ != "INFO"@,
        "UNSUB"@ != "CONNECT"@,
        "UNSUB"@ != "PUB"@,
        "UNSUB"@ != "SUB"@,
        "MSG"@ != "INFO"@,
        "MSG"@ != "CONNECT"@,
        "MSG"@ != "PUB"@,
        "MSG"@ != "SUB"@,
        "MSG"@ != "UNSUB"@,
        "PING"@ != "INFO"@,
        "PING"@ != "CONNECT"@,
        "PING"@ != "PUB"@,
        "PING"@ != "SUB"@,
        "PING"@ != "UNSUB"@,
        "PING"@ != "MSG"@,
        "PONG"@ != "INFO"@,
        "PONG"@ != "CONNECT"@,
        "PONG"@ != "PUB"@,
        "PONG"@ != "SUB"@,
        "PONG"@ != "UNSUB"@,
        "PONG"@ != "MSG"@,
        "PONG"@ != "PING"@,
        "+OK"@ != "INFO"@,
        "+OK"@ != "CONNECT"@,
        "+OK"@ != "PUB"@,
        "+OK"@ != "SUB"@,
        "+OK"@ != "UNSUB"@,
        "+OK"@ != "MSG"@,
        "+OK"@ != "PING"@,
        "+OK"@ != "PONG"@,
        "-ERR"@ != "INFO"@,
        "-ERR"@ != "CONNECT"@,
        "-ERR"@ != "PUB"@,
        "-ERR"@ != "SUB"@,
        "-ERR"@ != "UNSUB"@,
        "-ERR"@ != "MSG"@,
        "-ERR"@ != "PING"@,
        "-ERR"@ != "PONG"@,
        "-ERR"@ != "+OK"@,
{
    lemma_verbs();
    assert("INFO"@[0] == 'I' && "CONNECT"@[0] == 'C' && "PUB"@[0] == 'P' && "SUB"@[0] == 'S');
    assert("UNSUB"@[0] == 'U' && "MSG"@[0] == 'M' && "+OK"@[0] == '+' && "-ERR"@[0] == '-');
    assert("PUB"@[1] == 'U' && "PING"@[1] == 'I' && "PONG"@[1] == 'O');
    assert("PING"@[0] == 'P' && "PONG"@[0] == 'P');
}

/// A verb is in upper case and holds no space.
pub proof fn lemma_verb_upper(v: Seq<char>)
    requires
        is_verb(v),
    ensures
        text::upper(v) == v,
        forall|i: int| 0 <= i < v.len() ==> #[trigger] v[i] != ' ',
        on_one_line(v),
        v.len() > 0,
{
    lemma_verbs();
    assert(text::upper(v) =~= v);
}

/// The line that opens with a verb, a space and what follows it.
pub proof fn lemma_said(v: Seq<char>, rest: Seq<char>)
    requires
        is_verb(v),
    ensures
        wire::head_said(v + seq![' '] + rest) == wire::head_of(v, rest),
{
    lemma_verb_upper(v);
    lemma_verb(v + seq![' '] + rest, v, rest);
}

/// The line that is a verb and nothing else.
pub proof fn lemma_said_bare(v: Seq<char>)
    requires
        is_verb(v),
    ensures
        wire::head_said(v) == wire::head_of(v, Seq::empty()),
{
    lemma_verb_upper(v);
    lemma_verb_len(v, v.len());
    assert(v.take(v.len() as int) =~= v);
}

/// The verb that `line` opens with.
pub open spec fn verb_of(line: LineModel) -> Seq<char> {
    match line {
        LineModel::Info(json) => "INFO"@,
        LineModel::Connect(json) => "CONNECT"@,
        LineModel::Pub { subject, reply, payload } => "PUB"@,
        LineModel::Sub { subject, queue, sid } => "SUB"@,
        LineModel::Unsub { sid } => "UNSUB"@,
        LineModel::Msg { subject, sid, reply, payload } => "MSG"@,
        LineModel::Ping => "PING"@,
        LineModel::Pong => "PONG"@,
        LineModel::PlusOk => "+OK"@,
        LineModel::MinusErr(message) => "-ERR"@,
    }
}

/// What `line` says after its verb and a space, if it says anything.
pub open spec fn rest_of(line: LineModel) -> Option<Seq<char>> {
    match line {
        LineModel::Info(json) => Some(json),
        LineModel::Connect(json) => Some(json),
        LineModel::Pub { subject, reply, payload } => Some(
            subject + " "@ + wire::word_and_space(reply) + text::decimal(payload.len()),
        ),
        LineModel::Sub { subject, queue, sid } => Some(
            subject + " "@ + wire::word_and_space(queue) + sid,
        ),
        LineModel::Unsub { sid } => Some(sid),
        LineModel::Msg { subject, sid, reply, payload } => Some(
            subject + seq![' '] + (sid + " "@ + wire::word_and_space(reply) + text::decimal(
                payload.len(),
            )),
        ),
        LineModel::MinusErr(message) => Some(seq!['\''] + message + seq!['\'']),
        _ => None,
    }
}

/// A line's text is its verb, and after a space the rest.
pub proof fn lemma_line_text(line: LineModel)
    ensures
        is_verb(verb_of(line)),
        wire::line_text(line) == match rest_of(line) {
            Some(rest) => verb_of(line) + seq![' '] + rest,
            None => verb_of(line),
        },
{
    lemma_verbs();
    match line {
        LineModel::Info(json) => {
            reveal_strlit("INFO ");
            assert("INFO "@ =~= "INFO"@ + seq![' ']);
        },
        LineModel::Connect(json) => {
            reveal_strlit("CONNECT ");
            assert("CONNECT "@ =~= "CONNECT"@ + seq![' ']);
        },
        LineModel::Pub { subject, reply, payload } => {
            reveal_strlit("PUB ");
            assert("PUB "@ =~= "PUB"@ + seq![' ']);
            let start = "PUB"@ + seq![' '];
            let (a, b) = (wire::word_and_space(reply), text::decimal(payload.len()));
            assert(start + subject + " "@ + a + b =~= start + (subject + " "@ + a + b));
        },
        LineModel::Sub { subject, queue, sid } => {
            reveal_strlit("SUB ");
            assert("SUB "@ =~= "SUB"@ + seq![' ']);
            let start = "SUB"@ + seq![' '];
            let a = wire::word_and_space(queue);
            assert(start + subject + " "@ + a + sid =~= start + (subject + " "@ + a + sid));
        },
        LineModel::Unsub { sid } => {
            reveal_strlit("UNSUB ");
            assert("UNSUB "@ =~= "UNSUB"@ + seq![' ']);
        },
        LineModel::Msg { subject, sid, reply, payload } => {
            reveal_strlit("MSG ");
            reveal_strlit(" ");
            assert("MSG "@ =~= "MSG"@ + seq![' ']);
            assert(" "@ =~= seq![' ']);
            let start = "MSG"@ + seq![' '];
            let (a, b) = (wire::word_and_space(reply), text::decimal(payload.len()));
            assert(start + subject + " "@ + sid + " "@ + a + b =~= start + (subject + seq![' '] + (
            sid + " "@ + a + b)));
        },
        LineModel::MinusErr(message) => {
            reveal_strlit("-ERR '");
            reveal_strlit("'");
            assert("-ERR '"@ =~= "-ERR"@ + seq![' '] + seq!['\'']);
            assert("'"@ =~= seq!['\'']);
            assert("-ERR"@ + seq![' '] + seq!['\''] + message + seq!['\''] =~= "-ERR"@ + seq![' ']
                + (seq!['\''] + message + seq!['\'']));
        },
        _ => {},
    }
}

proof fn lemma_one_line(a: Seq<char>, b: Seq<char>)
    requires
        on_one_line(a),
        on_one_line(b),
    ensures
        on_one_line(a + b),
{
}

/// Nothing that a sound line says after its verb is a line feed.
proof fn lemma_rest_on_one_line(line: LineModel)
    requires
        is_sound(line),
    ensures
        rest_of(line) matches Some(rest) ==> on_one_line(rest),
{
    reveal_strlit(" ");
    match line {
        LineModel::Pub { subject, reply, payload } => {
            text::lemma_decimal(payload.len());
            lemma_words_on_one_line(subject, reply, text::decimal(payload.len()));
        },
        LineModel::Sub { subject, queue, sid } => {
            lemma_words_on_one_line(subject, queue, sid);
        },
        LineModel::Msg { subject, sid, reply, payload } => {
            text::lemma_decimal(payload.len());
            lemma_words_on_one_line(sid, reply, text::decimal(payload.len()));
            let last = sid + " "@ + wire::word_and_space(reply) + text::decimal(payload.len());
            lemma_one_line(subject + seq![' '], last);
        },
        _ => {},
    }
}

proof fn lemma_words_on_one_line(w: Seq<char>, middle: Option<Seq<char>>, last: Seq<char>)
    requires
        text::is_word(w),
        is_word_or_absent(middle),
        text::is_word(last),
    ensures
        on_one_line(w + " "@ + wire::word_and_space(middle) + last),
{
    reveal_strlit(" ");
    lemma_one_line(w, " "@);
    match middle {
        Some(m) => {
            lemma_one_line(m, " "@);
        },
        None => {},
    }
    lemma_one_line(w + " "@, wire::word_and_space(middle));
    lemma_one_line(w + " "@ + wire::word_and_space(middle), last);
}

/// The verb and the rest of a sound line say the line's own head.
proof fn lemma_head_of(line: LineModel)
    requires
        is_sound(line),
    ensures
        wire::head_of(
            verb_of(line),
            match rest_of(line) {
                Some(rest) => rest,
                None => Seq::empty(),
            },
        ) == Ok::<_, ErrorModel>(head_of_line(line)),
{
    lemma_verbs_differ();
    match line {
        LineModel::Info(json) => {
            text::lemma_trim(json, Edge::White);
        },
        LineModel::Connect(json) => {
            text::lemma_trim(json, Edge::White);
        },
        LineModel::Pub { subject, reply, payload } => {
            text::lemma_decimal(payload.len());
            lemma_words_between(subject, reply, text::decimal(payload.len()));
        },
        LineModel::Sub { subject, queue, sid } => {
            lemma_words_between(subject, queue, sid);
        },
        LineModel::Unsub { sid } => {
            if sid.len() == 0 {
                assert(sid =~= Seq::empty());
            } else {
                lemma_words_last(sid);
            }
        },
        LineModel::Msg { subject, sid, reply, payload } => {
            text::lemma_decimal(payload.len());
            let number = text::decimal(payload.len());
            lemma_words_between(sid, reply, number);
            lemma_words_first(subject, sid + " "@ + wire::word_and_space(reply) + number);
            match reply {
                Some(r) => {
                    assert(seq![subject] + seq![sid, r, number] =~= seq![subject, sid, r, number]);
                },
                None => {
                    assert(seq![subject] + seq![sid, number] =~= seq![subject, sid, number]);
                },
            }
        },
        LineModel::MinusErr(message) => {
            text::lemma_trim(seq!['\''] + message + seq!['\''], Edge::White);
            lemma_unquoted(message);
        },
        _ => {},
    }
}

/// The text of a sound line says the line's own head, on one line.
pub proof fn lemma_head_reads_back(line: LineModel)
    requires
        is_sound(line),
    ensures
        wire::head_said(wire::line_text(line)) == Ok::<_, ErrorModel>(head_of_line(line)),
        on_one_line(wire::line_text(line)),
{
    lemma_line_text(line);
    lemma_verb_upper(verb_of(line));
    lemma_head_of(line);
    lemma_rest_on_one_line(line);
    match rest_of(line) {
        Some(rest) => {
            lemma_said(verb_of(line), rest);
            lemma_one_line(verb_of(line) + seq![' '], rest);
        },
        None => {
            lemma_said_bare(verb_of(line));
        },
    }
}

/// Quotes come off a message that does not begin or end with one.
pub proof fn lemma_unquoted(message: Seq<char>)
    requires
        text::is_trimmed(message, Edge::Quote),
    ensures
        text::trim(seq!['\''] + message + seq!['\''], Edge::Quote) == message,
{
    let rest = seq!['\''] + message + seq!['\''];
    let begun = message + seq!['\''];
    assert(rest.drop_first() =~= begun);
    assert(text::trim_start(rest, Edge::Quote) == text::trim_start(begun, Edge::Quote));
    if message.len() == 0 {
        assert(begun.drop_first() =~= Seq::empty());
        assert(text::trim_start(begun, Edge::Quote) == text::trim_start(
            Seq::<char>::empty(),
            Edge::Quote,
        ));
        assert(message =~= Seq::empty());
    } else {
        assert(begun.drop_last() =~= message);
        assert(text::trim_end(begun, Edge::Quote) == text::trim_end(message, Edge::Quote));
    }
}

/// What is written is read back: the bytes that a sound line is encoded as are
/// read as that line, whatever follows them and whether or not the peer has
/// closed, and nothing of what follows is taken.
pub proof fn law_encoded_line_reads_back(line: LineModel, after: Seq<u8>, closed: bool)
    requires
        is_sound(line),
    ensures
        wire::line_read(wire::encoded(line) + after, closed) == (ReadingModel::Done {
            used: wire::encoded(line).len(),
            outcome: Ok(Some(line)),
        }),
{
    let said = wire::line_text(line);
    let bytes = utf8::encode_utf8(said);
    let input = wire::encoded(line) + after;
    lemma_head_reads_back(line);
    lemma_encode_no_feed(said);
    let n = bytes.len() as int + 1;
    assert forall|i: int| 0 <= i < n implies #[trigger] input[i] != 10 by {
        if i < bytes.len() {
            assert(input[i] == bytes[i]);
        }
    }
    wire::lemma_line_len(input, n as nat);
    assert(input.take(n - 1) =~= bytes);
    utf8::encode_utf8_valid_utf8(said);
    utf8::encode_utf8_decode_utf8(said);
    match line {
        LineModel::Pub { subject, reply, payload } => {
            let end = n + 1 + payload.len();
            assert(input.subrange(n + 1, end) =~= payload);
            assert(input.subrange(end, end + 2) =~= wire::crlf());
        },
        LineModel::Msg { subject, sid, reply, payload } => {
            let end = n + 1 + payload.len();
            assert(input.subrange(n + 1, end) =~= payload);
            assert(input.subrange(end, end + 2) =~= wire::crlf());
        },
        _ => {},
    }
}

/// Every run between white space is a word.
pub proof fn lemma_words_are_words(s: Seq<char>)
    ensures
        forall|k: int| 0 <= k < text::words(s).len() ==> text::is_word(#[trigger] text::words(s)[k]),
    decreases s.len(),
{
    if s.len() > 0 {
        if text::is_white(s[0]) {
            lemma_words_are_words(s.drop_first());
            assert(text::words(s) == text::words(s.drop_first()));
        } else {
            text::lemma_word_len_bound(s);
            let n = text::word_len(s) as int;
            lemma_word_len_is_white_free(s);
            lemma_words_are_words(s.skip(n));
            let first = seq![s.take(n)];
            let rest = text::words(s.skip(n));
            assert(text::words(s) == first + rest);
            assert forall|k: int| 0 <= k < text::words(s).len() implies text::is_word(
                #[trigger] text::words(s)[k],
            ) by {
                if k == 0 {
                    assert((first + rest)[0] == s.take(n));
                } else {
                    assert((first + rest)[k] == rest[k - 1]);
                }
            }
        }
    }
}

proof fn lemma_word_len_is_white_free(s: Seq<char>)
    ensures
        text::word_len(s) <= s.len(),
        forall|i: int| 0 <= i < text::word_len(s) ==> !text::is_white(#[trigger] s[i]),
    decreases s.len(),
{
    if s.len() > 0 && !text::is_white(s[0]) {
        lemma_word_len_is_white_free(s.drop_first());
        assert forall|i: int| 0 <= i < text::word_len(s) implies !text::is_white(
            #[trigger] s[i],
        ) by {
            if i > 0 {
                assert(s[i] == s.drop_first()[i - 1]);
            }
        }
    }
}

/// Trimming puts no line feed in.
proof fn lemma_trim_on_one_line(s: Seq<char>, edge: Edge)
    requires
        on_one_line(s),
    ensures
        on_one_line(text::trim(s, edge)),
{
    lemma_trim_start_on_one_line(s, edge);
    lemma_trim_end_on_one_line(text::trim_start(s, edge), edge);
}

proof fn lemma_trim_start_on_one_line(s: Seq<char>, edge: Edge)
    requires
        on_one_line(s),
    ensures
        on_one_line(text::trim_start(s, edge)),
    decreases s.len(),
{
    if s.len() > 0 && text::on_edge(edge, s[0]) {
        assert(forall|i: int| 0 <= i < s.len() - 1 ==> s.drop_first()[i] == s[i + 1]);
        lemma_trim_start_on_one_line(s.drop_first(), edge);
    }
}

proof fn lemma_trim_end_on_one_line(s: Seq<char>, edge: Edge)
    requires
        on_one_line(s),
    ensures
        on_one_line(text::trim_end(s, edge)),
    decreases s.len(),
{
    if s.len() > 0 && text::on_edge(edge, s.last()) {
        lemma_trim_end_on_one_line(s.drop_last(), edge);
    }
}

/// A line feed is written as one byte, its own.
proof fn lemma_feed_encodes(s: Seq<char>, k: int)
    requires
        0 <= k < s.len(),
        s[k] == '\n',
    ensures
        exists|i: int|
            0 <= i < utf8::encode_utf8(s).len() && #[trigger] utf8::encode_utf8(s)[i] == 10,
    decreases s.len(),
{
    let first = utf8::encode_scalar(s[0] as u32);
    let rest = utf8::encode_utf8(s.drop_first());
    assert(utf8::encode_utf8(s) == first + rest);
    if k == 0 {
        assert(10u32 & 0x7f == 10) by (bit_vector);
        assert(first[0] == 10);
        assert((first + rest)[0] == 10);
    } else {
        assert(s.drop_first()[k - 1] == '\n');
        lemma_feed_encodes(s.drop_first(), k - 1);
        let i = choose|i: int| 0 <= i < rest.len() && rest[i] == 10;
        assert((first + rest)[first.len() + i] == 10);
    }
}

/// Bytes without a line feed decode to text without one.
pub proof fn lemma_decode_no_feed(bytes: Seq<u8>)
    requires
        utf8::valid_utf8(bytes),
        forall|i: int| 0 <= i < bytes.len() ==> #[trigger] bytes[i] != 10,
    ensures
        on_one_line(utf8::decode_utf8(bytes)),
{
    let s = utf8::decode_utf8(bytes);
    utf8::decode_utf8_encode_utf8(bytes);
    assert forall|k: int| 0 <= k < s.len() implies #[trigger] s[k] != '\n' by {
        if s[k] == '\n' {
            lemma_feed_encodes(s, k);
        }
    }
}

/// Before the line feed that ends a line there is none.
pub proof fn lemma_line_len_is_feed_free(input: Seq<u8>)
    ensures
        wire::line_len(input) <= input.len(),
        forall|i: int| 0 <= i < wire::line_len(input) ==> #[trigger] input[i] != 10,
        wire::line_len(input) < input.len() ==> input[wire::line_len(input) as int] == 10,
    decreases input.len(),
{
    if input.len() > 0 && input[0] != 10 {
        lemma_line_len_is_feed_free(input.drop_first());
        assert forall|i: int| 0 <= i < wire::line_len(input) implies #[trigger] input[i] != 10 by {
            if i > 0 {
                assert(input[i] == input.drop_first()[i - 1]);
            }
        }
    }
}

/// A head that text on one line says is sound.
proof fn lemma_head_of_is_sound(v: Seq<char>, rest: Seq<char>, payload: Seq<u8>)
    requires
        on_one_line(rest),
        payload.len() <= usize::MAX,
    ensures
        wire::head_of(v, rest) matches Ok(head) ==> is_sound(wire::completed(head, payload)),
{
    lemma_words_are_words(rest);
    text::lemma_trim(rest, Edge::White);
    lemma_trim_on_one_line(rest, Edge::White);
    let inner = text::trim(rest, Edge::White);
    text::lemma_trim(inner, Edge::Quote);
    lemma_trim_on_one_line(inner, Edge::Quote);
}

/// Whatever is read is sound: a line that reading gives, off any bytes, can be
/// encoded again and will be read back as it is.
pub proof fn law_read_line_is_sound(input: Seq<u8>, closed: bool, used: nat, line: LineModel)
    requires
        wire::line_read(input, closed) == (ReadingModel::Done { used, outcome: Ok(Some(line)) }),
    ensures
        is_sound(line),
{
    let n = wire::line_len(input) as int;
    lemma_line_len_is_feed_free(input);
    let bytes = input.take(n - 1);
    assert(forall|i: int| 0 <= i < bytes.len() ==> bytes[i] == input[i]);
    lemma_decode_no_feed(bytes);
    let s = utf8::decode_utf8(bytes);
    lemma_verb_len_bound(s);
    assert(on_one_line(wire::arguments(s)));
    let head = wire::head_said(s)->Ok_0;
    match wire::announced(head) {
        Some(length) => {
            let payload = input.subrange(n + 1, n + 1 + length);
            lemma_head_of_is_sound(text::upper(wire::verb(s)), wire::arguments(s), payload);
        },
        None => {
            lemma_head_of_is_sound(text::upper(wire::verb(s)), wire::arguments(s), Seq::empty());
        },
    }
}

proof fn lemma_verb_len_bound(s: Seq<char>)
    ensures
        wire::verb_len(s) <= s.len(),
    decreases s.len(),
{
    if s.len() > 0 && s[0] != ' ' {
        lemma_verb_len_bound(s.drop_first());
    }
}

/// Bytes that arrive later change nothing: once a line has been read, or
/// refused, it would have been read or refused the same with more behind it.
pub proof fn law_later_bytes_change_nothing(input: Seq<u8>, more: Seq<u8>, closed: bool)
    requires
        wire::line_read(input, false) is Done,
    ensures
        wire::line_read(input + more, closed) == wire::line_read(input, false),
{
    let n = wire::line_len(input) as int;
    let longer = input + more;
    lemma_line_len_is_feed_free(input);
    assert(forall|i: int| 0 <= i < input.len() ==> longer[i] == input[i]);
    wire::lemma_line_len(longer, n as nat);
    if n > 0 && input[n - 1] == 13 {
        assert(longer.take(n - 1) =~= input.take(n - 1));
        if let Ok(head) = wire::head_in(input.take(n - 1)) {
            if let Some(length) = wire::announced(head) {
                let end = n + 1 + length;
                assert(longer.subrange(n + 1, end) =~= input.subrange(n + 1, end));
                assert(longer.subrange(end, end + 2) =~= input.subrange(end, end + 2));
            }
        }
    }
}

/// A line cut short is never taken for a line: of the bytes of a sound line,
/// fewer than all are waited on, and where the peer has closed they are refused,
/// unless there are none.
pub proof fn law_line_cut_short_is_not_a_line(line: LineModel, n: int)
    requires
        is_sound(line),
        0 <= n < wire::encoded(line).len(),
    ensures
        wire::line_read(wire::encoded(line).take(n), false) is More,
        n == 0 ==> wire::line_read(wire::encoded(line).take(n), true) == (ReadingModel::Done {
            used: 0,
            outcome: Ok(None),
        }),
        n > 0 ==> {
            ||| wire::line_read(wire::encoded(line).take(n), true) == (ReadingModel::Done {
                used: n as nat,
                outcome: Err(ErrorModel::NoCrlf),
            })
            ||| wire::line_read(wire::encoded(line).take(n), true) == (ReadingModel::Done {
                used: n as nat,
                outcome: Err(ErrorModel::ShortPayload),
            })
        },
{
    let all = wire::encoded(line);
    let cut = all.take(n);
    assert(all =~= cut + all.skip(n));
    assert(all =~= all + Seq::empty());
    law_encoded_line_reads_back(line, Seq::empty(), false);
    law_reading_makes_headway(cut, false);
    if wire::line_read(cut, false) is Done {
        law_later_bytes_change_nothing(cut, all.skip(n), false);
    }
    lemma_line_len_is_feed_free(cut);
}

/// Reading takes no more than is there, and makes headway unless nothing is left.
pub proof fn law_reading_makes_headway(input: Seq<u8>, closed: bool)
    ensures
        wire::line_read(input, closed) matches ReadingModel::Done { used, outcome } ==> used
            <= input.len() && (used == 0 ==> input.len() == 0 && outcome == Ok::<
            Option<LineModel>,
            ErrorModel,
        >(None)),
{
    lemma_line_len_is_feed_free(input);
}

/// The verb's case does not matter: two lines that differ only in the case of
/// their verbs say the same.
pub proof fn law_verb_case_does_not_matter(v: Seq<char>, w: Seq<char>, rest: Seq<char>)
    requires
        text::upper(v) == text::upper(w),
        forall|i: int| 0 <= i < v.len() ==> #[trigger] v[i] != ' ',
    ensures
        wire::head_said(v + seq![' '] + rest) == wire::head_said(w + seq![' '] + rest),
        wire::head_said(v) == wire::head_said(w),
{
    assert(v.len() == text::upper(v).len() && w.len() == text::upper(w).len());
    assert forall|i: int| 0 <= i < w.len() implies #[trigger] w[i] != ' ' by {
        assert(text::upper(w)[i] == text::upper_char(w[i]));
        assert(text::upper(v)[i] == text::upper_char(v[i]));
        assert(v[i] != ' ');
    }
    lemma_verb(v + seq![' '] + rest, v, rest);
    lemma_verb(w + seq![' '] + rest, w, rest);
    lemma_verb_len(v, v.len());
    lemma_verb_len(w, w.len());
    assert(v.take(v.len() as int) =~= v);
    assert(w.take(w.len() as int) =~= w);
}

/// Lines on the wire one after the other.
pub open spec fn encoded_all(lines: Seq<LineModel>) -> Seq<u8>
    decreases lines.len(),
{
    if lines.len() == 0 {
        Seq::empty()
    } else {
        wire::encoded(lines[0]) + encoded_all(lines.drop_first())
    }
}

/// The lines that reading one after the other gives off `input`, up to where
/// the peer closed or a line is refused.
pub open spec fn read_all(input: Seq<u8>) -> Seq<LineModel>
    decreases input.len(),
{
    match wire::line_read(input, true) {
        ReadingModel::Done { used, outcome: Ok(Some(line)) } => if 0 < used <= input.len() {
            seq![line] + read_all(input.skip(used as int))
        } else {
            Seq::empty()
        },
        _ => Seq::empty(),
    }
}

/// Reading on after one line.
proof fn lemma_read_all_step(input: Seq<u8>, used: nat, line: LineModel)
    requires
        wire::line_read(input, true) == (ReadingModel::Done { used, outcome: Ok(Some(line)) }),
        0 < used <= input.len(),
    ensures
        read_all(input) == seq![line] + read_all(input.skip(used as int)),
{
}

/// Nothing is read where nothing is left.
proof fn lemma_read_all_end()
    ensures
        read_all(Seq::empty()) == Seq::<LineModel>::empty(),
{
}

/// A whole conversation is read back: sound lines written one after the other
/// are read as those lines, all of them and in order.
pub proof fn law_lines_read_back_in_order(lines: Seq<LineModel>)
    requires
        forall|i: int| 0 <= i < lines.len() ==> is_sound(#[trigger] lines[i]),
    ensures
        read_all(encoded_all(lines)) == lines,
    decreases lines.len(),
{
    if lines.len() == 0 {
        lemma_read_all_end();
        assert(lines =~= Seq::empty());
    } else {
        let first = wire::encoded(lines[0]);
        let rest = encoded_all(lines.drop_first());
        assert(is_sound(lines[0]));
        assert forall|i: int| 0 <= i < lines.drop_first().len() implies is_sound(
            #[trigger] lines.drop_first()[i],
        ) by {
            assert(lines.drop_first()[i] == lines[i + 1]);
        }
        law_lines_read_back_in_order(lines.drop_first());
        law_encoded_line_reads_back(lines[0], rest, true);
        lemma_read_all_step(first + rest, first.len(), lines[0]);
        assert((first + rest).skip(first.len() as int) =~= rest);
        assert(seq![lines[0]] + lines.drop_first() =~= lines);
    }
}

} // verus!
