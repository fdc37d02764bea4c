//! The protocol on the wire: one line, CRLF-terminated, and a payload after PUB
//! and MSG whose length the line already said.
//!
//! Text, deliberately: the protocol is meant to be read by a person with
//! `telnet`. The JSON that INFO and CONNECT carry is passed through as text;
//! nothing here reads it.

use crate::error::Error;
use crate::error::ErrorModel;
use crate::text;
use crate::text::Edge;
use vstd::prelude::*;
use vstd::slice::slice_subrange;
use vstd::slice::slice_to_vec;
use vstd::utf8;

verus! {

/// One protocol line, either direction.
#[derive(Clone, Debug, PartialEq, Eq)]
pub enum Line {
    /// Server to client, first thing.
    Info(String),
    /// Client to server, in answer to INFO.
    Connect(String),
    Pub { subject: String, reply: Option<String>, payload: Vec<u8> },
    Sub { subject: String, queue: Option<String>, sid: String },
    Unsub { sid: String },
    Msg { subject: String, sid: String, reply: Option<String>, payload: Vec<u8> },
    Ping,
    Pong,
    /// `+OK`.
    PlusOk,
    /// `-ERR`, and what it says between its quotes.
    MinusErr(String),
}

/// A line with its texts and payload as sequences.
pub enum LineModel {
    Info(Seq<char>),
    Connect(Seq<char>),
    Pub { subject: Seq<char>, reply: Option<Seq<char>>, payload: Seq<u8> },
    Sub { subject: Seq<char>, queue: Option<Seq<char>>, sid: Seq<char> },
    Unsub { sid: Seq<char> },
    Msg { subject: Seq<char>, sid: Seq<char>, reply: Option<Seq<char>>, payload: Seq<u8> },
    Ping,
    Pong,
    PlusOk,
    MinusErr(Seq<char>),
}

/// A text that may be absent, as a sequence of characters.
pub open spec fn optional(text: Option<String>) -> Option<Seq<char>> {
    match text {
        Some(text) => Some(text@),
        None => None,
    }
}

impl View for Line {
    type V = LineModel;

    open spec fn view(&self) -> LineModel {
        match *self {
            Line::Info(json) => LineModel::Info(json@),
            Line::Connect(json) => LineModel::Connect(json@),
            Line::Pub { subject, reply, payload } => LineModel::Pub {
                subject: subject@,
                reply: optional(reply),
                payload: payload@,
            },
            Line::Sub { subject, queue, sid } => LineModel::Sub {
                subject: subject@,
                queue: optional(queue),
                sid: sid@,
            },
            Line::Unsub { sid } => LineModel::Unsub { sid: sid@ },
            Line::Msg { subject, sid, reply, payload } => LineModel::Msg {
                subject: subject@,
                sid: sid@,
                reply: optional(reply),
                payload: payload@,
            },
            Line::Ping => LineModel::Ping,
            Line::Pong => LineModel::Pong,
            Line::PlusOk => LineModel::PlusOk,
            Line::MinusErr(message) => LineModel::MinusErr(message@),
        }
    }
}

/// A word that may be absent, with the space that follows it.
pub open spec fn word_and_space(word: Option<Seq<char>>) -> Seq<char> {
    match word {
        Some(word) => word + " "@,
        None => Seq::empty(),
    }
}

/// What `line` says before its CRLF.
pub open spec fn line_text(line: LineModel) -> Seq<char> {
    match line {
        LineModel::Info(json) => "INFO "@ + json,
        LineModel::Connect(json) => "CONNECT "@ + json,
        LineModel::Pub { subject, reply, payload } => "PUB "@ + subject + " "@ + word_and_space(
            reply,
        ) + text::decimal(payload.len()),
        LineModel::Sub { subject, queue, sid } => "SUB "@ + subject + " "@ + word_and_space(queue)
            + sid,
        LineModel::Unsub { sid } => "UNSUB "@ + sid,
        LineModel::Msg { subject, sid, reply, payload } => "MSG "@ + subject + " "@ + sid + " "@
            + word_and_space(reply) + text::decimal(payload.len()),
        LineModel::Ping => "PING"@,
        LineModel::Pong => "PONG"@,
        LineModel::PlusOk => "+OK"@,
        LineModel::MinusErr(message) => "-ERR '"@ + message + "'"@,
    }
}

/// Carriage return and line feed.
pub open spec fn crlf() -> Seq<u8> {
    seq![13u8, 10u8]
}

/// What follows the line: the payload and a CRLF of its own, where there is one.
pub open spec fn line_tail(line: LineModel) -> Seq<u8> {
    match line {
        LineModel::Pub { subject, reply, payload } => payload + crlf(),
        LineModel::Msg { subject, sid, reply, payload } => payload + crlf(),
        _ => Seq::empty(),
    }
}

/// `line` as bytes on the wire.
pub open spec fn encoded(line: LineModel) -> Seq<u8> {
    utf8::encode_utf8(line_text(line)) + crlf() + line_tail(line)
}

/// Put `bytes` behind what `out` holds.
fn put(out: &mut Vec<u8>, bytes: &[u8])
    ensures
        final(out)@ == old(out)@ + bytes@,
{
    out.extend_from_slice(bytes);
    assert(out@ =~= old(out)@ + bytes@);
}

/// Put a word that may be absent, and the space that follows it, behind `head`.
fn put_word(head: &mut String, word: &Option<String>)
    ensures
        final(head)@ == old(head)@ + word_and_space(optional(*word)),
{
    match word {
        Some(word) => {
            head.append(word.as_str());
            head.append(" ");
            assert(head@ =~= old(head)@ + (word@ + " "@));
        },
        None => {
            assert(head@ =~= old(head)@ + Seq::<char>::empty());
        },
    }
}

/// The text of a line that has a word which may be absent, with and without it.
proof fn lemma_optional_word(line: Line)
    ensures
        match line {
            Line::Pub { subject, reply, payload } => line_text(line@) == match reply {
                Some(reply) => "PUB "@ + subject@ + " "@ + reply@ + " "@ + text::decimal(
                    payload@.len(),
                ),
                None => "PUB "@ + subject@ + " "@ + text::decimal(payload@.len()),
            },
            Line::Sub { subject, queue, sid } => line_text(line@) == match queue {
                Some(queue) => "SUB "@ + subject@ + " "@ + queue@ + " "@ + sid@,
                None => "SUB "@ + subject@ + " "@ + sid@,
            },
            Line::Msg { subject, sid, reply, payload } => line_text(line@) == match reply {
                Some(reply) => "MSG "@ + subject@ + " "@ + sid@ + " "@ + reply@ + " "@
                    + text::decimal(payload@.len()),
                None => "MSG "@ + subject@ + " "@ + sid@ + " "@ + text::decimal(payload@.len()),
            },
            _ => true,
        },
{
    match line {
        Line::Pub { subject, reply: Some(reply), payload } => {
            assert(line_text(line@) =~= "PUB "@ + subject@ + " "@ + reply@ + " "@ + text::decimal(
                payload@.len(),
            ));
        },
        Line::Pub { subject, reply: None, payload } => {
            assert(line_text(line@) =~= "PUB "@ + subject@ + " "@ + text::decimal(payload@.len()));
        },
        Line::Sub { subject, queue: Some(queue), sid } => {
            assert(line_text(line@) =~= "SUB "@ + subject@ + " "@ + queue@ + " "@ + sid@);
        },
        Line::Sub { subject, queue: None, sid } => {
            assert(line_text(line@) =~= "SUB "@ + subject@ + " "@ + sid@);
        },
        Line::Msg { subject, sid, reply: Some(reply), payload } => {
            assert(line_text(line@) =~= "MSG "@ + subject@ + " "@ + sid@ + " "@ + reply@ + " "@
                + text::decimal(payload@.len()));
        },
        Line::Msg { subject, sid, reply: None, payload } => {
            assert(line_text(line@) =~= "MSG "@ + subject@ + " "@ + sid@ + " "@ + text::decimal(
                payload@.len(),
            ));
        },
        _ => {},
    }
}

/// `line` as bytes on the wire.
#[must_use]
pub fn encode(line: &Line) -> (res: Vec<u8>)
    ensures
        res@ == encoded(line@),
        match *line {
            Line::Info(json) => res@ == utf8::encode_utf8("INFO "@ + json@) + seq![13u8, 10u8],
            Line::Connect(json) => res@ == utf8::encode_utf8("CONNECT "@ + json@) + seq![
                13u8,
                10u8,
            ],
            Line::Pub { subject, reply: None, payload } => res@ == utf8::encode_utf8(
                "PUB "@ + subject@ + " "@ + text::decimal(payload@.len()),
            ) + seq![13u8, 10u8] + payload@ + seq![13u8, 10u8],
            Line::Pub { subject, reply: Some(reply), payload } => res@ == utf8::encode_utf8(
                "PUB "@ + subject@ + " "@ + reply@ + " "@ + text::decimal(payload@.len()),
            ) + seq![13u8, 10u8] + payload@ + seq![13u8, 10u8],
            Line::Sub { subject, queue: None, sid } => res@ == utf8::encode_utf8(
                "SUB "@ + subject@ + " "@ + sid@,
            ) + seq![13u8, 10u8],
            Line::Sub { subject, queue: Some(queue), sid } => res@ == utf8::encode_utf8(
                "SUB "@ + subject@ + " "@ + queue@ + " "@ + sid@,
            ) + seq![13u8, 10u8],
            Line::Unsub { sid } => res@ == utf8::encode_utf8("UNSUB "@ + sid@) + seq![13u8, 10u8],
            Line::Msg { subject, sid, reply: None, payload } => res@ == utf8::encode_utf8(
                "MSG "@ + subject@ + " "@ + sid@ + " "@ + text::decimal(payload@.len()),
            ) + seq![13u8, 10u8] + payload@ + seq![13u8, 10u8],
            Line::Msg { subject, sid, reply: Some(reply), payload } => res@ == utf8::encode_utf8(
                "MSG "@ + subject@ + " "@ + sid@ + " "@ + reply@ + " "@ + text::decimal(
                    payload@.len(),
                ),
            ) + seq![13u8, 10u8] + payload@ + seq![13u8, 10u8],
            Line::Ping => res@ == utf8::encode_utf8("PING"@) + seq![13u8, 10u8],
            Line::Pong => res@ == utf8::encode_utf8("PONG"@) + seq![13u8, 10u8],
            Line::PlusOk => res@ == utf8::encode_utf8("+OK"@) + seq![13u8, 10u8],
            Line::MinusErr(message) => res@ == utf8::encode_utf8("-ERR '"@ + message@ + "'"@)
                + seq![13u8, 10u8],
        },
{
    let mut head = String::new();
    match line {
        Line::Info(json) => {
            head.append("INFO ");
            head.append(json.as_str());
        },
        Line::Connect(json) => {
            head.append("CONNECT ");
            head.append(json.as_str());
        },
        Line::Pub { subject, reply, payload } => {
            head.append("PUB ");
            head.append(subject.as_str());
            head.append(" ");
            put_word(&mut head, reply);
            head.append(text::decimal_text(payload.len() as u64).as_str());
        },
        Line::Sub { subject, queue, sid } => {
            head.append("SUB ");
            head.append(subject.as_str());
            head.append(" ");
            put_word(&mut head, queue);
            head.append(sid.as_str());
        },
        Line::Unsub { sid } => {
            head.append("UNSUB ");
            head.append(sid.as_str());
        },
        Line::Msg { subject, sid, reply, payload } => {
            head.append("MSG ");
            head.append(subject.as_str());
            head.append(" ");
            head.append(sid.as_str());
            head.append(" ");
            put_word(&mut head, reply);
            head.append(text::decimal_text(payload.len() as u64).as_str());
        },
        Line::Ping => head.append("PING"),
        Line::Pong => head.append("PONG"),
        Line::PlusOk => head.append("+OK"),
        Line::MinusErr(message) => {
            head.append("-ERR '");
            head.append(message.as_str());
            head.append("'");
        },
    }
    assert(head@ =~= line_text(line@));
    let mut out: Vec<u8> = Vec::new();
    put(&mut out, head.as_str().as_bytes());
    out.push(13);
    out.push(10);
    match line {
        Line::Pub { payload, .. } | Line::Msg { payload, .. } => {
            put(&mut out, payload.as_slice());
            out.push(13);
            out.push(10);
        },
        _ => {},
    }
    assert(out@ =~= encoded(line@));
    proof {
        lemma_optional_word(*line);
    }
    out
}

/// A line as far as it goes before a payload: whole, or with the length of the
/// payload that is still to come.
pub enum Head {
    Whole(Line),
    Pub { subject: String, reply: Option<String>, length: usize },
    Msg { subject: String, sid: String, reply: Option<String>, length: usize },
}

/// A head with its texts as sequences of characters.
pub enum HeadModel {
    Whole(LineModel),
    Pub { subject: Seq<char>, reply: Option<Seq<char>>, length: usize },
    Msg { subject: Seq<char>, sid: Seq<char>, reply: Option<Seq<char>>, length: usize },
}

impl View for Head {
    type V = HeadModel;

    open spec fn view(&self) -> HeadModel {
        match *self {
            Head::Whole(line) => HeadModel::Whole(line@),
            Head::Pub { subject, reply, length } => HeadModel::Pub {
                subject: subject@,
                reply: optional(reply),
                length,
            },
            Head::Msg { subject, sid, reply, length } => HeadModel::Msg {
                subject: subject@,
                sid: sid@,
                reply: optional(reply),
                length,
            },
        }
    }
}

/// What became of reading a head.
pub open spec fn head_result(res: Result<Head, Error>) -> Result<HeadModel, ErrorModel> {
    match res {
        Ok(head) => Ok(head@),
        Err(error) => Err(error@),
    }
}

/// How many characters of `s` stand before its first space.
pub open spec fn verb_len(s: Seq<char>) -> nat
    decreases s.len(),
{
    if s.len() == 0 || s[0] == ' ' {
        0
    } else {
        1 + verb_len(s.drop_first())
    }
}

/// What a line opens with, up to its first space.
pub open spec fn verb(s: Seq<char>) -> Seq<char> {
    s.take(verb_len(s) as int)
}

/// What a line says after its first space.
pub open spec fn arguments(s: Seq<char>) -> Seq<char> {
    if verb_len(s) < s.len() {
        s.skip(verb_len(s) as int + 1)
    } else {
        Seq::empty()
    }
}

/// A PUB whose length is written as `length`.
pub open spec fn pub_head(
    subject: Seq<char>,
    reply: Option<Seq<char>>,
    length: Seq<char>,
) -> Result<HeadModel, ErrorModel> {
    match text::number(length) {
        Some(length) => Ok(HeadModel::Pub { subject, reply, length }),
        None => Err(ErrorModel::BadLength(length)),
    }
}

/// A MSG whose length is written as `length`.
pub open spec fn msg_head(
    subject: Seq<char>,
    sid: Seq<char>,
    reply: Option<Seq<char>>,
    length: Seq<char>,
) -> Result<HeadModel, ErrorModel> {
    match text::number(length) {
        Some(length) => Ok(HeadModel::Msg { subject, sid, reply, length }),
        None => Err(ErrorModel::BadLength(length)),
    }
}

/// The head that a line's text says, the verb in either case.
pub open spec fn head_said(s: Seq<char>) -> Result<HeadModel, ErrorModel> {
    head_of(text::upper(verb(s)), arguments(s))
}

/// The head that `verb`, in upper case, and what follows it say.
pub open spec fn head_of(verb: Seq<char>, rest: Seq<char>) -> Result<HeadModel, ErrorModel> {
    let words = text::words(rest);
    if verb == "INFO"@ {
        Ok(HeadModel::Whole(LineModel::Info(text::trim(rest, Edge::White))))
    } else if verb == "CONNECT"@ {
        Ok(HeadModel::Whole(LineModel::Connect(text::trim(rest, Edge::White))))
    } else if verb == "PUB"@ {
        if words.len() == 2 {
            pub_head(words[0], None, words[1])
        } else if words.len() == 3 {
            pub_head(words[0], Some(words[1]), words[2])
        } else {
            Err(ErrorModel::BadPub)
        }
    } else if verb == "SUB"@ {
        if words.len() == 2 {
            Ok(
                HeadModel::Whole(
                    LineModel::Sub { subject: words[0], queue: None, sid: words[1] },
                ),
            )
        } else if words.len() == 3 {
            Ok(
                HeadModel::Whole(
                    LineModel::Sub { subject: words[0], queue: Some(words[1]), sid: words[2] },
                ),
            )
        } else {
            Err(ErrorModel::BadSub)
        }
    } else if verb == "UNSUB"@ {
        Ok(
            HeadModel::Whole(
                LineModel::Unsub {
                    sid: if words.len() == 0 {
                        Seq::empty()
                    } else {
                        words[0]
                    },
                },
            ),
        )
    } else if verb == "MSG"@ {
        if words.len() == 3 {
            msg_head(words[0], words[1], None, words[2])
        } else if words.len() == 4 {
            msg_head(words[0], words[1], Some(words[2]), words[3])
        } else {
            Err(ErrorModel::BadMsg)
        }
    } else if verb == "PING"@ {
        Ok(HeadModel::Whole(LineModel::Ping))
    } else if verb == "PONG"@ {
        Ok(HeadModel::Whole(LineModel::Pong))
    } else if verb == "+OK"@ {
        Ok(HeadModel::Whole(LineModel::PlusOk))
    } else if verb == "-ERR"@ {
        Ok(
            HeadModel::Whole(
                LineModel::MinusErr(text::trim(text::trim(rest, Edge::White), Edge::Quote)),
            ),
        )
    } else {
        Err(ErrorModel::UnknownVerb(verb))
    }
}

/// The characters of `s` between `from` and `to`, as a text of their own.
fn part(s: &str, from: usize, to: usize) -> (res: String)
    requires
        from <= to <= s@.len(),
    ensures
        res@ == s@.subrange(from as int, to as int),
{
    s.substring_char(from, to).to_owned()
}

/// The head that a line's text says.
pub fn head(s: &str) -> (res: Result<Head, Error>)
    ensures
        head_result(res) == head_said(s@),
{
    let cs = text::chars(s);
    let n = cs.len();
    let mut k: usize = 0;
    assert(s@.skip(0) =~= s@);
    while k < n && cs[k] != ' '
        invariant
            k <= n == cs@.len(),
            cs@ == s@,
            verb_len(s@) == k + verb_len(s@.skip(k as int)),
        decreases n - k,
    {
        assert(s@.skip(k as int).drop_first() =~= s@.skip(k + 1));
        k = k + 1;
    }
    assert(verb_len(s@) == k);
    let verb = s.substring_char(0, k).to_ascii_uppercase();
    let verb = verb.as_str();
    let from: usize = if k < n {
        k + 1
    } else {
        n
    };
    let ghost rest = arguments(s@);
    assert(rest =~= cs@.skip(from as int));
    assert(rest =~= cs@.subrange(from as int, n as int));
    if text::same(verb, "INFO") {
        let (a, b) = text::trim_range(&cs, from, n, Edge::White);
        Ok(Head::Whole(Line::Info(part(s, a, b))))
    } else if text::same(verb, "CONNECT") {
        let (a, b) = text::trim_range(&cs, from, n, Edge::White);
        Ok(Head::Whole(Line::Connect(part(s, a, b))))
    } else if text::same(verb, "PUB") {
        let words = text::word_ranges(&cs, from);
        if words.len() != 2 && words.len() != 3 {
            return Err(Error::BadPub);
        }
        let last = words[words.len() - 1];
        let length = match text::number_in(&cs, last.0, last.1) {
            Some(length) => length,
            None => {
                return Err(Error::BadLength(part(s, last.0, last.1)));
            },
        };
        let reply = if words.len() == 3 {
            Some(part(s, words[1].0, words[1].1))
        } else {
            None
        };
        Ok(Head::Pub { subject: part(s, words[0].0, words[0].1), reply, length })
    } else if text::same(verb, "SUB") {
        let words = text::word_ranges(&cs, from);
        if words.len() != 2 && words.len() != 3 {
            return Err(Error::BadSub);
        }
        let last = words[words.len() - 1];
        let queue = if words.len() == 3 {
            Some(part(s, words[1].0, words[1].1))
        } else {
            None
        };
        Ok(
            Head::Whole(
                Line::Sub {
                    subject: part(s, words[0].0, words[0].1),
                    queue,
                    sid: part(s, last.0, last.1),
                },
            ),
        )
    } else if text::same(verb, "UNSUB") {
        let words = text::word_ranges(&cs, from);
        let sid = if words.len() == 0 {
            String::new()
        } else {
            part(s, words[0].0, words[0].1)
        };
        Ok(Head::Whole(Line::Unsub { sid }))
    } else if text::same(verb, "MSG") {
        let words = text::word_ranges(&cs, from);
        if words.len() != 3 && words.len() != 4 {
            return Err(Error::BadMsg);
        }
        let last = words[words.len() - 1];
        let length = match text::number_in(&cs, last.0, last.1) {
            Some(length) => length,
            None => {
                return Err(Error::BadLength(part(s, last.0, last.1)));
            },
        };
        let reply = if words.len() == 4 {
            Some(part(s, words[2].0, words[2].1))
        } else {
            None
        };
        Ok(
            Head::Msg {
                subject: part(s, words[0].0, words[0].1),
                sid: part(s, words[1].0, words[1].1),
                reply,
                length,
            },
        )
    } else if text::same(verb, "PING") {
        Ok(Head::Whole(Line::Ping))
    } else if text::same(verb, "PONG") {
        Ok(Head::Whole(Line::Pong))
    } else if text::same(verb, "+OK") {
        Ok(Head::Whole(Line::PlusOk))
    } else if text::same(verb, "-ERR") {
        let (a, b) = text::trim_range(&cs, from, n, Edge::White);
        let (a, b) = text::trim_range(&cs, a, b, Edge::Quote);
        Ok(Head::Whole(Line::MinusErr(part(s, a, b))))
    } else {
        Err(Error::UnknownVerb(verb.to_owned()))
    }
}

/// What a reader waits for when a line has not arrived whole.
#[derive(Clone, Copy, Debug, PartialEq, Eq, Structural)]
pub enum Part {
    /// The end of the protocol line.
    Line,
    /// The rest of the payload.
    Payload,
}

/// What became of reading one line.
#[derive(Debug, PartialEq, Eq)]
pub enum Reading {
    /// The bytes at hand do not decide it; this part of the line is not over.
    More(Part),
    /// One line, or `None` where the peer closed between lines, or what is wrong
    /// with it; and how many of the bytes at hand it took.
    Done { used: usize, outcome: Result<Option<Line>, Error> },
}

/// A reading with its line and error as models.
pub enum ReadingModel {
    More(Part),
    Done { used: nat, outcome: Result<Option<LineModel>, ErrorModel> },
}

impl View for Reading {
    type V = ReadingModel;

    open spec fn view(&self) -> ReadingModel {
        match *self {
            Reading::More(part) => ReadingModel::More(part),
            Reading::Done { used, outcome } => ReadingModel::Done {
                used: used as nat,
                outcome: match outcome {
                    Ok(Some(line)) => Ok(Some(line@)),
                    Ok(None) => Ok(None),
                    Err(error) => Err(error@),
                },
            },
        }
    }
}

/// How many bytes of `input` stand before its first line feed.
pub open spec fn line_len(input: Seq<u8>) -> nat
    decreases input.len(),
{
    if input.len() == 0 || input[0] == 10 {
        0
    } else {
        1 + line_len(input.drop_first())
    }
}

/// The head that the bytes of a line, without its CRLF, say.
pub open spec fn head_in(bytes: Seq<u8>) -> Result<HeadModel, ErrorModel> {
    if utf8::valid_utf8(bytes) {
        head_said(utf8::decode_utf8(bytes))
    } else {
        Err(ErrorModel::NotUtf8)
    }
}

/// How long the payload is that `head` announces, if it announces one.
pub open spec fn announced(head: HeadModel) -> Option<usize> {
    match head {
        HeadModel::Whole(line) => None,
        HeadModel::Pub { subject, reply, length } => Some(length),
        HeadModel::Msg { subject, sid, reply, length } => Some(length),
    }
}

/// The line that `head` is, once `payload` has followed it.
pub open spec fn completed(head: HeadModel, payload: Seq<u8>) -> LineModel {
    match head {
        HeadModel::Whole(line) => line,
        HeadModel::Pub { subject, reply, length } => LineModel::Pub { subject, reply, payload },
        HeadModel::Msg { subject, sid, reply, length } => LineModel::Msg {
            subject,
            sid,
            reply,
            payload,
        },
    }
}

/// What reading the payload of `length` bytes that `head` announces comes to,
/// where it begins at `at` in `input`.
pub open spec fn payload_read(
    head: HeadModel,
    length: usize,
    input: Seq<u8>,
    at: int,
    closed: bool,
) -> ReadingModel {
    let end = at + length;
    if end + 2 > input.len() {
        if closed {
            ReadingModel::Done { used: input.len(), outcome: Err(ErrorModel::ShortPayload) }
        } else {
            ReadingModel::More(Part::Payload)
        }
    } else if input.subrange(end, end + 2) == crlf() {
        ReadingModel::Done {
            used: (end + 2) as nat,
            outcome: Ok(Some(completed(head, input.subrange(at, end)))),
        }
    } else {
        ReadingModel::Done { used: (end + 2) as nat, outcome: Err(ErrorModel::PayloadNoCrlf) }
    }
}

/// What reading one line off `input` comes to; `closed` where nothing will
/// follow `input`.
pub open spec fn line_read(input: Seq<u8>, closed: bool) -> ReadingModel {
    let n = line_len(input) as int;
    if n == input.len() {
        if !closed {
            ReadingModel::More(Part::Line)
        } else if n == 0 {
            ReadingModel::Done { used: 0, outcome: Ok(None) }
        } else {
            ReadingModel::Done { used: n as nat, outcome: Err(ErrorModel::NoCrlf) }
        }
    } else if n == 0 || input[n - 1] != 13 {
        ReadingModel::Done { used: (n + 1) as nat, outcome: Err(ErrorModel::NoCrlf) }
    } else {
        match head_in(input.take(n - 1)) {
            Err(error) => ReadingModel::Done { used: (n + 1) as nat, outcome: Err(error) },
            Ok(head) => match announced(head) {
                None => ReadingModel::Done {
                    used: (n + 1) as nat,
                    outcome: Ok(Some(completed(head, Seq::empty()))),
                },
                Some(length) => payload_read(head, length, input, n + 1, closed),
            },
        }
    }
}

/// `line_len` is where the first line feed stands, or the end.
pub proof fn lemma_line_len(input: Seq<u8>, n: nat)
    requires
        n <= input.len(),
        forall|i: int| 0 <= i < n ==> #[trigger] input[i] != 10,
        n < input.len() ==> input[n as int] == 10,
    ensures
        line_len(input) == n,
    decreases n,
{
    if n > 0 {
        assert(forall|i: int| 0 <= i < n - 1 ==> input.drop_first()[i] == input[i + 1]);
        lemma_line_len(input.drop_first(), (n - 1) as nat);
    }
}

impl Head {
    /// How long the payload is that is still to come, if there is one.
    pub fn length(&self) -> (res: Option<usize>)
        ensures
            res == announced(self@),
    {
        match self {
            Head::Whole(_) => None,
            Head::Pub { length, .. } => Some(*length),
            Head::Msg { length, .. } => Some(*length),
        }
    }

    /// The line, once its payload has come.
    pub fn complete(self, payload: Vec<u8>) -> (res: Line)
        ensures
            res@ == completed(self@, payload@),
    {
        match self {
            Head::Whole(line) => line,
            Head::Pub { subject, reply, length: _ } => Line::Pub { subject, reply, payload },
            Head::Msg { subject, sid, reply, length: _ } => Line::Msg {
                subject,
                sid,
                reply,
                payload,
            },
        }
    }
}

/// `String::from_utf8`: the text that `bytes` encode, or `None` (an error there)
/// where they are not UTF-8.
#[verifier::external_body]
fn text_of(bytes: Vec<u8>) -> (res: Option<String>)
    ensures
        res is Some <==> utf8::valid_utf8(bytes@),
        res matches Some(s) ==> s@ == utf8::decode_utf8(bytes@),
{
    String::from_utf8(bytes).ok()
}

/// The payload of `length` bytes at `at`, and the CRLF behind it.
fn payload(head: Head, length: usize, input: &[u8], at: usize, closed: bool) -> (res: Reading)
    requires
        at <= input@.len(),
        announced(head@) == Some(length),
    ensures
        res@ == payload_read(head@, length, input@, at as int, closed),
{
    let have: usize = input.len() - at;
    if have < 2 || have - 2 < length {
        if closed {
            return Reading::Done { used: input.len(), outcome: Err(Error::ShortPayload) };
        } else {
            return Reading::More(Part::Payload);
        }
    }
    let end: usize = at + length;
    if input[end] != 13 || input[end + 1] != 10 {
        assert(input@.subrange(end as int, end + 2)[0] == input@[end as int]);
        assert(input@.subrange(end as int, end + 2)[1] == input@[end + 1]);
        return Reading::Done { used: end + 2, outcome: Err(Error::PayloadNoCrlf) };
    }
    assert(input@.subrange(end as int, end + 2) =~= crlf());
    let payload = slice_to_vec(slice_subrange(input, at, end));
    Reading::Done { used: end + 2, outcome: Ok(Some(head.complete(payload))) }
}

/// Read one line and its payload off `input`, the bytes that have arrived and
/// were not read yet; `closed` where the peer has closed and nothing will
/// follow them.
pub fn read(input: &[u8], closed: bool) -> (res: Reading)
    ensures
        res@ == line_read(input@, closed),
{
    let mut n: usize = 0;
    while n < input.len() && input[n] != 10
        invariant
            n <= input@.len(),
            forall|i: int| 0 <= i < n ==> #[trigger] input@[i] != 10,
        decreases input@.len() - n,
    {
        n = n + 1;
    }
    proof {
        lemma_line_len(input@, n as nat);
    }
    if n == input.len() {
        if !closed {
            return Reading::More(Part::Line);
        } else if n == 0 {
            return Reading::Done { used: 0, outcome: Ok(None) };
        } else {
            return Reading::Done { used: n, outcome: Err(Error::NoCrlf) };
        }
    }
    if n == 0 || input[n - 1] != 13 {
        return Reading::Done { used: n + 1, outcome: Err(Error::NoCrlf) };
    }
    let bytes = slice_to_vec(slice_subrange(input, 0, n - 1));
    assert(bytes@ =~= input@.take(n - 1));
    let said = match text_of(bytes) {
        Some(said) => said,
        None => {
            return Reading::Done { used: n + 1, outcome: Err(Error::NotUtf8) };
        },
    };
    let head = match head(said.as_str()) {
        Ok(head) => head,
        Err(error) => {
            return Reading::Done { used: n + 1, outcome: Err(error) };
        },
    };
    match head.length() {
        Some(length) => payload(head, length, input, n + 1, closed),
        None => Reading::Done { used: n + 1, outcome: Ok(Some(head.complete(Vec::new()))) },
    }
}

} // verus!
