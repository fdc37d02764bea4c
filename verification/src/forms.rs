//! What each kind of line looks like on the wire, byte for byte, and what is
//! read off every run of bytes.

use crate::error::ErrorModel;
use crate::framing;
use crate::text;
use crate::text::Edge;
use crate::vocabulary;
use crate::wire;
use crate::wire::HeadModel;
use crate::wire::LineModel;
use crate::wire::Part;
use crate::wire::ReadingModel;
use vstd::prelude::*;
use vstd::utf8;

verus! {

/// How each kind of line is written: the verb, its words in the order the
/// protocol gives them with one space between, CRLF; and behind a PUB and a MSG,
/// whose last word is the payload's length, the payload and another CRLF.
pub proof fn law_lines_as_written(
    json: Seq<char>,
    subject: Seq<char>,
    sid: Seq<char>,
    reply: Seq<char>,
    queue: Seq<char>,
    message: Seq<char>,
    payload: Seq<u8>,
)
    ensures
        wire::encoded(LineModel::Info(json)) == utf8::encode_utf8("INFO "@ + json) + seq![
            13u8,
            10u8,
        ],
        wire::encoded(LineModel::Connect(json)) == utf8::encode_utf8("CONNECT "@ + json) + seq![
            13u8,
            10u8,
        ],
        wire::encoded(LineModel::Pub { subject, reply: None, payload }) == utf8::encode_utf8(
            "PUB "@ + subject + " "@ + text::decimal(payload.len()),
        ) + seq![13u8, 10u8] + payload + seq![13u8, 10u8],
        wire::encoded(LineModel::Pub { subject, reply: Some(reply), payload })
            == utf8::encode_utf8(
            "PUB "@ + subject + " "@ + reply + " "@ + text::decimal(payload.len()),
        ) + seq![13u8, 10u8] + payload + seq![13u8, 10u8],
        wire::encoded(LineModel::Sub { subject, queue: None, sid }) == utf8::encode_utf8(
            "SUB "@ + subject + " "@ + sid,
        ) + seq![13u8, 10u8],
        wire::encoded(LineModel::Sub { subject, queue: Some(queue), sid }) == utf8::encode_utf8(
            "SUB "@ + subject + " "@ + queue + " "@ + sid,
        ) + seq![13u8, 10u8],
        wire::encoded(LineModel::Unsub { sid }) == utf8::encode_utf8("UNSUB "@ + sid) + seq![
            13u8,
            10u8,
        ],
        wire::encoded(LineModel::Msg { subject, sid, reply: None, payload }) == utf8::encode_utf8(
            "MSG "@ + subject + " "@ + sid + " "@ + text::decimal(payload.len()),
        ) + seq![13u8, 10u8] + payload + seq![13u8, 10u8],
        wire::encoded(LineModel::Msg { subject, sid, reply: Some(reply), payload })
            == utf8::encode_utf8(
            "MSG "@ + subject + " "@ + sid + " "@ + reply + " "@ + text::decimal(payload.len()),
        ) + seq![13u8, 10u8] + payload + seq![13u8, 10u8],
        wire::encoded(LineModel::Ping) == utf8::encode_utf8("PING"@) + seq![13u8, 10u8],
        wire::encoded(LineModel::Pong) == utf8::encode_utf8("PONG"@) + seq![13u8, 10u8],
        wire::encoded(LineModel::PlusOk) == utf8::encode_utf8("+OK"@) + seq![13u8, 10u8],
        wire::encoded(LineModel::MinusErr(message)) == utf8::encode_utf8(
            "-ERR '"@ + message + "'"@,
        ) + seq![13u8, 10u8],
{
    let number = text::decimal(payload.len());
    assert("PUB "@ + subject + " "@ + Seq::<char>::empty() + number =~= "PUB "@ + subject + " "@
        + number);
    assert("PUB "@ + subject + " "@ + (reply + " "@) + number =~= "PUB "@ + subject + " "@ + reply
        + " "@ + number);
    assert("SUB "@ + subject + " "@ + Seq::<char>::empty() + sid =~= "SUB "@ + subject + " "@
        + sid);
    assert("SUB "@ + subject + " "@ + (queue + " "@) + sid =~= "SUB "@ + subject + " "@ + queue
        + " "@ + sid);
    assert("MSG "@ + subject + " "@ + sid + " "@ + Seq::<char>::empty() + number =~= "MSG "@
        + subject + " "@ + sid + " "@ + number);
    assert("MSG "@ + subject + " "@ + sid + " "@ + (reply + " "@) + number =~= "MSG "@ + subject
        + " "@ + sid + " "@ + reply + " "@ + number);
}

/// Each word of a MSG is read as what its place says: the subject, the sid, the
/// reply where there are four words, and last the length of the payload, which
/// is read off whole.
pub proof fn law_msg_words_are_read_in_their_places(
    subject: Seq<char>,
    sid: Seq<char>,
    reply: Seq<char>,
    payload: Seq<u8>,
    after: Seq<u8>,
    closed: bool,
)
    requires
        text::is_word(subject),
        text::is_word(sid),
        text::is_word(reply),
        payload.len() <= usize::MAX,
    ensures
        ({
            let bytes = utf8::encode_utf8(
                "MSG "@ + subject + " "@ + sid + " "@ + text::decimal(payload.len()),
            ) + seq![13u8, 10u8] + payload + seq![13u8, 10u8];
            wire::line_read(bytes + after, closed) == (ReadingModel::Done {
                used: bytes.len(),
                outcome: Ok(Some(LineModel::Msg { subject, sid, reply: None, payload })),
            })
        }),
        ({
            let bytes = utf8::encode_utf8(
                "MSG "@ + subject + " "@ + sid + " "@ + reply + " "@ + text::decimal(payload.len()),
            ) + seq![13u8, 10u8] + payload + seq![13u8, 10u8];
            wire::line_read(bytes + after, closed) == (ReadingModel::Done {
                used: bytes.len(),
                outcome: Ok(Some(LineModel::Msg { subject, sid, reply: Some(reply), payload })),
            })
        }),
{
    let none = Seq::<char>::empty();
    law_lines_as_written(none, subject, sid, reply, none, none, payload);
    framing::law_encoded_line_reads_back(
        LineModel::Msg { subject, sid, reply: None, payload },
        after,
        closed,
    );
    framing::law_encoded_line_reads_back(
        LineModel::Msg { subject, sid, reply: Some(reply), payload },
        after,
        closed,
    );
}

/// Each word of a PUB is read as what its place says: the subject, the reply
/// where there are three words, and last the length of the payload, which is
/// read off whole.
pub proof fn law_pub_words_are_read_in_their_places(
    subject: Seq<char>,
    reply: Seq<char>,
    payload: Seq<u8>,
    after: Seq<u8>,
    closed: bool,
)
    requires
        text::is_word(subject),
        text::is_word(reply),
        payload.len() <= usize::MAX,
    ensures
        ({
            let bytes = utf8::encode_utf8(
                "PUB "@ + subject + " "@ + text::decimal(payload.len()),
            ) + seq![13u8, 10u8] + payload + seq![13u8, 10u8];
            wire::line_read(bytes + after, closed) == (ReadingModel::Done {
                used: bytes.len(),
                outcome: Ok(Some(LineModel::Pub { subject, reply: None, payload })),
            })
        }),
        ({
            let bytes = utf8::encode_utf8(
                "PUB "@ + subject + " "@ + reply + " "@ + text::decimal(payload.len()),
            ) + seq![13u8, 10u8] + payload + seq![13u8, 10u8];
            wire::line_read(bytes + after, closed) == (ReadingModel::Done {
                used: bytes.len(),
                outcome: Ok(Some(LineModel::Pub { subject, reply: Some(reply), payload })),
            })
        }),
{
    let none = Seq::<char>::empty();
    law_lines_as_written(none, subject, none, reply, none, none, payload);
    framing::law_encoded_line_reads_back(
        LineModel::Pub { subject, reply: None, payload },
        after,
        closed,
    );
    framing::law_encoded_line_reads_back(
        LineModel::Pub { subject, reply: Some(reply), payload },
        after,
        closed,
    );
}

/// Each word of a SUB is read as what its place says: the subject, the queue
/// group where there are three words, and last the sid; and the one word of an
/// UNSUB is the sid.
pub proof fn law_sub_words_are_read_in_their_places(
    subject: Seq<char>,
    queue: Seq<char>,
    sid: Seq<char>,
    after: Seq<u8>,
    closed: bool,
)
    requires
        text::is_word(subject),
        text::is_word(queue),
        text::is_word(sid),
    ensures
        ({
            let bytes = utf8::encode_utf8("SUB "@ + subject + " "@ + sid) + seq![13u8, 10u8];
            wire::line_read(bytes + after, closed) == (ReadingModel::Done {
                used: bytes.len(),
                outcome: Ok(Some(LineModel::Sub { subject, queue: None, sid })),
            })
        }),
        ({
            let bytes = utf8::encode_utf8("SUB "@ + subject + " "@ + queue + " "@ + sid) + seq![
                13u8,
                10u8,
            ];
            wire::line_read(bytes + after, closed) == (ReadingModel::Done {
                used: bytes.len(),
                outcome: Ok(Some(LineModel::Sub { subject, queue: Some(queue), sid })),
            })
        }),
        ({
            let bytes = utf8::encode_utf8("UNSUB "@ + sid) + seq![13u8, 10u8];
            wire::line_read(bytes + after, closed) == (ReadingModel::Done {
                used: bytes.len(),
                outcome: Ok(Some(LineModel::Unsub { sid })),
            })
        }),
{
    let none = Seq::<char>::empty();
    law_lines_as_written(none, subject, sid, none, queue, none, Seq::empty());
    framing::law_encoded_line_reads_back(
        LineModel::Sub { subject, queue: None, sid },
        after,
        closed,
    );
    framing::law_encoded_line_reads_back(
        LineModel::Sub { subject, queue: Some(queue), sid },
        after,
        closed,
    );
    framing::law_encoded_line_reads_back(LineModel::Unsub { sid }, after, closed);
}

/// A line goes up to its line feed. Where there is none the reader waits; where
/// none will come the peer closed between lines, or within one, which is
/// refused; and so is a line feed with no carriage return before it.
pub proof fn law_line_ends_in_crlf(l: Seq<u8>, after: Seq<u8>, closed: bool)
    requires
        forall|i: int| 0 <= i < l.len() ==> #[trigger] l[i] != 10,
    ensures
        wire::line_read(l, false) == ReadingModel::More(Part::Line),
        l.len() == 0 ==> wire::line_read(l, true) == (ReadingModel::Done {
            used: 0,
            outcome: Ok(None),
        }),
        l.len() > 0 ==> wire::line_read(l, true) == (ReadingModel::Done {
            used: l.len(),
            outcome: Err(ErrorModel::NoCrlf),
        }),
        l.len() == 0 || l.last() != 13 ==> wire::line_read(l + seq![10u8] + after, closed) == (
        ReadingModel::Done { used: l.len() + 1, outcome: Err(ErrorModel::NoCrlf) }),
{
    wire::lemma_line_len(l, l.len());
    let input = l + seq![10u8] + after;
    assert(forall|i: int| 0 <= i < l.len() ==> input[i] == l[i]);
    wire::lemma_line_len(input, l.len());
}

/// Where a line of `l` and CRLF ends.
proof fn lemma_line_of(l: Seq<u8>, after: Seq<u8>)
    requires
        forall|i: int| 0 <= i < l.len() ==> #[trigger] l[i] != 10,
    ensures
        ({
            let input = l + seq![13u8, 10u8] + after;
            let n = wire::line_len(input) as int;
            &&& n == l.len() + 1
            &&& input.len() == l.len() + 2 + after.len()
            &&& input[n - 1] == 13
            &&& input.take(n - 1) == l
        }),
{
    let input = l + seq![13u8, 10u8] + after;
    assert forall|i: int| 0 <= i < l.len() + 1 implies #[trigger] input[i] != 10 by {
        if i < l.len() {
            assert(input[i] == l[i]);
        }
    }
    wire::lemma_line_len(input, l.len() + 1);
    assert(input.take(l.len() as int) =~= l);
}

/// A line that is not UTF-8 is refused, whatever it holds.
pub proof fn law_line_is_text(l: Seq<u8>, after: Seq<u8>, closed: bool)
    requires
        forall|i: int| 0 <= i < l.len() ==> #[trigger] l[i] != 10,
        !utf8::valid_utf8(l),
    ensures
        wire::line_read(l + seq![13u8, 10u8] + after, closed) == (ReadingModel::Done {
            used: l.len() + 2,
            outcome: Err(ErrorModel::NotUtf8),
        }),
{
    lemma_line_of(l, after);
}

/// The text of a line, and CRLF, say the head that the text says.
proof fn lemma_head_in(s: Seq<char>, after: Seq<u8>)
    requires
        framing::on_one_line(s),
    ensures
        ({
            let bytes = utf8::encode_utf8(s);
            let input = bytes + seq![13u8, 10u8] + after;
            let n = wire::line_len(input) as int;
            &&& n == bytes.len() + 1
            &&& input.len() == bytes.len() + 2 + after.len()
            &&& input[n - 1] == 13
            &&& wire::head_in(input.take(n - 1)) == wire::head_said(s)
        }),
{
    framing::lemma_encode_no_feed(s);
    lemma_line_of(utf8::encode_utf8(s), after);
    utf8::encode_utf8_valid_utf8(s);
    utf8::encode_utf8_decode_utf8(s);
}

/// Where a payload of `length` bytes stands that follows `head`.
proof fn lemma_payload_at(head: Seq<u8>, after: Seq<u8>, length: int)
    requires
        0 <= length,
    ensures
        after.len() >= length + 2 ==> {
            let input = head + after;
            let at = head.len() as int;
            &&& input.subrange(at, at + length) == after.take(length)
            &&& input.subrange(at + length, at + length + 2) == wire::crlf() <==> after[length]
                == 13 && after[length + 1] == 10
        },
{
    if after.len() >= length + 2 {
        let at = head.len() as int;
        let two = (head + after).subrange(at + length, at + length + 2);
        assert((head + after).subrange(at, at + length) =~= after.take(length));
        assert(two[0] == after[length] && two[1] == after[length + 1]);
        if after[length] == 13 && after[length + 1] == 10 {
            assert(two =~= wire::crlf());
        }
    }
}

/// What a line's text says decides what is read where no payload follows: the
/// line it is, or why it is refused, up to its CRLF and no further.
pub proof fn law_text_decides_the_line(
    s: Seq<char>,
    line: LineModel,
    error: ErrorModel,
    after: Seq<u8>,
    closed: bool,
)
    requires
        forall|i: int| 0 <= i < s.len() ==> #[trigger] s[i] != '\n',
    ensures
        wire::head_said(s) == Ok::<_, ErrorModel>(HeadModel::Whole(line)) ==> wire::line_read(
            utf8::encode_utf8(s) + seq![13u8, 10u8] + after,
            closed,
        ) == (ReadingModel::Done {
            used: utf8::encode_utf8(s).len() + 2,
            outcome: Ok(Some(line)),
        }),
        wire::head_said(s) == Err::<HeadModel, _>(error) ==> wire::line_read(
            utf8::encode_utf8(s) + seq![13u8, 10u8] + after,
            closed,
        ) == (ReadingModel::Done {
            used: utf8::encode_utf8(s).len() + 2,
            outcome: Err(error),
        }),
{
    lemma_head_in(s, after);
}

/// A PUB is read with its payload: the bytes its length announces, then CRLF,
/// and nothing more is taken. Anything else behind the payload is refused; where
/// the payload is not there whole the reader waits, or where nothing will come
/// refuses it.
pub proof fn law_pub_is_read_with_its_payload(
    s: Seq<char>,
    subject: Seq<char>,
    reply: Option<Seq<char>>,
    length: usize,
    after: Seq<u8>,
    closed: bool,
)
    requires
        forall|i: int| 0 <= i < s.len() ==> #[trigger] s[i] != '\n',
        wire::head_said(s) == Ok::<_, ErrorModel>(HeadModel::Pub { subject, reply, length }),
    ensures
        ({
            let head = utf8::encode_utf8(s) + seq![13u8, 10u8];
            let reading = wire::line_read(head + after, closed);
            &&& after.len() < length + 2 && !closed ==> reading == ReadingModel::More(Part::Payload)
            &&& after.len() < length + 2 && closed ==> reading == (ReadingModel::Done {
                used: head.len() + after.len(),
                outcome: Err(ErrorModel::ShortPayload),
            })
            &&& after.len() >= length + 2 ==> reading == (ReadingModel::Done {
                used: head.len() + length as nat + 2,
                outcome: if after[length as int] == 13 && after[length + 1] == 10 {
                    Ok(
                        Some(
                            LineModel::Pub {
                                subject, reply,
                                payload: after.take(length as int),
                            },
                        ),
                    )
                } else {
                    Err(ErrorModel::PayloadNoCrlf)
                },
            })
        }),
{
    lemma_head_in(s, after);
    lemma_payload_at(utf8::encode_utf8(s) + seq![13u8, 10u8], after, length as int);
}

/// A MSG is read with its payload: the bytes its length announces, then CRLF,
/// and nothing more is taken. Anything else behind the payload is refused; where
/// the payload is not there whole the reader waits, or where nothing will come
/// refuses it.
pub proof fn law_msg_is_read_with_its_payload(
    s: Seq<char>,
    subject: Seq<char>,
    sid: Seq<char>,
    reply: Option<Seq<char>>,
    length: usize,
    after: Seq<u8>,
    closed: bool,
)
    requires
        forall|i: int| 0 <= i < s.len() ==> #[trigger] s[i] != '\n',
        wire::head_said(s) == Ok::<_, ErrorModel>(HeadModel::Msg { subject, sid, reply, length }),
    ensures
        ({
            let head = utf8::encode_utf8(s) + seq![13u8, 10u8];
            let reading = wire::line_read(head + after, closed);
            &&& after.len() < length + 2 && !closed ==> reading == ReadingModel::More(Part::Payload)
            &&& after.len() < length + 2 && closed ==> reading == (ReadingModel::Done {
                used: head.len() + after.len(),
                outcome: Err(ErrorModel::ShortPayload),
            })
            &&& after.len() >= length + 2 ==> reading == (ReadingModel::Done {
                used: head.len() + length as nat + 2,
                outcome: if after[length as int] == 13 && after[length + 1] == 10 {
                    Ok(
                        Some(
                            LineModel::Msg {
                                subject, sid, reply,
                                payload: after.take(length as int),
                            },
                        ),
                    )
                } else {
                    Err(ErrorModel::PayloadNoCrlf)
                },
            })
        }),
{
    lemma_head_in(s, after);
    lemma_payload_at(utf8::encode_utf8(s) + seq![13u8, 10u8], after, length as int);
}

/// A line opens with its verb, up to the first space; a verb alone says what it
/// says with nothing behind that space; and the verb may be in either case.
pub proof fn law_verb_opens_the_line(v: Seq<char>, rest: Seq<char>)
    requires
        forall|i: int| 0 <= i < v.len() ==> #[trigger] v[i] != ' ',
    ensures
        wire::head_said(v) == wire::head_said(v + seq![' ']),
        wire::head_said(v + seq![' '] + rest) == wire::head_said(
            text::upper(v) + seq![' '] + rest,
        ),
        !{
            ||| text::upper(v) == "INFO"@
            ||| text::upper(v) == "CONNECT"@
            ||| text::upper(v) == "PUB"@
            ||| text::upper(v) == "SUB"@
            ||| text::upper(v) == "UNSUB"@
            ||| text::upper(v) == "MSG"@
            ||| text::upper(v) == "PING"@
            ||| text::upper(v) == "PONG"@
            ||| text::upper(v) == "+OK"@
            ||| text::upper(v) == "-ERR"@
        } ==> wire::head_said(v + seq![' '] + rest) == Err::<HeadModel, _>(
            ErrorModel::UnknownVerb(text::upper(v)),
        ),
{
    assert(text::upper(text::upper(v)) =~= text::upper(v));
    framing::law_verb_case_does_not_matter(v, text::upper(v), rest);
    framing::lemma_verb(v + seq![' '] + rest, v, rest);
    framing::lemma_verb_len(v, v.len());
    assert(v.take(v.len() as int) =~= v);
    assert(v + seq![' '] =~= v + seq![' '] + Seq::empty());
    framing::lemma_verb(v + seq![' '], v, Seq::empty());
}

/// A verb and its space, letter by letter.
proof fn lemma_openings()
    ensures
        "INFO "@ == "INFO"@ + seq![' '],
        "CONNECT "@ == "CONNECT"@ + seq![' '],
        "PUB "@ == "PUB"@ + seq![' '],
        "SUB "@ == "SUB"@ + seq![' '],
        "UNSUB "@ == "UNSUB"@ + seq![' '],
        "MSG "@ == "MSG"@ + seq![' '],
        "PING "@ == "PING"@ + seq![' '],
        "PONG "@ == "PONG"@ + seq![' '],
        "+OK "@ == "+OK"@ + seq![' '],
        "-ERR "@ == "-ERR"@ + seq![' '],
{
    framing::lemma_verbs();
    reveal_strlit("INFO ");
    reveal_strlit("CONNECT ");
    reveal_strlit("PUB ");
    reveal_strlit("SUB ");
    reveal_strlit("UNSUB ");
    reveal_strlit("MSG ");
    reveal_strlit("PING ");
    reveal_strlit("PONG ");
    reveal_strlit("+OK ");
    reveal_strlit("-ERR ");
    assert("INFO "@ =~= "INFO"@ + seq![' ']);
    assert("CONNECT "@ =~= "CONNECT"@ + seq![' ']);
    assert("PUB "@ =~= "PUB"@ + seq![' ']);
    assert("SUB "@ =~= "SUB"@ + seq![' ']);
    assert("UNSUB "@ =~= "UNSUB"@ + seq![' ']);
    assert("MSG "@ =~= "MSG"@ + seq![' ']);
    assert("PING "@ =~= "PING"@ + seq![' ']);
    assert("PONG "@ =~= "PONG"@ + seq![' ']);
    assert("+OK "@ =~= "+OK"@ + seq![' ']);
    assert("-ERR "@ =~= "-ERR"@ + seq![' ']);
}

/// INFO and CONNECT carry what stands behind them, without the white space at
/// its ends.
pub proof fn law_info_and_connect_carry_text(gap: Seq<char>, said: Seq<char>, end: Seq<char>)
    requires
        forall|i: int| 0 <= i < gap.len() ==> text::is_white(#[trigger] gap[i]),
        forall|i: int| 0 <= i < end.len() ==> text::is_white(#[trigger] end[i]),
        said.len() > 0 ==> !text::is_white(said[0]) && !text::is_white(said.last()),
    ensures
        wire::head_said("INFO "@ + (gap + said + end)) == Ok::<_, ErrorModel>(
            HeadModel::Whole(LineModel::Info(said)),
        ),
        wire::head_said("CONNECT "@ + (gap + said + end)) == Ok::<_, ErrorModel>(
            HeadModel::Whole(LineModel::Connect(said)),
        ),
{
    lemma_openings();
    framing::lemma_verbs_differ();
    framing::lemma_said("INFO"@, gap + said + end);
    framing::lemma_said("CONNECT"@, gap + said + end);
    vocabulary::lemma_trimmed(gap, said, end, Edge::White);
}

/// `-ERR` carries what stands behind it, without the white space at its ends and
/// then without the single quotes at its ends.
pub proof fn law_err_carries_its_message(
    gap: Seq<char>,
    open: Seq<char>,
    message: Seq<char>,
    close: Seq<char>,
    end: Seq<char>,
)
    requires
        forall|i: int| 0 <= i < gap.len() ==> text::is_white(#[trigger] gap[i]),
        forall|i: int| 0 <= i < end.len() ==> text::is_white(#[trigger] end[i]),
        forall|i: int| 0 <= i < open.len() ==> #[trigger] open[i] == '\'',
        forall|i: int| 0 <= i < close.len() ==> #[trigger] close[i] == '\'',
        message.len() > 0 ==> message[0] != '\'' && message.last() != '\'',
        (open + message + close).len() > 0 ==> !text::is_white((open + message + close)[0])
            && !text::is_white((open + message + close).last()),
    ensures
        wire::head_said("-ERR "@ + (gap + (open + message + close) + end)) == Ok::<_, ErrorModel>(
            HeadModel::Whole(LineModel::MinusErr(message)),
        ),
{
    lemma_openings();
    framing::lemma_verbs_differ();
    framing::lemma_said("-ERR"@, gap + (open + message + close) + end);
    vocabulary::lemma_trimmed(gap, open + message + close, end, Edge::White);
    vocabulary::lemma_trimmed(open, message, close, Edge::Quote);
}

/// PING, PONG and `+OK` are what they are, whatever stands behind them.
pub proof fn law_ping_pong_and_ok_stand_alone(rest: Seq<char>)
    ensures
        wire::head_said("PING "@ + rest) == Ok::<_, ErrorModel>(HeadModel::Whole(LineModel::Ping)),
        wire::head_said("PONG "@ + rest) == Ok::<_, ErrorModel>(HeadModel::Whole(LineModel::Pong)),
        wire::head_said("+OK "@ + rest) == Ok::<_, ErrorModel>(HeadModel::Whole(LineModel::PlusOk)),
{
    lemma_openings();
    framing::lemma_verbs_differ();
    framing::lemma_said("PING"@, rest);
    framing::lemma_said("PONG"@, rest);
    framing::lemma_said("+OK"@, rest);
}

/// A PUB has two words or three: the subject, the reply where there are three,
/// and the length, which is a number or is refused by what stands there. Any
/// other count of words is refused.
pub proof fn law_pub_says_subject_reply_length(
    rest: Seq<char>,
    subject: Seq<char>,
    reply: Seq<char>,
    length: Seq<char>,
    n: usize,
)
    ensures
        text::words(rest) == seq![subject, length] && text::number(length) == Some(n)
            ==> wire::head_said("PUB "@ + rest) == Ok::<_, ErrorModel>(
            HeadModel::Pub { subject, reply: None, length: n },
        ),
        text::words(rest) == seq![subject, reply, length] && text::number(length) == Some(n)
            ==> wire::head_said("PUB "@ + rest) == Ok::<_, ErrorModel>(
            HeadModel::Pub { subject, reply: Some(reply), length: n },
        ),
        (text::words(rest) == seq![subject, length] || text::words(rest) == seq![
            subject,
            reply,
            length,
        ]) && text::number(length) is None ==> wire::head_said("PUB "@ + rest) == Err::<
            HeadModel,
            _,
        >(ErrorModel::BadLength(length)),
        text::words(rest).len() != 2 && text::words(rest).len() != 3 ==> wire::head_said(
            "PUB "@ + rest,
        ) == Err::<HeadModel, _>(ErrorModel::BadPub),
{
    lemma_openings();
    framing::lemma_verbs_differ();
    framing::lemma_said("PUB"@, rest);
}

/// A SUB has two words or three: the subject, the queue group where there are
/// three, and the sid. Any other count of words is refused.
pub proof fn law_sub_says_subject_queue_sid(
    rest: Seq<char>,
    subject: Seq<char>,
    queue: Seq<char>,
    sid: Seq<char>,
)
    ensures
        text::words(rest) == seq![subject, sid] ==> wire::head_said("SUB "@ + rest) == Ok::<
            _,
            ErrorModel,
        >(HeadModel::Whole(LineModel::Sub { subject, queue: None, sid })),
        text::words(rest) == seq![subject, queue, sid] ==> wire::head_said("SUB "@ + rest) == Ok::<
            _,
            ErrorModel,
        >(HeadModel::Whole(LineModel::Sub { subject, queue: Some(queue), sid })),
        text::words(rest).len() != 2 && text::words(rest).len() != 3 ==> wire::head_said(
            "SUB "@ + rest,
        ) == Err::<HeadModel, _>(ErrorModel::BadSub),
{
    lemma_openings();
    framing::lemma_verbs_differ();
    framing::lemma_said("SUB"@, rest);
}

/// An UNSUB says the sid first, and what follows it does not matter; one that
/// says nothing has an empty sid.
pub proof fn law_unsub_says_sid(rest: Seq<char>)
    ensures
        text::words(rest).len() > 0 ==> wire::head_said("UNSUB "@ + rest) == Ok::<_, ErrorModel>(
            HeadModel::Whole(LineModel::Unsub { sid: text::words(rest)[0] }),
        ),
        text::words(rest).len() == 0 ==> wire::head_said("UNSUB "@ + rest) == Ok::<_, ErrorModel>(
            HeadModel::Whole(LineModel::Unsub { sid: Seq::empty() }),
        ),
{
    lemma_openings();
    framing::lemma_verbs_differ();
    framing::lemma_said("UNSUB"@, rest);
}

/// A MSG has three words or four: the subject, the sid, the reply where there
/// are four, and the length, which is a number or is refused by what stands
/// there. Any other count of words is refused.
pub proof fn law_msg_says_subject_sid_reply_length(
    rest: Seq<char>,
    subject: Seq<char>,
    sid: Seq<char>,
    reply: Seq<char>,
    length: Seq<char>,
    n: usize,
)
    ensures
        text::words(rest) == seq![subject, sid, length] && text::number(length) == Some(n)
            ==> wire::head_said("MSG "@ + rest) == Ok::<_, ErrorModel>(
            HeadModel::Msg { subject, sid, reply: None, length: n },
        ),
        text::words(rest) == seq![subject, sid, reply, length] && text::number(length) == Some(n)
            ==> wire::head_said("MSG "@ + rest) == Ok::<_, ErrorModel>(
            HeadModel::Msg { subject, sid, reply: Some(reply), length: n },
        ),
        (text::words(rest) == seq![subject, sid, length] || text::words(rest) == seq![
            subject,
            sid,
            reply,
            length,
        ]) && text::number(length) is None ==> wire::head_said("MSG "@ + rest) == Err::<
            HeadModel,
            _,
        >(ErrorModel::BadLength(length)),
        text::words(rest).len() != 3 && text::words(rest).len() != 4 ==> wire::head_said(
            "MSG "@ + rest,
        ) == Err::<HeadModel, _>(ErrorModel::BadMsg),
{
    lemma_openings();
    framing::lemma_verbs_differ();
    framing::lemma_said("MSG"@, rest);
}

} // verus!
