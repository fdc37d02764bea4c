//! What can go wrong between two ends that speak the protocol.

use crate::text;
use crate::wire;
use crate::wire::Line;
use crate::wire::LineModel;
use vstd::prelude::*;

verus! {

/// Why a peer was given up on.
#[derive(Clone, Debug, PartialEq, Eq)]
pub enum Error {
    /// A protocol line did not end in CRLF.
    NoCrlf,
    /// A protocol line was not UTF-8.
    NotUtf8,
    /// A PUB was not `subject [reply] length`.
    BadPub,
    /// A SUB was not `subject [queue] sid`.
    BadSub,
    /// A MSG was not `subject sid [reply] length`.
    BadMsg,
    /// A line opened with this verb, in upper case, which is none of the
    /// protocol's.
    UnknownVerb(String),
    /// This stood where a payload's length belongs.
    BadLength(String),
    /// The connection ended before the payload did.
    ShortPayload,
    /// A payload was not followed by CRLF.
    PayloadNoCrlf,
    /// The server did not open with INFO.
    NoInfo,
    /// The client did not answer INFO with CONNECT.
    NoConnect,
    /// The server reported this error.
    Reported(String),
    /// The server closed before it answered a PING.
    ClosedBeforePong,
    /// A client sent this line, which only a server sends.
    FromClient(Line),
    /// The client closed without publishing.
    NothingPublished,
}

/// An error with its texts as sequences of characters.
pub enum ErrorModel {
    NoCrlf,
    NotUtf8,
    BadPub,
    BadSub,
    BadMsg,
    UnknownVerb(Seq<char>),
    BadLength(Seq<char>),
    ShortPayload,
    PayloadNoCrlf,
    NoInfo,
    NoConnect,
    Reported(Seq<char>),
    ClosedBeforePong,
    FromClient(LineModel),
    NothingPublished,
}

impl View for Error {
    type V = ErrorModel;

    open spec fn view(&self) -> ErrorModel {
        match *self {
            Error::NoCrlf => ErrorModel::NoCrlf,
            Error::NotUtf8 => ErrorModel::NotUtf8,
            Error::BadPub => ErrorModel::BadPub,
            Error::BadSub => ErrorModel::BadSub,
            Error::BadMsg => ErrorModel::BadMsg,
            Error::UnknownVerb(verb) => ErrorModel::UnknownVerb(verb@),
            Error::BadLength(word) => ErrorModel::BadLength(word@),
            Error::ShortPayload => ErrorModel::ShortPayload,
            Error::PayloadNoCrlf => ErrorModel::PayloadNoCrlf,
            Error::NoInfo => ErrorModel::NoInfo,
            Error::NoConnect => ErrorModel::NoConnect,
            Error::Reported(message) => ErrorModel::Reported(message@),
            Error::ClosedBeforePong => ErrorModel::ClosedBeforePong,
            Error::FromClient(line) => ErrorModel::FromClient(line@),
            Error::NothingPublished => ErrorModel::NothingPublished,
        }
    }
}

/// What the `Debug` form of a text is: quoted, with escapes.
pub uninterp spec fn debug_form(s: Seq<char>) -> Seq<char>;

/// The `Debug` form of `s`, as `format!("{:?}")` writes it. What that form is
/// has a name, `debug_form`, and nothing more is claimed of it.
#[verifier::external_body]
fn debug_text(s: &str) -> (res: String)
    ensures
        res@ == debug_form(s@),
{
    format!("{s:?}")
}

/// How a text that may be absent is described.
pub open spec fn optional_described(word: Option<Seq<char>>) -> Seq<char> {
    match word {
        Some(word) => "Some("@ + debug_form(word) + ")"@,
        None => "None"@,
    }
}

/// The bytes of a payload in decimal, with commas between.
pub open spec fn bytes_listed(bytes: Seq<u8>) -> Seq<char>
    decreases bytes.len(),
{
    if bytes.len() == 0 {
        Seq::empty()
    } else if bytes.len() == 1 {
        text::decimal(bytes[0] as nat)
    } else {
        bytes_listed(bytes.drop_last()) + ", "@ + text::decimal(bytes.last() as nat)
    }
}

/// How a line is described to a person, part by part.
pub open spec fn described(line: LineModel) -> Seq<char> {
    match line {
        LineModel::Info(json) => "Info("@ + debug_form(json) + ")"@,
        LineModel::Connect(json) => "Connect("@ + debug_form(json) + ")"@,
        LineModel::Pub { subject, reply, payload } => "Pub { subject: "@ + debug_form(subject)
            + ", reply: "@ + optional_described(reply) + ", payload: ["@ + bytes_listed(payload)
            + "] }"@,
        LineModel::Sub { subject, queue, sid } => "Sub { subject: "@ + debug_form(subject)
            + ", queue: "@ + optional_described(queue) + ", sid: "@ + debug_form(sid) + " }"@,
        LineModel::Unsub { sid } => "Unsub { sid: "@ + debug_form(sid) + " }"@,
        LineModel::Msg { subject, sid, reply, payload } => "Msg { subject: "@ + debug_form(subject)
            + ", sid: "@ + debug_form(sid) + ", reply: "@ + optional_described(reply)
            + ", payload: ["@ + bytes_listed(payload) + "] }"@,
        LineModel::Ping => "Ping"@,
        LineModel::Pong => "Pong"@,
        LineModel::PlusOk => "Ok"@,
        LineModel::MinusErr(message) => "Err("@ + debug_form(message) + ")"@,
    }
}

/// What an error says to a person.
pub open spec fn message_of(error: ErrorModel) -> Seq<char> {
    match error {
        ErrorModel::NoCrlf => "a protocol line without its CRLF"@,
        ErrorModel::NotUtf8 => "a line that is not UTF-8"@,
        ErrorModel::BadPub => "a PUB that is not subject [reply] length"@,
        ErrorModel::BadSub => "a SUB that is not subject [queue] sid"@,
        ErrorModel::BadMsg => "a MSG that is not subject sid [reply] length"@,
        ErrorModel::UnknownVerb(verb) => debug_form(verb) + " is not a NATS verb"@,
        ErrorModel::BadLength(word) => debug_form(word) + " is not a payload length"@,
        ErrorModel::ShortPayload => "reading a payload"@,
        ErrorModel::PayloadNoCrlf => "a payload not followed by CRLF"@,
        ErrorModel::NoInfo => "the server did not open with INFO"@,
        ErrorModel::NoConnect => "the client did not answer INFO with CONNECT"@,
        ErrorModel::Reported(message) => message,
        ErrorModel::ClosedBeforePong => "the server closed before PONG"@,
        ErrorModel::FromClient(line) => described(line) + " from a client"@,
        ErrorModel::NothingPublished => "the client closed without publishing"@,
    }
}

fn list_bytes(bytes: &Vec<u8>) -> (res: String)
    ensures
        res@ == bytes_listed(bytes@),
{
    let mut res = String::new();
    let mut i: usize = 0;
    while i < bytes.len()
        invariant
            i <= bytes@.len(),
            res@ == bytes_listed(bytes@.take(i as int)),
        decreases bytes@.len() - i,
    {
        let ghost so_far = bytes@.take(i + 1);
        assert(so_far.drop_last() =~= bytes@.take(i as int));
        if i > 0 {
            res.append(", ");
        }
        res.append(text::decimal_text(bytes[i] as u64).as_str());
        assert(res@ =~= bytes_listed(so_far));
        i = i + 1;
    }
    assert(bytes@.take(i as int) =~= bytes@);
    res
}

/// Put the description of a text that may be absent behind `out`.
fn put_optional(out: &mut String, word: &Option<String>)
    ensures
        final(out)@ == old(out)@ + optional_described(wire::optional(*word)),
{
    match word {
        Some(word) => {
            out.append("Some(");
            out.append(debug_text(word.as_str()).as_str());
            out.append(")");
        },
        None => out.append("None"),
    }
    assert(out@ =~= old(out)@ + optional_described(wire::optional(*word)));
}

/// Describe `line` to a person, part by part.
pub fn describe(line: &Line) -> (res: String)
    ensures
        res@ == described(line@),
{
    let mut out = String::new();
    match line {
        Line::Info(json) => {
            out.append("Info(");
            out.append(debug_text(json.as_str()).as_str());
            out.append(")");
        },
        Line::Connect(json) => {
            out.append("Connect(");
            out.append(debug_text(json.as_str()).as_str());
            out.append(")");
        },
        Line::Pub { subject, reply, payload } => {
            out.append("Pub { subject: ");
            out.append(debug_text(subject.as_str()).as_str());
            out.append(", reply: ");
            put_optional(&mut out, reply);
            out.append(", payload: [");
            out.append(list_bytes(payload).as_str());
            out.append("] }");
        },
        Line::Sub { subject, queue, sid } => {
            out.append("Sub { subject: ");
            out.append(debug_text(subject.as_str()).as_str());
            out.append(", queue: ");
            put_optional(&mut out, queue);
            out.append(", sid: ");
            out.append(debug_text(sid.as_str()).as_str());
            out.append(" }");
        },
        Line::Unsub { sid } => {
            out.append("Unsub { sid: ");
            out.append(debug_text(sid.as_str()).as_str());
            out.append(" }");
        },
        Line::Msg { subject, sid, reply, payload } => {
            out.append("Msg { subject: ");
            out.append(debug_text(subject.as_str()).as_str());
            out.append(", sid: ");
            out.append(debug_text(sid.as_str()).as_str());
            out.append(", reply: ");
            put_optional(&mut out, reply);
            out.append(", payload: [");
            out.append(list_bytes(payload).as_str());
            out.append("] }");
        },
        Line::Ping => out.append("Ping"),
        Line::Pong => out.append("Pong"),
        Line::PlusOk => out.append("Ok"),
        Line::MinusErr(message) => {
            out.append("Err(");
            out.append(debug_text(message.as_str()).as_str());
            out.append(")");
        },
    }
    assert(out@ =~= described(line@));
    out
}

impl Error {
    /// What the error says to a person.
    pub fn message(&self) -> (res: String)
        ensures
            res@ == message_of(self@),
    {
        match self {
            Error::NoCrlf => "a protocol line without its CRLF".to_owned(),
            Error::NotUtf8 => "a line that is not UTF-8".to_owned(),
            Error::BadPub => "a PUB that is not subject [reply] length".to_owned(),
            Error::BadSub => "a SUB that is not subject [queue] sid".to_owned(),
            Error::BadMsg => "a MSG that is not subject sid [reply] length".to_owned(),
            Error::UnknownVerb(verb) => debug_text(verb.as_str()).concat(" is not a NATS verb"),
            Error::BadLength(word) => debug_text(word.as_str()).concat(" is not a payload length"),
            Error::ShortPayload => "reading a payload".to_owned(),
            Error::PayloadNoCrlf => "a payload not followed by CRLF".to_owned(),
            Error::NoInfo => "the server did not open with INFO".to_owned(),
            Error::NoConnect => "the client did not answer INFO with CONNECT".to_owned(),
            Error::Reported(message) => message.clone(),
            Error::ClosedBeforePong => "the server closed before PONG".to_owned(),
            Error::FromClient(line) => describe(line).concat(" from a client"),
            Error::NothingPublished => "the client closed without publishing".to_owned(),
        }
    }

    /// Whether the peer broke the protocol, or reported that it was broken;
    /// otherwise the connection was lost.
    pub fn is_protocol(&self) -> (res: bool)
        ensures
            res == !(self@ is ShortPayload),
    {
        match self {
            Error::ShortPayload => false,
            _ => true,
        }
    }
}

} // verus!
