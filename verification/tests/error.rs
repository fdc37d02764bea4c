//! What errors say.

use transport_nats::error::describe;
use transport_nats::Error;
use transport_nats::Line;

#[test]
fn every_error_has_its_words() {
    let said = [
        (Error::NoCrlf, "a protocol line without its CRLF"),
        (Error::NotUtf8, "a line that is not UTF-8"),
        (Error::BadPub, "a PUB that is not subject [reply] length"),
        (Error::BadSub, "a SUB that is not subject [queue] sid"),
        (Error::BadMsg, "a MSG that is not subject sid [reply] length"),
        (Error::UnknownVerb("HE\"LO\t".into()), "\"HE\\\"LO\\t\" is not a NATS verb"),
        (Error::BadLength("x".into()), "\"x\" is not a payload length"),
        (Error::ShortPayload, "reading a payload"),
        (Error::PayloadNoCrlf, "a payload not followed by CRLF"),
        (Error::NoInfo, "the server did not open with INFO"),
        (Error::NoConnect, "the client did not answer INFO with CONNECT"),
        (Error::Reported("Stale Connection".into()), "Stale Connection"),
        (Error::ClosedBeforePong, "the server closed before PONG"),
        (Error::FromClient(Line::PlusOk), "Ok from a client"),
        (Error::NothingPublished, "the client closed without publishing"),
    ];
    for (error, words) in said {
        assert_eq!(error.message(), words);
        assert_eq!(error.is_protocol(), error != Error::ShortPayload);
    }
}

#[test]
fn lines_are_described_part_by_part() {
    let lines = [
        Line::Info("{\"a\":1}".into()),
        Line::Connect("{}".into()),
        Line::Pub {
            subject: "a".into(),
            reply: None,
            payload: vec![],
        },
        Line::Pub {
            subject: "a".into(),
            reply: Some("b\n".into()),
            payload: vec![1],
        },
        Line::Sub {
            subject: "a".into(),
            queue: Some("q".into()),
            sid: "1".into(),
        },
        Line::Unsub { sid: "1".into() },
        Line::Msg {
            subject: "a".into(),
            sid: "1".into(),
            reply: None,
            payload: vec![0, 10, 255],
        },
        Line::Ping,
        Line::Pong,
    ];
    for line in &lines {
        assert_eq!(describe(line), format!("{line:?}"));
    }
    assert_eq!(describe(&Line::PlusOk), "Ok");
    assert_eq!(describe(&Line::MinusErr("no".into())), "Err(\"no\")");
    let msg = Line::Msg {
        subject: "a".into(),
        sid: "1".into(),
        reply: Some("r".into()),
        payload: vec![7, 8],
    };
    assert_eq!(
        Error::FromClient(msg).message(),
        "Msg { subject: \"a\", sid: \"1\", reply: Some(\"r\"), payload: [7, 8] } from a client"
    );
}
