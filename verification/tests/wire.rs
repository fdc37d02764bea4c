//! Lines as bytes, and bytes as lines.

use transport_nats::wire::encode;
use transport_nats::wire::read;
use transport_nats::wire::Part;
use transport_nats::wire::Reading;
use transport_nats::Error;
use transport_nats::Line;

/// Read off bytes that nothing will follow.
fn read_closed(bytes: &[u8]) -> Result<Option<Line>, Error> {
    match read(bytes, true) {
        Reading::Done { outcome, .. } => outcome,
        Reading::More(part) => panic!("waiting for {part:?} of a closed peer"),
    }
}

fn round_trip(line: &Line) {
    let bytes = encode(line);
    let back = read_closed(&bytes).expect("read").expect("one");
    assert_eq!(&back, line);
}

#[test]
fn every_line_round_trips() {
    round_trip(&Line::Info(r#"{"server_id":"x"}"#.into()));
    round_trip(&Line::Connect(r#"{"verbose":false}"#.into()));
    round_trip(&Line::Pub {
        subject: "orders.new".into(),
        reply: None,
        payload: b"hello\r\nworld".to_vec(),
    });
    round_trip(&Line::Pub {
        subject: "orders.new".into(),
        reply: Some("_INBOX.1".into()),
        payload: Vec::new(),
    });
    round_trip(&Line::Sub {
        subject: "orders.*".into(),
        queue: Some("workers".into()),
        sid: "1".into(),
    });
    round_trip(&Line::Sub {
        subject: ">".into(),
        queue: None,
        sid: "2".into(),
    });
    round_trip(&Line::Unsub { sid: "2".into() });
    round_trip(&Line::Msg {
        subject: "orders.new".into(),
        sid: "1".into(),
        reply: Some("_INBOX.1".into()),
        payload: vec![0, 1, 255],
    });
    round_trip(&Line::Msg {
        subject: "orders.new".into(),
        sid: "1".into(),
        reply: None,
        payload: b"x".to_vec(),
    });
    round_trip(&Line::Ping);
    round_trip(&Line::Pong);
    round_trip(&Line::PlusOk);
    round_trip(&Line::MinusErr("Unknown Protocol Operation".into()));
}

#[test]
fn what_is_not_nats_is_refused() {
    assert!(read_closed(&b""[..]).expect("closed").is_none());
    assert!(read_closed(&b"PING\n"[..]).is_err(), "bare LF");
    assert!(read_closed(&b"PUB a 5\r\nhel\r\n"[..]).is_err(), "short");
    assert!(read_closed(&b"PUB a x\r\n"[..]).is_err(), "length");
    assert!(read_closed(&b"PUB a\r\n"[..]).is_err(), "no length");
    assert!(read_closed(&b"HELO\r\n"[..]).is_err(), "verb");
    assert!(read_closed(&b"PUB a 2\r\nabXX"[..]).is_err(), "no CRLF");
    let lower = read_closed(&b"ping\r\n"[..]).expect("read");
    assert_eq!(lower, Some(Line::Ping), "verbs are case-insensitive");
}

#[test]
fn lines_are_the_bytes_a_person_would_type() {
    assert_eq!(encode(&Line::Info("{}".into())), b"INFO {}\r\n");
    assert_eq!(encode(&Line::Connect("{}".into())), b"CONNECT {}\r\n");
    let plain = Line::Pub {
        subject: "a.b".into(),
        reply: None,
        payload: b"hello".to_vec(),
    };
    assert_eq!(encode(&plain), b"PUB a.b 5\r\nhello\r\n");
    let answered = Line::Pub {
        subject: "a.b".into(),
        reply: Some("r".into()),
        payload: vec![7; 12],
    };
    assert_eq!(encode(&answered), b"PUB a.b r 12\r\n\x07\x07\x07\x07\x07\x07\x07\x07\x07\x07\x07\x07\r\n");
    let sub = Line::Sub {
        subject: "a".into(),
        queue: None,
        sid: "9".into(),
    };
    assert_eq!(encode(&sub), b"SUB a 9\r\n");
    let queued = Line::Sub {
        subject: "a".into(),
        queue: Some("q".into()),
        sid: "9".into(),
    };
    assert_eq!(encode(&queued), b"SUB a q 9\r\n");
    assert_eq!(encode(&Line::Unsub { sid: "9".into() }), b"UNSUB 9\r\n");
    let msg = Line::Msg {
        subject: "a".into(),
        sid: "9".into(),
        reply: None,
        payload: Vec::new(),
    };
    assert_eq!(encode(&msg), b"MSG a 9 0\r\n\r\n");
    let msg = Line::Msg {
        subject: "a".into(),
        sid: "9".into(),
        reply: Some("r".into()),
        payload: b"x".to_vec(),
    };
    assert_eq!(encode(&msg), b"MSG a 9 r 1\r\nx\r\n");
    assert_eq!(encode(&Line::Ping), b"PING\r\n");
    assert_eq!(encode(&Line::Pong), b"PONG\r\n");
    assert_eq!(encode(&Line::PlusOk), b"+OK\r\n");
    assert_eq!(encode(&Line::MinusErr("no".into())), b"-ERR 'no'\r\n");
}

#[test]
fn each_refusal_says_what_is_wrong() {
    assert_eq!(read_closed(b"PING"), Err(Error::NoCrlf));
    assert_eq!(read_closed(b"PING\n"), Err(Error::NoCrlf));
    assert_eq!(read_closed(b"\n"), Err(Error::NoCrlf));
    assert_eq!(read_closed(b"PI\xff\r\n"), Err(Error::NotUtf8));
    assert_eq!(read_closed(b"PUB a\r\n"), Err(Error::BadPub));
    assert_eq!(read_closed(b"PUB\r\n"), Err(Error::BadPub));
    assert_eq!(read_closed(b"PUB a b c 1\r\nx\r\n"), Err(Error::BadPub));
    assert_eq!(read_closed(b"SUB a\r\n"), Err(Error::BadSub));
    assert_eq!(read_closed(b"SUB a b c d\r\n"), Err(Error::BadSub));
    assert_eq!(read_closed(b"MSG a 1\r\n"), Err(Error::BadMsg));
    assert_eq!(read_closed(b"MSG a 1 b c 0\r\n\r\n"), Err(Error::BadMsg));
    assert_eq!(read_closed(b"helo there\r\n"), Err(Error::UnknownVerb("HELO".into())));
    assert_eq!(read_closed(b"\r\n"), Err(Error::UnknownVerb(String::new())));
    assert_eq!(read_closed(b"PUB a -1\r\n"), Err(Error::BadLength("-1".into())));
    assert_eq!(
        read_closed(b"PUB a 99999999999999999999999\r\n"),
        Err(Error::BadLength("99999999999999999999999".into()))
    );
    assert_eq!(read_closed(b"PUB a 5\r\nhel\r\n"), Err(Error::ShortPayload));
    assert_eq!(read_closed(b"PUB a 18446744073709551615\r\nhel\r\n"), Err(Error::ShortPayload));
    assert_eq!(read_closed(b"PUB a 2\r\nabXX"), Err(Error::PayloadNoCrlf));
}

#[test]
fn a_reader_is_forgiving_where_the_protocol_is() {
    let spaced = read_closed(b"PUB   a \t b  2\r\nhi\r\n").expect("read");
    let expected = Line::Pub {
        subject: "a".into(),
        reply: Some("b".into()),
        payload: b"hi".to_vec(),
    };
    assert_eq!(spaced, Some(expected));
    let signed = read_closed(b"pUb a +002\r\nhi\r\n").expect("read");
    let expected = Line::Pub {
        subject: "a".into(),
        reply: None,
        payload: b"hi".to_vec(),
    };
    assert_eq!(signed, Some(expected));
    assert_eq!(read_closed(b"info   {} \r\n"), Ok(Some(Line::Info("{}".into()))));
    assert_eq!(read_closed(b"INFO\r\n"), Ok(Some(Line::Info(String::new()))));
    assert_eq!(read_closed(b"UNSUB 4 10\r\n"), Ok(Some(Line::Unsub { sid: "4".into() })));
    assert_eq!(read_closed(b"UNSUB\r\n"), Ok(Some(Line::Unsub { sid: String::new() })));
    assert_eq!(read_closed(b"-ERR ''odd''\r\n"), Ok(Some(Line::MinusErr("odd".into()))));
    assert_eq!(read_closed(b"-ERR plain \r\n"), Ok(Some(Line::MinusErr("plain".into()))));
    assert_eq!(read_closed(b"PING now\r\n"), Ok(Some(Line::Ping)));
    assert_eq!(read_closed(b"+ok\r\n"), Ok(Some(Line::PlusOk)));
    let wide = read_closed("SUB \u{3000}pr\u{fc}fung\u{a0}7\r\n".as_bytes()).expect("read");
    let expected = Line::Sub {
        subject: "pr\u{fc}fung".into(),
        queue: None,
        sid: "7".into(),
    };
    assert_eq!(wide, Some(expected));
}

#[test]
fn a_line_is_read_wherever_it_is_cut() {
    let line = Line::Msg {
        subject: "orders.new".into(),
        sid: "1".into(),
        reply: None,
        payload: b"one\r\ntwo".to_vec(),
    };
    let bytes = encode(&line);
    let head = b"MSG orders.new 1 8\r\n".len();
    for n in 0..bytes.len() {
        let part = if n < head { Part::Line } else { Part::Payload };
        assert_eq!(read(&bytes[..n], false), Reading::More(part), "{n} bytes");
        if n > 0 {
            assert!(read_closed(&bytes[..n]).is_err(), "{n} bytes and closed");
        }
    }
    let mut longer = bytes.clone();
    longer.extend_from_slice(b"PING\r\n");
    let done = Reading::Done {
        used: bytes.len(),
        outcome: Ok(Some(line)),
    };
    assert_eq!(read(&longer, false), done);
    assert_eq!(read(&longer, true), done);
    assert_eq!(read(&bytes, false), done);
}

#[test]
fn lines_one_after_the_other_are_read_in_order() {
    let lines = [
        Line::Connect("{}".into()),
        Line::Ping,
        Line::Pub {
            subject: "a".into(),
            reply: None,
            payload: b"PING\r\n".to_vec(),
        },
        Line::Pong,
    ];
    let mut bytes = Vec::new();
    for line in &lines {
        bytes.extend_from_slice(&encode(line));
    }
    let mut at = 0;
    let mut back = Vec::new();
    loop {
        match read(&bytes[at..], true) {
            Reading::Done { used, outcome: Ok(Some(line)) } => {
                at += used;
                back.push(line);
            }
            Reading::Done { used, outcome: Ok(None) } => {
                assert_eq!(used, 0);
                break;
            }
            other => panic!("{other:?}"),
        }
    }
    assert_eq!(at, bytes.len());
    assert_eq!(back, lines);
}

#[test]
fn what_is_read_can_be_written_and_read_again() {
    let loose: [&[u8]; 5] = [
        b"pub  a   3\r\nabc\r\n",
        b"info   { \"x\" : 1 }  \r\n",
        b"-err   'a 'b' c'  \r\n",
        b"unsub \t 7 8\r\n",
        b"msg a b c +1\r\n\n\r\n",
    ];
    for bytes in loose {
        let line = read_closed(bytes).expect("read").expect("one");
        round_trip(&line);
    }
}

#[test]
fn a_refused_line_takes_its_own_bytes_only() {
    match read(b"HELO\r\nPING\r\n", false) {
        Reading::Done { used, outcome } => {
            assert_eq!(used, 6);
            assert!(outcome.is_err());
        }
        Reading::More(part) => panic!("{part:?}"),
    }
    match read(b"PUB a 1\r\nxYZPING\r\n", false) {
        Reading::Done { used, outcome } => {
            assert_eq!(used, 12);
            assert_eq!(outcome, Err(Error::PayloadNoCrlf));
        }
        Reading::More(part) => panic!("{part:?}"),
    }
}

#[test]
fn a_subject_of_two_words_does_not_survive() {
    let line = Line::Pub {
        subject: "two words".into(),
        reply: None,
        payload: Vec::new(),
    };
    let back = read_closed(&encode(&line)).expect("read").expect("one");
    let other = Line::Pub {
        subject: "two".into(),
        reply: Some("words".into()),
        payload: Vec::new(),
    };
    assert_eq!(back, other);
}
