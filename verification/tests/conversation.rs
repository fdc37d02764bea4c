//! A client and a session that speak to each other through two pipes.

use std::time::Duration;
use transport_nats::location::receive;
use transport_nats::location::taken;
use transport_nats::location::Incoming;
use transport_nats::location::Receive;
use transport_nats::session::greeting;
use transport_nats::wire::encode;
use transport_nats::wire::read;
use transport_nats::wire::Reading;
use transport_nats::Arrived;
use transport_nats::Client;
use transport_nats::Error;
use transport_nats::Event;
use transport_nats::Line;
use transport_nats::NatsTransport;
use transport_nats::Session;
use transport_nats::Step;

/// Bytes on their way to one end, and whether the other end has closed.
struct Pipe {
    bytes: Vec<u8>,
    closed: bool,
}

impl Pipe {
    fn open() -> Self {
        Self {
            bytes: Vec::new(),
            closed: false,
        }
    }

    fn write(&mut self, line: &Line) {
        self.bytes.extend_from_slice(&encode(line));
    }

    /// The next line; the conversation is written so that one is there.
    fn read(&mut self) -> Result<Option<Line>, Error> {
        match read(&self.bytes, self.closed) {
            Reading::Done { used, outcome } => {
                self.bytes.drain(..used);
                outcome
            }
            Reading::More(part) => panic!("nothing to read: waiting for {part:?}"),
        }
    }
}

/// Step until there is a result, writing replies to `out`.
fn run<T>(
    input: &mut Pipe,
    out: &mut Pipe,
    mut step: impl FnMut(Option<Line>) -> Step<Result<T, Error>>,
) -> Result<T, Error> {
    loop {
        let line = input.read()?;
        let step = step(line);
        if let Some(reply) = &step.reply {
            out.write(reply);
        }
        if let Some(result) = step.result {
            return result;
        }
    }
}

/// Both ends after the handshake, and the pipes to the client and the session.
fn connected(server: &str, name: &str) -> (Client, Session, Pipe, Pipe) {
    let (mut to_client, mut to_session) = (Pipe::open(), Pipe::open());
    to_client.write(&greeting());
    let opening = to_client.read().expect("opening");
    let (client, answer) = Client::connect(server, name, opening).expect("connecting");
    to_session.write(&answer);
    let answer = to_session.read().expect("answer");
    let session = Session::accept("127.0.0.1:50000", answer).expect("accepting");
    (client, session, to_client, to_session)
}

/// Connect and send as a Send Location does, and what the session takes.
fn sent(near: &NatsTransport, target: &str, named: Option<(&str, &str)>, payload: &[u8]) -> (Session, Vec<Arrived>) {
    let (server, subject) = near.resolve(target, named);
    let (client, mut session, mut to_client, mut to_session) = connected(server, near.name());
    to_session.write(&client.publish(subject, payload));
    to_session.write(&client.flush_line());
    let mut arrived = Vec::new();
    let first = run(&mut to_session, &mut to_client, |line| session.next_publish(line));
    arrived.push(taken(first.expect("first")).expect("one"));
    to_session.closed = true;
    let second = run(&mut to_session, &mut to_client, |line| session.next_publish(line));
    assert!(second.expect("closed").is_none());
    run(&mut to_client, &mut to_session, |line| client.flush(line)).expect("flushed");
    (session, arrived)
}

#[test]
fn a_client_publishes_to_a_session() {
    let address = "127.0.0.1:4222";
    let near = NatsTransport::new(address, "probe")
        .named("probe")
        .timing_out_after(secs(2));
    let (session, arrived) = sent(&near, "orders.new", None, b"order 1\r\nline 2");
    assert!(session.connect().contains(r#""name":"probe""#));
    assert_eq!(arrived[0].bytes, b"order 1\r\nline 2");
    assert!(arrived[0].origin_uri.ends_with("/orders.new"));
    let target = format!("nats://{address}/orders.cancel");
    let (_, arrived) = sent(&near, &target, Some((address, "orders.cancel")), b"");
    assert!(arrived[0].origin_uri.ends_with("/orders.cancel"));
    assert!(arrived[0].bytes.is_empty());
}

#[test]
fn a_session_delivers_to_a_subscribed_client() {
    let (mut client, mut session, mut to_client, mut to_session) = connected("server:4222", "xmip");
    let (sid, line) = client.subscribe("orders.*");
    assert_eq!(sid, "1");
    to_session.write(&line);
    let event = run(&mut to_session, &mut to_client, |line| session.next_event(line));
    assert_eq!(
        event.expect("subscribed"),
        Some(Event::Subscribed {
            subject: "orders.*".to_string(),
            sid: "1".to_string()
        })
    );
    to_client.write(&session.deliver("orders.new", b"first"));
    to_client.write(&session.deliver("orders.cancel", b"second"));
    to_client.closed = true;
    let mut arrived = Vec::new();
    loop {
        let next = match run(&mut to_client, &mut to_session, |line| client.next_message(line)) {
            Ok(Some(message)) => Incoming::Message(message),
            Ok(None) => Incoming::Closed,
            Err(error) => panic!("{error:?}"),
        };
        match receive(&mut arrived, next) {
            Receive::On => {}
            Receive::Finish => break,
            Receive::GiveUp => panic!("gave up"),
        }
    }
    assert_eq!(arrived.len(), 2);
    assert_eq!(arrived[0].bytes, b"first");
    assert!(arrived[1].origin_uri.ends_with("/orders.cancel?sid=1"));
    assert_eq!(arrived[0].origin_uri, "nats://server:4222/orders.new?sid=1");
}

#[test]
fn a_server_that_does_not_speak_nats_is_refused() {
    let mut to_client = Pipe::open();
    to_client.bytes.extend_from_slice(b"220 mail.example ESMTP\r\n");
    let error = to_client.read().expect_err("refused");
    assert_eq!(error, Error::UnknownVerb("220".into()));
    assert!(error.is_protocol());
    for opening in [None, Some(Line::Ping), Some(Line::Connect("{}".into()))] {
        let error = Client::connect("s", "n", opening).map(|_| ()).expect_err("refused");
        assert_eq!(error, Error::NoInfo);
    }
    for answer in [None, Some(Line::Ping), Some(Line::Info("{}".into()))] {
        let error = Session::accept("p", answer).map(|_| ()).expect_err("refused");
        assert_eq!(error, Error::NoConnect);
    }
}

#[test]
fn the_handshake_is_what_each_end_wrote() {
    let (client, session, _, _) = connected("s", "a \"b\"\r c");
    assert_eq!(
        client.info(),
        r#"{"server_id":"xmip","version":"0.1.0","headers":false,"max_payload":1048576}"#
    );
    assert_eq!(
        session.connect(),
        "{\"verbose\":false,\"pedantic\":false,\"name\":\"a \"b\"\r c\",\"lang\":\"rust\",\"version\":\"0.1.0\"}"
    );
    assert!(session.subscribed().is_empty());
}

#[test]
fn the_payload_and_its_origin_come_round() {
    let loopback = NatsTransport::loopback(secs(5));
    assert_eq!(loopback.server(), "127.0.0.1:0");
    assert_eq!(loopback.subject(), "probe");
    assert_eq!(loopback.name(), "xmip");
    assert_eq!(loopback.timeout(), Some(secs(5)));
    let payloads: [&[u8]; 6] = [b"pub\r\nlished", b"", b"\r\n", b"PING\r\n", &[0, 255], &[7; 70000]];
    for payload in payloads {
        let address = "127.0.0.1:40000";
        let target = loopback.target_at(address);
        assert_eq!(target, "nats://127.0.0.1:40000/probe");
        let near = loopback.at(address);
        let (_, arrived) = sent(&near, &target, Some((address, "probe")), payload);
        assert_eq!(arrived[0].bytes, payload);
        assert!(arrived[0].origin_uri.starts_with("nats://127.0.0.1:"));
        assert!(arrived[0].origin_uri.ends_with("/probe"));
    }
}

#[test]
fn each_subscription_has_a_sid_of_its_own() {
    let (mut client, _, _, _) = connected("s", "n");
    let mut seen = Vec::new();
    for _ in 0..25 {
        let (sid, line) = client.subscribe("a");
        let expected = Line::Sub {
            subject: "a".into(),
            queue: None,
            sid: sid.clone(),
        };
        assert_eq!(line, expected);
        assert!(!seen.contains(&sid));
        seen.push(sid);
    }
    assert_eq!(client.subscriptions(), 25);
    assert_eq!(seen[9], "10");
}

#[test]
fn subscriptions_are_kept_until_they_end() {
    let (_, mut session, _, _) = connected("s", "n");
    let sub = |subject: &str, sid: &str| Line::Sub {
        subject: subject.into(),
        queue: None,
        sid: sid.into(),
    };
    let sid_for = |session: &Session, subject: &str| match session.deliver(subject, b"") {
        Line::Msg { sid, .. } => sid,
        other => panic!("{other:?}"),
    };
    assert_eq!(sid_for(&session, "a"), "1");
    session.next_event(Some(sub("a", "7")));
    session.next_event(Some(sub("b", "8")));
    session.next_event(Some(sub("a", "9")));
    assert_eq!(sid_for(&session, "a"), "7");
    assert_eq!(sid_for(&session, "b"), "8");
    assert_eq!(sid_for(&session, "c"), "7");
    let step = session.next_event(Some(Line::Unsub { sid: "7".into() }));
    assert!(step.reply.is_none() && step.result.is_none());
    let kept: Vec<(&str, &str)> = session
        .subscribed()
        .iter()
        .map(|(subject, sid)| (subject.as_str(), sid.as_str()))
        .collect();
    assert_eq!(kept, [("b", "8"), ("a", "9")]);
    assert_eq!(sid_for(&session, "a"), "9");
    assert_eq!(sid_for(&session, "c"), "8");
    session.next_event(Some(Line::Unsub { sid: "none".into() }));
    assert_eq!(session.subscribed().len(), 2);
}

#[test]
fn pings_are_answered_on_the_way() {
    let (client, mut session, mut to_client, mut to_session) = connected("s", "n");
    for line in [Line::Ping, Line::Pong, Line::Connect("{}".into()), Line::Ping] {
        to_session.write(&line);
    }
    to_session.write(&client.publish("a", b"x"));
    let arrived = run(&mut to_session, &mut to_client, |line| session.next_publish(line))
        .expect("next")
        .expect("one");
    assert_eq!(arrived, Arrived::new("nats://127.0.0.1:50000/a".into(), b"x".to_vec()));
    assert_eq!(to_client.bytes, b"PONG\r\nPONG\r\n");
    to_client.bytes.clear();
    for line in [Line::Ping, Line::PlusOk, Line::Info("{}".into()), Line::Ping] {
        to_client.write(&line);
    }
    to_client.write(&session.deliver("a", b"y"));
    to_client.write(&Line::Ping);
    to_client.write(&Line::Pong);
    let arrived = run(&mut to_client, &mut to_session, |line| client.next_message(line))
        .expect("next")
        .expect("one");
    assert_eq!(arrived, Arrived::new("nats://s/a?sid=1".into(), b"y".to_vec()));
    assert_eq!(to_session.bytes, b"PONG\r\nPONG\r\n");
    run(&mut to_client, &mut to_session, |line| client.flush(line)).expect("flushed");
    assert_eq!(to_session.bytes, b"PONG\r\nPONG\r\nPONG\r\n");
}

#[test]
fn a_client_that_speaks_as_a_server_is_told() {
    let lines = [
        Line::Info("{}".into()),
        Line::Msg {
            subject: "a".into(),
            sid: "1".into(),
            reply: None,
            payload: Vec::new(),
        },
        Line::PlusOk,
        Line::MinusErr("no".into()),
    ];
    for line in lines {
        let (client, mut session, mut to_client, mut to_session) = connected("s", "n");
        to_session.write(&line);
        let result = run(&mut to_session, &mut to_client, |line| session.next_event(line));
        assert_eq!(result, Err(Error::FromClient(line)));
        assert_eq!(to_client.bytes, b"-ERR 'Unknown Protocol Operation'\r\n");
        let reported = Error::Reported("Unknown Protocol Operation".into());
        let mut again = Pipe::open();
        again.bytes = to_client.bytes.clone();
        let waiting = run(&mut to_client, &mut to_session, |line| client.next_message(line));
        assert_eq!(waiting, Err(reported.clone()));
        let flushing = run(&mut again, &mut to_session, |line| client.flush(line));
        assert_eq!(flushing, Err(reported));
    }
}

#[test]
fn a_close_ends_each_wait_in_its_own_way() {
    let (client, mut session, mut to_client, mut to_session) = connected("s", "n");
    to_client.closed = true;
    to_session.closed = true;
    let flushing = run(&mut to_client, &mut to_session, |line| client.flush(line));
    assert_eq!(flushing, Err(Error::ClosedBeforePong));
    let waiting = run(&mut to_client, &mut to_session, |line| client.next_message(line));
    assert_eq!(waiting, Ok(None));
    let publishing = run(&mut to_session, &mut to_client, |line| session.next_publish(line));
    assert_eq!(publishing, Ok(None));
    assert_eq!(taken(None), Err(Error::NothingPublished));
}

#[test]
fn what_arrived_is_handed_up_unless_nothing_did() {
    let message = || Incoming::Message(Arrived::new("o".into(), vec![1]));
    let mut arrived = Vec::new();
    assert_eq!(receive(&mut arrived, Incoming::Failed { retryable: true }), Receive::GiveUp);
    assert_eq!(receive(&mut arrived, Incoming::Failed { retryable: false }), Receive::GiveUp);
    assert_eq!(receive(&mut arrived, Incoming::Closed), Receive::Finish);
    assert!(arrived.is_empty());
    assert_eq!(receive(&mut arrived, message()), Receive::On);
    assert_eq!(receive(&mut arrived, message()), Receive::On);
    assert_eq!(receive(&mut arrived, Incoming::Failed { retryable: true }), Receive::Finish);
    assert_eq!(receive(&mut arrived, Incoming::Failed { retryable: false }), Receive::GiveUp);
    assert_eq!(arrived.len(), 2);
}

#[test]
fn a_target_names_its_server_or_is_a_subject() {
    let here = NatsTransport::new("here:4222", "mine");
    assert_eq!(here.timeout(), None);
    assert_eq!(here.name(), "xmip");
    assert_eq!(here.resolve("orders.new", None), ("here:4222", "orders.new"));
    let named = "nats://there:4222/orders.new";
    assert_eq!(
        here.resolve(named, Some(("there:4222", "orders.new"))),
        ("there:4222", "orders.new")
    );
    assert_eq!(
        here.resolve("nats://there:4222", Some(("there:4222", ""))),
        ("there:4222", "mine")
    );
    let there = here.at("there:4222");
    assert_eq!(there.server(), "there:4222");
    assert_eq!(there.subject(), "mine");
}

fn secs(n: u64) -> Duration {
    Duration::from_secs(n)
}
