//! The client's side of one connection to a server.

use crate::error::Error;
use crate::error::ErrorModel;
use crate::step;
use crate::step::Arrived;
use crate::step::ArrivedModel;
use crate::step::Step;
use crate::step::StepModel;
use crate::text;
use crate::wire::Line;
use crate::wire::LineModel;
use vstd::prelude::*;
use vstd::slice::slice_to_vec;

verus! {

/// One connected client: publishes, subscribes, takes what the server sends.
#[derive(Debug)]
pub struct Client {
    server: String,
    info: String,
    next_sid: u64,
}

/// What a client knows: its server, the INFO that opened the connection, and
/// the number of subscriptions it has made.
pub struct ClientModel {
    pub server: Seq<char>,
    pub info: Seq<char>,
    pub subscriptions: nat,
}

impl View for Client {
    type V = ClientModel;

    closed spec fn view(&self) -> ClientModel {
        ClientModel {
            server: self.server@,
            info: self.info@,
            subscriptions: self.next_sid as nat,
        }
    }
}

/// What a client that goes by `name` says of itself in CONNECT.
pub open spec fn connect_json(name: Seq<char>) -> Seq<char> {
    "{\"verbose\":false,\"pedantic\":false,\"name\":\""@ + name
        + "\",\"lang\":\"rust\",\"version\":\"0.1.0\"}"@
}

/// Where a message came from: the server, the subject and the sid.
pub open spec fn message_origin(server: Seq<char>, subject: Seq<char>, sid: Seq<char>) -> Seq<
    char,
> {
    "nats://"@ + server + "/"@ + subject + "?sid="@ + sid
}

/// The sid of a client's subscription number `n`.
pub open spec fn sid_of(n: nat) -> Seq<char> {
    text::decimal(n)
}

/// What a client that waits for a message does with a line, or with the close.
pub open spec fn message_step(client: ClientModel, read: Option<LineModel>) -> StepModel<
    Result<Option<ArrivedModel>, ErrorModel>,
> {
    match read {
        Some(LineModel::Msg { subject, sid, reply, payload }) => StepModel {
            reply: None,
            result: Some(
                Ok(
                    Some(
                        ArrivedModel {
                            origin_uri: message_origin(client.server, subject, sid),
                            bytes: payload,
                        },
                    ),
                ),
            ),
        },
        Some(LineModel::Ping) => StepModel { reply: Some(LineModel::Pong), result: None },
        Some(LineModel::MinusErr(message)) => StepModel {
            reply: None,
            result: Some(Err(ErrorModel::Reported(message))),
        },
        Some(_) => StepModel { reply: None, result: None },
        None => StepModel { reply: None, result: Some(Ok(None)) },
    }
}

/// What a client that waits for its PONG does with a line, or with the close.
pub open spec fn flush_step(read: Option<LineModel>) -> StepModel<Result<(), ErrorModel>> {
    match read {
        Some(LineModel::Pong) => StepModel { reply: None, result: Some(Ok(())) },
        Some(LineModel::Ping) => StepModel { reply: Some(LineModel::Pong), result: None },
        Some(LineModel::MinusErr(message)) => StepModel {
            reply: None,
            result: Some(Err(ErrorModel::Reported(message))),
        },
        Some(_) => StepModel { reply: None, result: None },
        None => StepModel { reply: None, result: Some(Err(ErrorModel::ClosedBeforePong)) },
    }
}

/// A step of a flush, as a model.
pub open spec fn flush_model(step: Step<Result<(), Error>>) -> StepModel<Result<(), ErrorModel>> {
    StepModel {
        reply: step::line_or_none(step.reply),
        result: match step.result {
            Some(Ok(())) => Some(Ok(())),
            Some(Err(error)) => Some(Err(error@)),
            None => None,
        },
    }
}

impl Client {
    /// Take what the server at `server` opened with: where it is INFO, a client
    /// and the CONNECT to answer with, in which the client goes by `name`.
    ///
    /// # Errors
    /// Where the server did not open with INFO.
    pub fn connect(server: &str, name: &str, opening: Option<Line>) -> (res: Result<
        (Self, Line),
        Error,
    >)
        ensures
            match step::line_or_none(opening) {
                Some(LineModel::Info(info)) => {
                    &&& res is Ok
                    &&& res->Ok_0.0@ == (ClientModel { server: server@, info, subscriptions: 0 })
                    &&& res->Ok_0.1@ == LineModel::Connect(connect_json(name@))
                },
                _ => res is Err && res->Err_0@ == ErrorModel::NoInfo,
            },
    {
        match opening {
            Some(Line::Info(info)) => {
                let mut json = "{\"verbose\":false,\"pedantic\":false,\"name\":\"".to_owned();
                json.append(name);
                json.append("\",\"lang\":\"rust\",\"version\":\"0.1.0\"}");
                let client = Client { server: server.to_owned(), info, next_sid: 0 };
                Ok((client, Line::Connect(json)))
            },
            _ => Err(Error::NoInfo),
        }
    }

    /// The INFO the server opened with, as it wrote it.
    #[must_use]
    pub fn info(&self) -> (res: &str)
        ensures
            res@ == self@.info,
    {
        self.info.as_str()
    }

    /// How many subscriptions this client has made.
    #[must_use]
    pub fn subscriptions(&self) -> (res: u64)
        ensures
            res == self@.subscriptions,
    {
        self.next_sid
    }

    /// The line that publishes `payload` on `subject`. Fire and forget: no
    /// answer comes.
    #[must_use]
    pub fn publish(&self, subject: &str, payload: &[u8]) -> (res: Line)
        ensures
            res@ == (LineModel::Pub { subject: subject@, reply: None, payload: payload@ }),
    {
        Line::Pub { subject: subject.to_owned(), reply: None, payload: slice_to_vec(payload) }
    }

    /// Subscribe to `subject`: the sid that names the subscription, and the line
    /// that makes it.
    pub fn subscribe(&mut self, subject: &str) -> (res: (String, Line))
        requires
            old(self)@.subscriptions < u64::MAX,
        ensures
            final(self)@ == (ClientModel {
                subscriptions: (old(self)@.subscriptions + 1) as nat,
                ..old(self)@
            }),
            res.0@ == sid_of(final(self)@.subscriptions),
            res.1@ == (LineModel::Sub { subject: subject@, queue: None, sid: res.0@ }),
    {
        self.next_sid = self.next_sid + 1;
        let sid = text::decimal_text(self.next_sid);
        let line = Line::Sub { subject: subject.to_owned(), queue: None, sid: sid.clone() };
        (sid, line)
    }

    /// The line that asks the server to catch up: a flush opens with it.
    #[must_use]
    pub fn flush_line(&self) -> (res: Line)
        ensures
            res@ == LineModel::Ping,
    {
        Line::Ping
    }

    /// Wait for the server to catch up: after the line that asks it to, what each
    /// line it sends asks for, or its close, until the PONG that says so.
    pub fn flush(&self, read: Option<Line>) -> (res: Step<Result<(), Error>>)
        ensures
            flush_model(res) == flush_step(step::line_or_none(read)),
            match read {
                Some(Line::Pong) => res.reply is None && res.result == Some(Ok::<(), Error>(())),
                Some(Line::Ping) => res.reply == Some(Line::Pong) && res.result is None,
                Some(Line::MinusErr(message)) => res.reply is None && res.result == Some(
                    Err::<(), _>(Error::Reported(message)),
                ),
                Some(_) => res.reply is None && res.result is None,
                None => res.reply is None && res.result == Some(
                    Err::<(), _>(Error::ClosedBeforePong),
                ),
            },
    {
        match read {
            Some(Line::Pong) => Step::done(Ok(())),
            Some(Line::Ping) => Step::reply(Line::Pong),
            Some(Line::MinusErr(message)) => Step::done(Err(Error::Reported(message))),
            Some(_) => Step::on(),
            None => Step::done(Err(Error::ClosedBeforePong)),
        }
    }

    /// The next message the server delivers, or `None` when it closed: what each
    /// line it sends asks for, or its close.
    pub fn next_message(&self, read: Option<Line>) -> (res: Step<Result<Option<Arrived>, Error>>)
        ensures
            step::arrival_step(res) == message_step(self@, step::line_or_none(read)),
            match read {
                Some(Line::Msg { subject, sid, reply: _, payload }) => {
                    &&& res.reply is None
                    &&& res.result matches Some(Ok(Some(arrived)))
                    &&& arrived.origin_uri@ == "nats://"@ + self@.server + "/"@ + subject@
                        + "?sid="@ + sid@
                    &&& arrived.bytes@ == payload@
                },
                Some(Line::Ping) => res.reply == Some(Line::Pong) && res.result is None,
                Some(Line::MinusErr(message)) => res.reply is None && res.result == Some(
                    Err::<Option<Arrived>, _>(Error::Reported(message)),
                ),
                Some(_) => res.reply is None && res.result is None,
                None => res.reply is None && res.result == Some(Ok::<Option<Arrived>, Error>(None)),
            },
    {
        match read {
            Some(Line::Msg { subject, sid, payload, .. }) => {
                let mut origin = "nats://".to_owned();
                origin.append(self.server.as_str());
                origin.append("/");
                origin.append(subject.as_str());
                origin.append("?sid=");
                origin.append(sid.as_str());
                Step::done(Ok(Some(Arrived::new(origin, payload))))
            },
            Some(Line::Ping) => Step::reply(Line::Pong),
            Some(Line::MinusErr(message)) => Step::done(Err(Error::Reported(message))),
            Some(_) => Step::on(),
            None => Step::done(Ok(None)),
        }
    }
}

} // verus!
