//! A Location that speaks to a server about one subject, or accepts clients
//! itself.

use crate::error::Error;
use crate::error::ErrorModel;
use crate::step::Arrived;
use std::time::Duration;
use vstd::prelude::*;

verus! {

/// Where a Location connects or listens, what it is about, the name it goes by
/// and how long it waits.
#[derive(Clone, Debug)]
pub struct NatsTransport {
    server: String,
    subject: String,
    name: String,
    timeout: Option<Duration>,
}

/// A Location with its texts as sequences of characters.
pub struct NatsTransportModel {
    pub server: Seq<char>,
    pub subject: Seq<char>,
    pub name: Seq<char>,
    pub timeout: Option<Duration>,
}

impl View for NatsTransport {
    type V = NatsTransportModel;

    closed spec fn view(&self) -> NatsTransportModel {
        NatsTransportModel {
            server: self.server@,
            subject: self.subject@,
            name: self.name@,
            timeout: self.timeout,
        }
    }
}

/// The server and subject that a target stands for, where `named` is what it
/// names itself if it names a server: that server and its subject, or this
/// Location's subject where it names none; or else this Location's server, with
/// the target as the subject.
pub open spec fn resolved(
    location: NatsTransportModel,
    target: Seq<char>,
    named: Option<(Seq<char>, Seq<char>)>,
) -> (Seq<char>, Seq<char>) {
    match named {
        Some((server, subject)) => if subject.len() == 0 {
            (server, location.subject)
        } else {
            (server, subject)
        },
        None => (location.server, target),
    }
}

/// A target that may name a server and a subject, as sequences of characters.
pub open spec fn named_model(named: Option<(&str, &str)>) -> Option<(Seq<char>, Seq<char>)> {
    match named {
        Some((server, subject)) => Some((server@, subject@)),
        None => None,
    }
}

/// The target that names `address` and `subject` both.
pub open spec fn target_text(address: Seq<char>, subject: Seq<char>) -> Seq<char> {
    "nats://"@ + address + "/"@ + subject
}

/// What came of waiting for the next message.
pub enum Incoming {
    /// A message.
    Message(Arrived),
    /// The server closed.
    Closed,
    /// The wait failed; it may be worth another try.
    Failed { retryable: bool },
}

/// What a Location that receives does next.
#[derive(Clone, Copy, Debug, PartialEq, Eq, Structural)]
pub enum Receive {
    /// Wait for the next message.
    On,
    /// Hand up what has arrived.
    Finish,
    /// Hand up the failure.
    GiveUp,
}

/// What a Location that has received `arrived` messages does with what came
/// next.
pub open spec fn receive_next(arrived: nat, next: Incoming) -> Receive {
    match next {
        Incoming::Message(message) => Receive::On,
        Incoming::Closed => Receive::Finish,
        Incoming::Failed { retryable } => if retryable && arrived > 0 {
            Receive::Finish
        } else {
            Receive::GiveUp
        },
    }
}

/// The messages that have arrived once `next` has come.
pub open spec fn arrived_after(arrived: Seq<Arrived>, next: Incoming) -> Seq<Arrived> {
    match next {
        Incoming::Message(message) => arrived.push(message),
        _ => arrived,
    }
}

impl NatsTransport {
    /// Speak to the server at `server` about `subject`.
    #[must_use]
    pub fn new(server: &str, subject: &str) -> (res: Self)
        ensures
            res@ == (NatsTransportModel {
                server: server@,
                subject: subject@,
                name: "xmip"@,
                timeout: None,
            }),
    {
        NatsTransport {
            server: server.to_owned(),
            subject: subject.to_owned(),
            name: "xmip".to_owned(),
            timeout: None,
        }
    }

    /// The name this Location presents in CONNECT.
    #[must_use]
    pub fn named(self, name: &str) -> (res: Self)
        ensures
            res@ == (NatsTransportModel { name: name@, ..self@ }),
    {
        NatsTransport { name: name.to_owned(), ..self }
    }

    /// Give up on a peer that stops mid-line, and stop receiving when the server
    /// has been quiet this long.
    #[must_use]
    pub fn timing_out_after(self, timeout: Duration) -> (res: Self)
        ensures
            res@ == (NatsTransportModel { timeout: Some(timeout), ..self@ }),
    {
        NatsTransport { timeout: Some(timeout), ..self }
    }

    /// Both ends on this machine: an ephemeral local port, `timeout`, one subject
    /// called `probe`.
    #[must_use]
    pub fn loopback(timeout: Duration) -> (res: Self)
        ensures
            res@ == (NatsTransportModel {
                server: "127.0.0.1:0"@,
                subject: "probe"@,
                name: "xmip"@,
                timeout: Some(timeout),
            }),
    {
        Self::new("127.0.0.1:0", "probe").timing_out_after(timeout)
    }

    /// The server this Location speaks to, or the address it binds.
    #[must_use]
    pub fn server(&self) -> (res: &str)
        ensures
            res@ == self@.server,
    {
        self.server.as_str()
    }

    /// The subject this Location is about.
    #[must_use]
    pub fn subject(&self) -> (res: &str)
        ensures
            res@ == self@.subject,
    {
        self.subject.as_str()
    }

    /// The name this Location presents in CONNECT.
    #[must_use]
    pub fn name(&self) -> (res: &str)
        ensures
            res@ == self@.name,
    {
        self.name.as_str()
    }

    /// How long this Location waits, if not for ever.
    #[must_use]
    pub fn timeout(&self) -> (res: Option<Duration>)
        ensures
            res == self@.timeout,
    {
        self.timeout
    }

    /// Where a target names the server and subject itself (`named`, what
    /// `nats://host:4222/orders.new` names) or is a subject alone on this
    /// Location's server.
    #[must_use]
    pub fn resolve<'a>(&'a self, target: &'a str, named: Option<(&'a str, &'a str)>) -> (res: (
        &'a str,
        &'a str,
    ))
        ensures
            (res.0@, res.1@) == resolved(self@, target@, named_model(named)),
    {
        match named {
            Some((server, subject)) => if subject.is_empty() {
                (server, self.subject.as_str())
            } else {
                (server, subject)
            },
            None => (self.server.as_str(), target),
        }
    }

    /// This Location, but speaking to the server at `address`.
    #[must_use]
    pub fn at(&self, address: &str) -> (res: Self)
        ensures
            res@ == (NatsTransportModel { server: address@, ..self@ }),
    {
        NatsTransport {
            server: address.to_owned(),
            subject: self.subject.clone(),
            name: self.name.clone(),
            timeout: self.timeout,
        }
    }

    /// The target that names `address` and this Location's subject.
    #[must_use]
    pub fn target_at(&self, address: &str) -> (res: String)
        ensures
            res@ == target_text(address@, self@.subject),
    {
        let mut target = "nats://".to_owned();
        target.append(address);
        target.append("/");
        target.append(self.subject.as_str());
        target
    }
}

/// Take what came of waiting for the next message, behind what has arrived
/// before: what to do next.
pub fn receive(arrived: &mut Vec<Arrived>, next: Incoming) -> (res: Receive)
    ensures
        final(arrived)@ == arrived_after(old(arrived)@, next),
        res == receive_next(old(arrived)@.len(), next),
{
    match next {
        Incoming::Message(message) => {
            arrived.push(message);
            Receive::On
        },
        Incoming::Closed => Receive::Finish,
        Incoming::Failed { retryable } => if retryable && arrived.len() > 0 {
            Receive::Finish
        } else {
            Receive::GiveUp
        },
    }
}

/// The one Stream that a client was accepted for.
///
/// # Errors
/// Where the client closed without publishing.
pub fn taken(first: Option<Arrived>) -> (res: Result<Arrived, Error>)
    ensures
        match first {
            Some(arrived) => res == Ok::<Arrived, Error>(arrived),
            None => res is Err && res->Err_0@ == ErrorModel::NothingPublished,
        },
{
    match first {
        Some(arrived) => Ok(arrived),
        None => Err(Error::NothingPublished),
    }
}

} // verus!
