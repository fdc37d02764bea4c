//! The server's side of one connection: what a Receive Location that accepts
//! clients directly runs.
//!
//! Not a server. One session serves one client and keeps no subject tree; what
//! it takes is handed up as Streams and what it is given is delivered to its one
//! client under the sid the client chose.

use crate::error::Error;
use crate::error::ErrorModel;
use crate::step;
use crate::step::Arrived;
use crate::step::ArrivedModel;
use crate::step::Step;
use crate::step::StepModel;
use crate::text;
use crate::wire::Line;
use crate::wire::LineModel;
use vstd::prelude::*;
use vstd::slice::slice_to_vec;

verus! {

/// What a client did, as [`Session::next_event`] reports it.
#[derive(Clone, Debug, PartialEq, Eq)]
pub enum Event {
    /// The client published; here is the Stream.
    Published(Arrived),
    /// The client subscribed to `subject` under `sid`.
    Subscribed { subject: String, sid: String },
}

/// An event with its texts and Stream as models.
pub enum EventModel {
    Published(ArrivedModel),
    Subscribed { subject: Seq<char>, sid: Seq<char> },
}

impl View for Event {
    type V = EventModel;

    open spec fn view(&self) -> EventModel {
        match *self {
            Event::Published(arrived) => EventModel::Published(arrived@),
            Event::Subscribed { subject, sid } => EventModel::Subscribed {
                subject: subject@,
                sid: sid@,
            },
        }
    }
}

/// One client's session.
#[derive(Debug)]
pub struct Session {
    peer: String,
    connect: String,
    subscribed: Vec<(String, String)>,
}

/// One subscription: the subject, and the sid that names it.
pub struct Subscription {
    pub subject: Seq<char>,
    pub sid: Seq<char>,
}

/// What a session knows: its peer, the CONNECT the client sent, and the
/// subscriptions the client has, oldest first.
pub struct SessionModel {
    pub peer: Seq<char>,
    pub connect: Seq<char>,
    pub subscribed: Seq<Subscription>,
}

/// Subscriptions kept as pairs of texts.
pub open spec fn subscriptions(pairs: Seq<(String, String)>) -> Seq<Subscription> {
    Seq::new(pairs.len(), |i: int| Subscription { subject: pairs[i].0@, sid: pairs[i].1@ })
}

impl View for Session {
    type V = SessionModel;

    closed spec fn view(&self) -> SessionModel {
        SessionModel {
            peer: self.peer@,
            connect: self.connect@,
            subscribed: subscriptions(self.subscribed@),
        }
    }
}

/// What a session says of itself in INFO.
pub open spec fn info_json() -> Seq<char> {
    "{\"server_id\":\"xmip\",\"version\":\"0.1.0\",\"headers\":false,\"max_payload\":1048576}"@
}

/// Where a Stream that a client published came from: the client and the subject.
pub open spec fn publish_origin(peer: Seq<char>, subject: Seq<char>) -> Seq<char> {
    "nats://"@ + peer + "/"@ + subject
}

/// The subscriptions that are left when those under `sid` have ended.
pub open spec fn without(subscribed: Seq<Subscription>, sid: Seq<char>) -> Seq<Subscription>
    decreases subscribed.len(),
{
    if subscribed.len() == 0 {
        Seq::empty()
    } else if subscribed.last().sid == sid {
        without(subscribed.drop_last(), sid)
    } else {
        without(subscribed.drop_last(), sid).push(subscribed.last())
    }
}

/// The sid that a message on `subject` is delivered under: that of the oldest
/// subscription to `subject`, or else of the oldest there is, or else `1`.
pub open spec fn delivery_sid(subscribed: Seq<Subscription>, subject: Seq<char>) -> Seq<char> {
    let n = first_to(subscribed, subject) as int;
    if n < subscribed.len() {
        subscribed[n].sid
    } else if subscribed.len() > 0 {
        subscribed[0].sid
    } else {
        "1"@
    }
}

/// Where the oldest subscription to `subject` stands, or the end.
pub open spec fn first_to(subscribed: Seq<Subscription>, subject: Seq<char>) -> nat
    decreases subscribed.len(),
{
    if subscribed.len() == 0 || subscribed[0].subject == subject {
        0
    } else {
        1 + first_to(subscribed.drop_first(), subject)
    }
}

/// What a line that the client sent does to a session's subscriptions.
pub open spec fn subscribed_after(subscribed: Seq<Subscription>, read: Option<LineModel>) -> Seq<
    Subscription,
> {
    match read {
        Some(LineModel::Sub { subject, queue, sid }) => subscribed.push(
            Subscription { subject, sid },
        ),
        Some(LineModel::Unsub { sid }) => without(subscribed, sid),
        _ => subscribed,
    }
}

/// What a session does with a line that the client sent, or with the close.
pub open spec fn event_step(peer: Seq<char>, read: Option<LineModel>) -> StepModel<
    Result<Option<EventModel>, ErrorModel>,
> {
    match read {
        Some(LineModel::Pub { subject, reply, payload }) => StepModel {
            reply: None,
            result: Some(
                Ok(
                    Some(
                        EventModel::Published(
                            ArrivedModel {
                                origin_uri: publish_origin(peer, subject),
                                bytes: payload,
                            },
                        ),
                    ),
                ),
            ),
        },
        Some(LineModel::Sub { subject, queue, sid }) => StepModel {
            reply: None,
            result: Some(Ok(Some(EventModel::Subscribed { subject, sid }))),
        },
        Some(LineModel::Ping) => StepModel { reply: Some(LineModel::Pong), result: None },
        Some(LineModel::Unsub { sid }) => StepModel { reply: None, result: None },
        Some(LineModel::Pong) => StepModel { reply: None, result: None },
        Some(LineModel::Connect(json)) => StepModel { reply: None, result: None },
        None => StepModel { reply: None, result: Some(Ok(None)) },
        Some(other) => StepModel {
            reply: Some(LineModel::MinusErr("Unknown Protocol Operation"@)),
            result: Some(Err(ErrorModel::FromClient(other))),
        },
    }
}

/// An event, or none because the client closed, or an error, as models.
pub open spec fn event_result(res: Result<Option<Event>, Error>) -> Result<
    Option<EventModel>,
    ErrorModel,
> {
    match res {
        Ok(Some(event)) => Ok(Some(event@)),
        Ok(None) => Ok(None),
        Err(error) => Err(error@),
    }
}

/// A step towards an event, as a model.
pub open spec fn event_model(step: Step<Result<Option<Event>, Error>>) -> StepModel<
    Result<Option<EventModel>, ErrorModel>,
> {
    StepModel {
        reply: step::line_or_none(step.reply),
        result: match step.result {
            Some(res) => Some(event_result(res)),
            None => None,
        },
    }
}

/// What a session that waits for a Stream does with a line, or with the close:
/// as for any event, but a subscription is not what it waits for.
pub open spec fn publish_step(peer: Seq<char>, read: Option<LineModel>) -> StepModel<
    Result<Option<ArrivedModel>, ErrorModel>,
> {
    let step = event_step(peer, read);
    StepModel {
        reply: step.reply,
        result: match step.result {
            Some(Ok(Some(EventModel::Published(arrived)))) => Some(Ok(Some(arrived))),
            Some(Ok(Some(EventModel::Subscribed { subject, sid }))) => None,
            Some(Ok(None)) => Some(Ok(None)),
            Some(Err(error)) => Some(Err(error)),
            None => None,
        },
    }
}

/// The INFO that a session opens with.
#[must_use]
pub fn greeting() -> (res: Line)
    ensures
        res@ == LineModel::Info(info_json()),
{
    Line::Info(
        "{\"server_id\":\"xmip\",\"version\":\"0.1.0\",\"headers\":false,\"max_payload\":1048576}".to_owned(),
    )
}

impl Session {
    /// Take what the client at `peer` answered INFO with.
    ///
    /// # Errors
    /// Where the client did not answer INFO with CONNECT.
    pub fn accept(peer: &str, answer: Option<Line>) -> (res: Result<Self, Error>)
        ensures
            match step::line_or_none(answer) {
                Some(LineModel::Connect(connect)) => {
                    &&& res is Ok
                    &&& res->Ok_0@ == (SessionModel {
                        peer: peer@,
                        connect,
                        subscribed: Seq::empty(),
                    })
                },
                _ => res is Err && res->Err_0@ == ErrorModel::NoConnect,
            },
    {
        match answer {
            Some(Line::Connect(connect)) => {
                let session = Session { peer: peer.to_owned(), connect, subscribed: Vec::new() };
                assert(session@.subscribed =~= Seq::empty());
                Ok(session)
            },
            _ => Err(Error::NoConnect),
        }
    }

    /// The CONNECT the client sent, as it wrote it.
    #[must_use]
    pub fn connect(&self) -> (res: &str)
        ensures
            res@ == self@.connect,
    {
        self.connect.as_str()
    }

    /// The subscriptions taken so far, subject and sid.
    #[must_use]
    pub fn subscribed(&self) -> (res: &[(String, String)])
        ensures
            subscriptions(res@) == self@.subscribed,
    {
        self.subscribed.as_slice()
    }

    /// End the subscriptions under `sid`.
    fn end(&mut self, sid: &str)
        ensures
            final(self)@ == (SessionModel {
                subscribed: without(old(self)@.subscribed, sid@),
                ..old(self)@
            }),
    {
        let mut kept: Vec<(String, String)> = Vec::new();
        let mut i: usize = 0;
        let ghost all = subscriptions(self.subscribed@);
        while i < self.subscribed.len()
            invariant
                *self == *old(self),
                i <= self.subscribed@.len(),
                all == subscriptions(self.subscribed@),
                subscriptions(kept@) == without(all.take(i as int), sid@),
            decreases self.subscribed@.len() - i,
        {
            let ghost before = kept@;
            let ghost so_far = all.take(i + 1);
            assert(so_far.drop_last() =~= all.take(i as int));
            let pair = &self.subscribed[i];
            assert(so_far.last() == (Subscription { subject: pair.0@, sid: pair.1@ }));
            if !text::same(pair.1.as_str(), sid) {
                kept.push((pair.0.clone(), pair.1.clone()));
                assert(subscriptions(kept@) =~= subscriptions(before).push(so_far.last()));
            }
            i = i + 1;
        }
        assert(all.take(i as int) =~= all);
        self.subscribed = kept;
    }

    /// The next thing the client did, or `None` when it closed: what each line it
    /// sends asks for, or its close. Subscriptions are taken and ended on the way.
    pub fn next_event(&mut self, read: Option<Line>) -> (res: Step<Result<Option<Event>, Error>>)
        ensures
            final(self)@ == (SessionModel {
                subscribed: subscribed_after(old(self)@.subscribed, step::line_or_none(read)),
                ..old(self)@
            }),
            event_model(res) == event_step(old(self)@.peer, step::line_or_none(read)),
            match read {
                Some(Line::Pub { subject, reply: _, payload }) => {
                    &&& final(self)@ == old(self)@
                    &&& res.reply is None
                    &&& res.result matches Some(Ok(Some(Event::Published(arrived))))
                    &&& arrived.origin_uri@ == "nats://"@ + old(self)@.peer + "/"@ + subject@
                    &&& arrived.bytes@ == payload@
                },
                Some(Line::Sub { subject, queue: _, sid }) => {
                    &&& final(self)@.subscribed == old(self)@.subscribed.push(
                        Subscription { subject: subject@, sid: sid@ },
                    )
                    &&& res.reply is None
                    &&& res.result == Some(
                        Ok::<_, Error>(Some(Event::Subscribed { subject, sid })),
                    )
                },
                Some(Line::Unsub { sid: _ }) => res.reply is None && res.result is None,
                Some(Line::Ping) => res.reply == Some(Line::Pong) && res.result is None,
                Some(Line::Pong) => res.reply is None && res.result is None,
                Some(Line::Connect(_)) => res.reply is None && res.result is None,
                Some(other) => {
                    &&& final(self)@ == old(self)@
                    &&& res.reply matches Some(Line::MinusErr(told))
                    &&& told@ == "Unknown Protocol Operation"@
                    &&& res.result == Some(Err::<Option<Event>, _>(Error::FromClient(other)))
                },
                None => res.reply is None && res.result == Some(Ok::<Option<Event>, Error>(None)),
            },
    {
        match read {
            Some(Line::Pub { subject, payload, .. }) => {
                let mut origin = "nats://".to_owned();
                origin.append(self.peer.as_str());
                origin.append("/");
                origin.append(subject.as_str());
                Step::done(Ok(Some(Event::Published(Arrived::new(origin, payload)))))
            },
            Some(Line::Sub { subject, sid, .. }) => {
                self.subscribed.push((subject.clone(), sid.clone()));
                assert(subscriptions(self.subscribed@) =~= subscriptions(
                    old(self).subscribed@,
                ).push(Subscription { subject: subject@, sid: sid@ }));
                Step::done(Ok(Some(Event::Subscribed { subject, sid })))
            },
            Some(Line::Unsub { sid }) => {
                self.end(sid.as_str());
                Step::on()
            },
            Some(Line::Ping) => Step::reply(Line::Pong),
            Some(Line::Pong) => Step::on(),
            Some(Line::Connect(_)) => Step::on(),
            None => Step::done(Ok(None)),
            Some(other) => {
                let refusal = Line::MinusErr("Unknown Protocol Operation".to_owned());
                Step { reply: Some(refusal), result: Some(Err(Error::FromClient(other))) }
            },
        }
    }

    /// The next message the client publishes, or `None` when it closed: what each
    /// line it sends asks for, or its close. Subscriptions are taken on the way
    /// and pings answered.
    pub fn next_publish(&mut self, read: Option<Line>) -> (res: Step<
        Result<Option<Arrived>, Error>,
    >)
        ensures
            final(self)@ == (SessionModel {
                subscribed: subscribed_after(old(self)@.subscribed, step::line_or_none(read)),
                ..old(self)@
            }),
            step::arrival_step(res) == publish_step(old(self)@.peer, step::line_or_none(read)),
    {
        let step = self.next_event(read);
        let result = match step.result {
            Some(Ok(Some(Event::Published(arrived)))) => Some(Ok(Some(arrived))),
            Some(Ok(Some(Event::Subscribed { .. }))) => None,
            Some(Ok(None)) => Some(Ok(None)),
            Some(Err(error)) => Some(Err(error)),
            None => None,
        };
        Step { reply: step.reply, result }
    }

    /// The line that delivers `payload` on `subject` to the client, under the sid
    /// it subscribed with, or the first subscription's, or `1`.
    #[must_use]
    pub fn deliver(&self, subject: &str, payload: &[u8]) -> (res: Line)
        ensures
            res@ == (LineModel::Msg {
                subject: subject@,
                sid: delivery_sid(self@.subscribed, subject@),
                reply: None,
                payload: payload@,
            }),
    {
        let ghost all = self@.subscribed;
        let n = self.subscribed.len();
        let mut i: usize = 0;
        assert(all.skip(0) =~= all);
        while i < n && !text::same(self.subscribed[i].0.as_str(), subject)
            invariant
                i <= n == self.subscribed@.len(),
                all == self@.subscribed,
                first_to(all, subject@) == i + first_to(all.skip(i as int), subject@),
            decreases n - i,
        {
            assert(all.skip(i as int).drop_first() =~= all.skip(i + 1));
            i = i + 1;
        }
        assert(first_to(all, subject@) == i);
        let sid = if i < n {
            self.subscribed[i].1.clone()
        } else if n > 0 {
            self.subscribed[0].1.clone()
        } else {
            "1".to_owned()
        };
        Line::Msg { subject: subject.to_owned(), sid, reply: None, payload: slice_to_vec(payload) }
    }
}

} // verus!
