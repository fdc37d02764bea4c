//! What a model keeps of the value it stands for: every part, each as itself.

use crate::client;
use crate::error::Error;
use crate::error::ErrorModel;
use crate::location;
use crate::session;
use crate::session::Event;
use crate::session::EventModel;
use crate::session::Subscription;
use crate::step;
use crate::step::Arrived;
use crate::step::ArrivedModel;
use crate::step::Step;
use crate::step::StepModel;
use crate::wire;
use crate::wire::Head;
use crate::wire::HeadModel;
use crate::wire::Line;
use crate::wire::LineModel;
use crate::wire::Part;
use crate::wire::Reading;
use crate::wire::ReadingModel;
use vstd::prelude::*;

verus! {

/// A line's model has the line's kind, and each of its texts and its payload in
/// the place that the line has it.
pub proof fn law_line_model_keeps_every_part(
    a: String,
    b: String,
    c: String,
    payload: Vec<u8>,
)
    ensures
        wire::optional(None) == None::<Seq<char>>,
        wire::optional(Some(a)) == Some(a@),
        Line::Info(a)@ == LineModel::Info(a@),
        Line::Connect(a)@ == LineModel::Connect(a@),
        (Line::Pub { subject: a, reply: None, payload })@ == (LineModel::Pub {
            subject: a@,
            reply: None,
            payload: payload@,
        }),
        (Line::Pub { subject: a, reply: Some(b), payload })@ == (LineModel::Pub {
            subject: a@,
            reply: Some(b@),
            payload: payload@,
        }),
        (Line::Sub { subject: a, queue: None, sid: c })@ == (LineModel::Sub {
            subject: a@,
            queue: None,
            sid: c@,
        }),
        (Line::Sub { subject: a, queue: Some(b), sid: c })@ == (LineModel::Sub {
            subject: a@,
            queue: Some(b@),
            sid: c@,
        }),
        (Line::Unsub { sid: a })@ == (LineModel::Unsub { sid: a@ }),
        (Line::Msg { subject: a, sid: c, reply: None, payload })@ == (LineModel::Msg {
            subject: a@,
            sid: c@,
            reply: None,
            payload: payload@,
        }),
        (Line::Msg { subject: a, sid: c, reply: Some(b), payload })@ == (LineModel::Msg {
            subject: a@,
            sid: c@,
            reply: Some(b@),
            payload: payload@,
        }),
        Line::Ping@ == LineModel::Ping,
        Line::Pong@ == LineModel::Pong,
        Line::PlusOk@ == LineModel::PlusOk,
        Line::MinusErr(a)@ == LineModel::MinusErr(a@),
        step::line_or_none(None) == None::<LineModel>,
        forall|line: Line| #[trigger] step::line_or_none(Some(line)) == Some(line@),
{
}

/// An error's model has the error's kind and what it names.
pub proof fn law_error_model_keeps_every_part(a: String, line: Line)
    ensures
        Error::NoCrlf@ == ErrorModel::NoCrlf,
        Error::NotUtf8@ == ErrorModel::NotUtf8,
        Error::BadPub@ == ErrorModel::BadPub,
        Error::BadSub@ == ErrorModel::BadSub,
        Error::BadMsg@ == ErrorModel::BadMsg,
        Error::UnknownVerb(a)@ == ErrorModel::UnknownVerb(a@),
        Error::BadLength(a)@ == ErrorModel::BadLength(a@),
        Error::ShortPayload@ == ErrorModel::ShortPayload,
        Error::PayloadNoCrlf@ == ErrorModel::PayloadNoCrlf,
        Error::NoInfo@ == ErrorModel::NoInfo,
        Error::NoConnect@ == ErrorModel::NoConnect,
        Error::Reported(a)@ == ErrorModel::Reported(a@),
        Error::ClosedBeforePong@ == ErrorModel::ClosedBeforePong,
        Error::FromClient(line)@ == ErrorModel::FromClient(line@),
        Error::NothingPublished@ == ErrorModel::NothingPublished,
{
}

/// The model of a head, or of what reading came to, has its kind and each of its
/// parts in its place.
pub proof fn law_reading_model_keeps_every_part(
    line: Line,
    error: Error,
    head: Head,
    a: String,
    b: Option<String>,
    c: String,
    n: usize,
    part: Part,
)
    ensures
        Head::Whole(line)@ == HeadModel::Whole(line@),
        (Head::Pub { subject: a, reply: b, length: n })@ == (HeadModel::Pub {
            subject: a@,
            reply: wire::optional(b),
            length: n,
        }),
        (Head::Msg { subject: a, sid: c, reply: b, length: n })@ == (HeadModel::Msg {
            subject: a@,
            sid: c@,
            reply: wire::optional(b),
            length: n,
        }),
        wire::head_result(Ok(head)) == Ok::<_, ErrorModel>(head@),
        wire::head_result(Err(error)) == Err::<HeadModel, _>(error@),
        Reading::More(part)@ == ReadingModel::More(part),
        (Reading::Done { used: n, outcome: Ok(Some(line)) })@ == (ReadingModel::Done {
            used: n as nat,
            outcome: Ok(Some(line@)),
        }),
        (Reading::Done { used: n, outcome: Ok(None) })@ == (ReadingModel::Done {
            used: n as nat,
            outcome: Ok(None),
        }),
        (Reading::Done { used: n, outcome: Err(error) })@ == (ReadingModel::Done {
            used: n as nat,
            outcome: Err(error@),
        }),
{
}

/// A head announces the payload that its length says, and becomes the line with
/// that payload and its own words; one that is whole announces none and is its
/// line already.
pub proof fn law_head_becomes_its_line(
    line: LineModel,
    subject: Seq<char>,
    sid: Seq<char>,
    reply: Option<Seq<char>>,
    length: usize,
    payload: Seq<u8>,
)
    ensures
        wire::announced(HeadModel::Whole(line)) == None::<usize>,
        wire::announced(HeadModel::Pub { subject, reply, length }) == Some(length),
        wire::announced(HeadModel::Msg { subject, sid, reply, length }) == Some(length),
        wire::completed(HeadModel::Whole(line), payload) == line,
        wire::completed(HeadModel::Pub { subject, reply, length }, payload) == (LineModel::Pub {
            subject,
            reply,
            payload,
        }),
        wire::completed(HeadModel::Msg { subject, sid, reply, length }, payload) == (
        LineModel::Msg { subject, sid, reply, payload }),
{
}

/// The model of a step, and of what it ends in, keeps the reply and the result,
/// success as success and error as error.
pub proof fn law_step_model_keeps_every_part(
    reply: Option<Line>,
    arrived: Arrived,
    error: Error,
    event: Event,
)
    ensures
        arrived@ == (ArrivedModel { origin_uri: arrived.origin_uri@, bytes: arrived.bytes@ }),
        step::arrival(Ok(Some(arrived))) == Ok::<_, ErrorModel>(Some(arrived@)),
        step::arrival(Ok(None)) == Ok::<Option<ArrivedModel>, ErrorModel>(None),
        step::arrival(Err(error)) == Err::<Option<ArrivedModel>, _>(error@),
        forall|step: Step<Result<Option<Arrived>, Error>>|
            {
                &&& (#[trigger] step::arrival_step(step)).reply == step::line_or_none(step.reply)
                &&& step.result is None ==> step::arrival_step(step).result is None
                &&& step.result is Some ==> step::arrival_step(step).result == Some(
                    step::arrival(step.result->Some_0),
                )
            },
        session::event_result(Ok(Some(event))) == Ok::<_, ErrorModel>(Some(event@)),
        session::event_result(Ok(None)) == Ok::<Option<EventModel>, ErrorModel>(None),
        session::event_result(Err(error)) == Err::<Option<EventModel>, _>(error@),
        forall|step: Step<Result<Option<Event>, Error>>|
            {
                &&& (#[trigger] session::event_model(step)).reply == step::line_or_none(step.reply)
                &&& step.result is None ==> session::event_model(step).result is None
                &&& step.result is Some ==> session::event_model(step).result == Some(
                    session::event_result(step.result->Some_0),
                )
            },
        client::flush_model(Step { reply, result: None }) == (StepModel {
            reply: step::line_or_none(reply),
            result: None::<Result<(), ErrorModel>>,
        }),
        client::flush_model(Step { reply, result: Some(Ok(())) }) == (StepModel {
            reply: step::line_or_none(reply),
            result: Some(Ok::<(), ErrorModel>(())),
        }),
        client::flush_model(Step { reply, result: Some(Err(error)) }) == (StepModel {
            reply: step::line_or_none(reply),
            result: Some(Err::<(), _>(error@)),
        }),
{
}

/// The model of an event has the Stream, or the subject and the sid, of the
/// event; that of a session's subscriptions has them all, in order; and that of
/// a target has the server and the subject that it names.
pub proof fn law_event_model_keeps_every_part(
    arrived: Arrived,
    a: String,
    b: String,
    pairs: Seq<(String, String)>,
    server: &str,
    subject: &str,
)
    ensures
        Event::Published(arrived)@ == EventModel::Published(arrived@),
        (Event::Subscribed { subject: a, sid: b })@ == (EventModel::Subscribed {
            subject: a@,
            sid: b@,
        }),
        session::subscriptions(pairs).len() == pairs.len(),
        forall|i: int|
            0 <= i < pairs.len() ==> #[trigger] session::subscriptions(pairs)[i] == (Subscription {
                subject: pairs[i].0@,
                sid: pairs[i].1@,
            }),
        location::named_model(None) == None::<(Seq<char>, Seq<char>)>,
        location::named_model(Some((server, subject))) == Some((server@, subject@)),
{
}

} // verus!
