//! What holds of a client and a session that speak to each other.

use crate::client;
use crate::client::ClientModel;
use crate::error::ErrorModel;
use crate::framing;
use crate::location;
use crate::location::Incoming;
use crate::location::NatsTransportModel;
use crate::location::Receive;
use crate::session;
use crate::session::EventModel;
use crate::session::Subscription;
use crate::step::Arrived;
use crate::step::ArrivedModel;
use crate::step::StepModel;
use crate::text;
use crate::wire;
use crate::wire::LineModel;
use crate::wire::ReadingModel;
use vstd::prelude::*;

verus! {

/// `line` is written and read back whole, whatever follows it.
pub open spec fn carries(line: LineModel) -> bool {
    forall|after: Seq<u8>, closed: bool|
        #[trigger] wire::line_read(wire::encoded(line) + after, closed) == (ReadingModel::Done {
            used: wire::encoded(line).len(),
            outcome: Ok(Some(line)),
        })
}

proof fn lemma_carries(line: LineModel)
    requires
        framing::is_sound(line),
    ensures
        carries(line),
{
    assert forall|after: Seq<u8>, closed: bool|
        #[trigger] wire::line_read(wire::encoded(line) + after, closed) == (ReadingModel::Done {
            used: wire::encoded(line).len(),
            outcome: Ok(Some(line)),
        }) by {
        framing::law_encoded_line_reads_back(line, after, closed);
    }
}

/// Either end takes what the other opens with: a session's INFO and a client's
/// CONNECT both reach the other end as they were written, for every name that
/// stays on one line.
pub proof fn law_handshake_is_understood(name: Seq<char>)
    requires
        framing::on_one_line(name),
    ensures
        carries(LineModel::Info(session::info_json())),
        carries(LineModel::Connect(client::connect_json(name))),
{
    reveal_strlit(
        "{\"server_id\":\"xmip\",\"version\":\"0.1.0\",\"headers\":false,\"max_payload\":1048576}",
    );
    reveal_strlit("{\"verbose\":false,\"pedantic\":false,\"name\":\"");
    reveal_strlit("\",\"lang\":\"rust\",\"version\":\"0.1.0\"}");
    lemma_carries(LineModel::Info(session::info_json()));
    lemma_carries(LineModel::Connect(client::connect_json(name)));
}

/// One PUB is one Stream: what a client publishes on a subject that is one word
/// is taken by the session at the other end as a Stream with the same bytes, the
/// subject kept in its origin.
pub proof fn law_published_stream_arrives(peer: Seq<char>, subject: Seq<char>, payload: Seq<u8>)
    requires
        text::is_word(subject),
        payload.len() <= usize::MAX,
    ensures
        carries(LineModel::Pub { subject, reply: None, payload }),
        session::publish_step(peer, Some(LineModel::Pub { subject, reply: None, payload })) == (
        StepModel {
            reply: None,
            result: Some(
                Ok::<_, ErrorModel>(
                    Some(
                        ArrivedModel {
                            origin_uri: session::publish_origin(peer, subject),
                            bytes: payload,
                        },
                    ),
                ),
            ),
        }),
{
    lemma_carries(LineModel::Pub { subject, reply: None, payload });
}

/// Every subscription's subject and sid are words.
pub open spec fn subscribed_in_words(subscribed: Seq<Subscription>) -> bool {
    forall|i: int|
        0 <= i < subscribed.len() ==> text::is_word((#[trigger] subscribed[i]).subject)
            && text::is_word(subscribed[i].sid)
}

proof fn lemma_without_keeps(subscribed: Seq<Subscription>, sid: Seq<char>)
    ensures
        session::without(subscribed, sid) == subscribed.filter(|s: Subscription| s.sid != sid),
        forall|i: int|
            0 <= i < session::without(subscribed, sid).len() ==> {
                &&& (#[trigger] session::without(subscribed, sid)[i]).sid != sid
                &&& subscribed.contains(session::without(subscribed, sid)[i])
            },
    decreases subscribed.len(),
{
    reveal(Seq::filter);
    if subscribed.len() > 0 {
        let rest = subscribed.drop_last();
        lemma_without_keeps(rest, sid);
        let left = session::without(subscribed, sid);
        assert forall|i: int| 0 <= i < left.len() implies (#[trigger] left[i]).sid != sid
            && subscribed.contains(left[i]) by {
            if i < session::without(rest, sid).len() {
                assert(left[i] == session::without(rest, sid)[i]);
                let k = choose|k: int| 0 <= k < rest.len() && rest[k] == left[i];
                assert(subscribed[k] == left[i]);
            } else {
                assert(subscribed[subscribed.len() - 1] == left[i]);
            }
        }
    }
}

/// A session that takes lines off the wire has only words for subjects and
/// sids, however many lines it has taken.
pub proof fn law_subscriptions_stay_words(subscribed: Seq<Subscription>, line: LineModel)
    requires
        subscribed_in_words(subscribed),
        framing::is_sound(line),
    ensures
        subscribed_in_words(session::subscribed_after(subscribed, Some(line))),
{
    match line {
        LineModel::Unsub { sid } => {
            lemma_without_keeps(subscribed, sid);
            let left = session::without(subscribed, sid);
            assert forall|i: int| 0 <= i < left.len() implies text::is_word(
                (#[trigger] left[i]).subject,
            ) && text::is_word(left[i].sid) by {
                let k = choose|k: int| 0 <= k < subscribed.len() && subscribed[k] == left[i];
                assert(text::is_word(subscribed[k].subject));
            }
        },
        _ => {},
    }
}

/// A message that a session delivers on a subject that is one word reaches its
/// client as a message with the same bytes, the subject and the sid kept in its
/// origin.
pub proof fn law_delivered_message_arrives(
    subscribed: Seq<Subscription>,
    client: ClientModel,
    subject: Seq<char>,
    payload: Seq<u8>,
)
    requires
        subscribed_in_words(subscribed),
        text::is_word(subject),
        payload.len() <= usize::MAX,
    ensures
        ({
            let sid = session::delivery_sid(subscribed, subject);
            let line = LineModel::Msg { subject, sid, reply: None, payload };
            &&& carries(line)
            &&& client::message_step(client, Some(line)) == (StepModel {
                reply: None,
                result: Some(
                    Ok::<_, ErrorModel>(
                        Some(
                            ArrivedModel {
                                origin_uri: client::message_origin(client.server, subject, sid),
                                bytes: payload,
                            },
                        ),
                    ),
                ),
            })
        }),
{
    reveal_strlit("1");
    let sid = session::delivery_sid(subscribed, subject);
    assert(text::is_word(sid));
    lemma_carries(LineModel::Msg { subject, sid, reply: None, payload });
}

/// No two subscriptions that a client makes have the same sid, and every sid is
/// a word.
pub proof fn law_sids_differ(m: nat, n: nat)
    requires
        m != n,
    ensures
        client::sid_of(m) != client::sid_of(n),
        text::is_word(client::sid_of(m)),
{
    text::lemma_decimal(m);
    text::lemma_decimal(n);
}

/// What a client subscribes to reaches the session: the SUB is read back whole,
/// the session reports it, and keeps it behind what it kept before.
pub proof fn law_subscription_is_taken(
    peer: Seq<char>,
    subscribed: Seq<Subscription>,
    subject: Seq<char>,
    n: nat,
)
    requires
        text::is_word(subject),
    ensures
        ({
            let sid = client::sid_of(n);
            let line = LineModel::Sub { subject, queue: None, sid };
            &&& carries(line)
            &&& session::event_step(peer, Some(line)) == (StepModel {
                reply: None,
                result: Some(
                    Ok::<_, ErrorModel>(Some(EventModel::Subscribed { subject, sid })),
                ),
            })
            &&& session::subscribed_after(subscribed, Some(line)) == subscribed.push(
                Subscription { subject, sid },
            )
        }),
{
    text::lemma_decimal(n);
    lemma_carries(LineModel::Sub { subject, queue: None, sid: client::sid_of(n) });
}

/// What a client unsubscribes is gone, and nothing else: no subscription under
/// the sid is left, and the others stay as they were and in their order.
pub proof fn law_unsubscribed_is_gone(subscribed: Seq<Subscription>, sid: Seq<char>)
    ensures
        session::subscribed_after(subscribed, Some(LineModel::Unsub { sid })) == subscribed.filter(
            |s: Subscription| s.sid != sid,
        ),
        forall|i: int|
            0 <= i < session::without(subscribed, sid).len() ==> (#[trigger] session::without(
                subscribed,
                sid,
            )[i]).sid != sid,
{
    lemma_without_keeps(subscribed, sid);
}

/// Unsubscribing undoes subscribing: a subscription under a sid of its own that
/// is made and then ended leaves the session as it was.
pub proof fn law_unsubscribe_undoes_subscribe(
    subscribed: Seq<Subscription>,
    subject: Seq<char>,
    queue: Option<Seq<char>>,
    sid: Seq<char>,
)
    requires
        forall|i: int| 0 <= i < subscribed.len() ==> (#[trigger] subscribed[i]).sid != sid,
    ensures
        session::subscribed_after(
            session::subscribed_after(
                subscribed,
                Some(LineModel::Sub { subject, queue, sid }),
            ),
            Some(LineModel::Unsub { sid }),
        ) == subscribed,
{
    let more = subscribed.push(Subscription { subject, sid });
    assert(more.drop_last() =~= subscribed);
    lemma_without_none(subscribed, sid);
}

proof fn lemma_without_none(subscribed: Seq<Subscription>, sid: Seq<char>)
    requires
        forall|i: int| 0 <= i < subscribed.len() ==> (#[trigger] subscribed[i]).sid != sid,
    ensures
        session::without(subscribed, sid) == subscribed,
    decreases subscribed.len(),
{
    if subscribed.len() > 0 {
        assert forall|i: int| 0 <= i < subscribed.drop_last().len() implies (
        #[trigger] subscribed.drop_last()[i]).sid != sid by {
            assert(subscribed.drop_last()[i] == subscribed[i]);
        }
        lemma_without_none(subscribed.drop_last(), sid);
        assert(subscribed.drop_last().push(subscribed.last()) =~= subscribed);
    } else {
        assert(session::without(subscribed, sid) =~= subscribed);
    }
}

/// A message goes out under the sid that the client subscribed with: that of a
/// subscription to its subject where there is one, none older; else of the
/// oldest subscription; else `1`.
pub proof fn law_delivery_names_the_subscription(subscribed: Seq<Subscription>, subject: Seq<char>)
    ensures
        forall|k: int|
            #![trigger subscribed[k]]
            0 <= k < subscribed.len() && subscribed[k].subject == subject && (forall|j: int|
                0 <= j < k ==> (#[trigger] subscribed[j]).subject != subject)
                ==> session::delivery_sid(subscribed, subject) == subscribed[k].sid,
        (forall|k: int|
            0 <= k < subscribed.len() ==> (#[trigger] subscribed[k]).subject != subject)
            && subscribed.len() > 0 ==> session::delivery_sid(subscribed, subject)
            == subscribed[0].sid,
        subscribed.len() == 0 ==> session::delivery_sid(subscribed, subject) == "1"@,
{
    lemma_first_to(subscribed, subject);
}

proof fn lemma_first_to(subscribed: Seq<Subscription>, subject: Seq<char>)
    ensures
        session::first_to(subscribed, subject) <= subscribed.len(),
        forall|j: int|
            0 <= j < session::first_to(subscribed, subject) ==> (#[trigger] subscribed[j]).subject
                != subject,
        session::first_to(subscribed, subject) < subscribed.len() ==> subscribed[session::first_to(
            subscribed,
            subject,
        ) as int].subject == subject,
    decreases subscribed.len(),
{
    if subscribed.len() > 0 && subscribed[0].subject != subject {
        lemma_first_to(subscribed.drop_first(), subject);
        assert forall|j: int| 0 <= j < session::first_to(subscribed, subject) implies (
        #[trigger] subscribed[j]).subject != subject by {
            if j > 0 {
                assert(subscribed[j] == subscribed.drop_first()[j - 1]);
            }
        }
    }
}

/// A flush ends: the PING it opens with reaches the session, which answers it
/// with PONG and has nothing to report, and the PONG reaches the client, which
/// is done.
pub proof fn law_flush_is_answered(peer: Seq<char>, subscribed: Seq<Subscription>)
    ensures
        carries(LineModel::Ping),
        session::publish_step(peer, Some(LineModel::Ping)) == (StepModel {
            reply: Some(LineModel::Pong),
            result: None::<Result<Option<ArrivedModel>, ErrorModel>>,
        }),
        session::subscribed_after(subscribed, Some(LineModel::Ping)) == subscribed,
        carries(LineModel::Pong),
        client::flush_step(Some(LineModel::Pong)) == (StepModel {
            reply: None,
            result: Some(Ok::<(), ErrorModel>(())),
        }),
{
    lemma_carries(LineModel::Ping);
    lemma_carries(LineModel::Pong);
}

/// A line that only a server sends.
pub open spec fn only_from_a_server(line: LineModel) -> bool {
    line is Info || line is Msg || line is PlusOk || line is MinusErr
}

/// A client that sends what only a server sends is told so and given up on: the
/// session answers `-ERR`, names the line in its error and keeps its
/// subscriptions; the answer reaches the client, which takes it as the server's
/// error whether it waits for a message or for its PONG.
pub proof fn law_refused_client_is_told(
    peer: Seq<char>,
    subscribed: Seq<Subscription>,
    client: ClientModel,
    line: LineModel,
)
    requires
        only_from_a_server(line),
    ensures
        ({
            let told = LineModel::MinusErr("Unknown Protocol Operation"@);
            let reported = ErrorModel::Reported("Unknown Protocol Operation"@);
            &&& session::event_step(peer, Some(line)) == (StepModel {
                reply: Some(told),
                result: Some(Err::<Option<EventModel>, _>(ErrorModel::FromClient(line))),
            })
            &&& session::subscribed_after(subscribed, Some(line)) == subscribed
            &&& carries(told)
            &&& client::message_step(client, Some(told)) == (StepModel {
                reply: None,
                result: Some(Err::<Option<ArrivedModel>, _>(reported)),
            })
            &&& client::flush_step(Some(told)) == (StepModel {
                reply: None,
                result: Some(Err::<(), _>(reported)),
            })
        }),
{
    reveal_strlit("Unknown Protocol Operation");
    lemma_carries(LineModel::MinusErr("Unknown Protocol Operation"@));
}

/// What came of taking lines one after the other: the lines written in answer,
/// and the result, if it came to one.
pub struct Run<T> {
    pub replies: Seq<LineModel>,
    pub result: Option<T>,
}

/// A line that may be absent, as a sequence of one or none.
pub open spec fn as_lines(line: Option<LineModel>) -> Seq<LineModel> {
    match line {
        Some(line) => seq![line],
        None => Seq::empty(),
    }
}

/// One PONG for each PING in `lines`.
pub open spec fn pongs(lines: Seq<LineModel>) -> Seq<LineModel>
    decreases lines.len(),
{
    if lines.len() == 0 {
        Seq::empty()
    } else if lines[0] is Ping {
        seq![LineModel::Pong] + pongs(lines.drop_first())
    } else {
        pongs(lines.drop_first())
    }
}

/// What comes of a session that waits for a Stream and takes `lines` one after
/// the other, until it is done.
pub open spec fn publish_run(peer: Seq<char>, lines: Seq<LineModel>) -> Run<
    Result<Option<ArrivedModel>, ErrorModel>,
>
    decreases lines.len(),
{
    if lines.len() == 0 {
        Run { replies: Seq::empty(), result: None }
    } else {
        let step = session::publish_step(peer, Some(lines[0]));
        match step.result {
            Some(result) => Run { replies: as_lines(step.reply), result: Some(result) },
            None => {
                let rest = publish_run(peer, lines.drop_first());
                Run { replies: as_lines(step.reply) + rest.replies, result: rest.result }
            },
        }
    }
}

/// A session's subscriptions once it has taken `lines`.
pub open spec fn subscribed_through(subscribed: Seq<Subscription>, lines: Seq<LineModel>) -> Seq<
    Subscription,
>
    decreases lines.len(),
{
    if lines.len() == 0 {
        subscribed
    } else {
        subscribed_through(
            session::subscribed_after(subscribed, Some(lines[0])),
            lines.drop_first(),
        )
    }
}

/// A line that a session which waits for a Stream takes on the way.
pub open spec fn on_the_way(line: LineModel) -> bool {
    line is Sub || line is Unsub || line is Ping || line is Pong || line is Connect
}

/// A session that waits for a Stream gets the next one that the client
/// publishes: whatever the client subscribes, unsubscribes or asks before it,
/// each PING is answered by one PONG and nothing else is written.
pub proof fn law_next_publish_is_the_next(
    peer: Seq<char>,
    before: Seq<LineModel>,
    subject: Seq<char>,
    reply: Option<Seq<char>>,
    payload: Seq<u8>,
    after: Seq<LineModel>,
)
    requires
        forall|i: int| 0 <= i < before.len() ==> on_the_way(#[trigger] before[i]),
    ensures
        publish_run(peer, before + seq![LineModel::Pub { subject, reply, payload }] + after) == (
        Run {
            replies: pongs(before),
            result: Some(
                Ok::<_, ErrorModel>(
                    Some(
                        ArrivedModel {
                            origin_uri: session::publish_origin(peer, subject),
                            bytes: payload,
                        },
                    ),
                ),
            ),
        }),
    decreases before.len(),
{
    let line = LineModel::Pub { subject, reply, payload };
    let lines = before + seq![line] + after;
    if before.len() == 0 {
        assert(lines[0] == line);
    } else {
        assert(lines[0] == before[0]);
        assert(on_the_way(before[0]));
        assert(lines.drop_first() =~= before.drop_first() + seq![line] + after);
        assert(forall|i: int|
            0 <= i < before.len() - 1 ==> before.drop_first()[i] == before[i + 1]);
        law_next_publish_is_the_next(peer, before.drop_first(), subject, reply, payload, after);
        assert(as_lines(Some(LineModel::Pong)) =~= seq![LineModel::Pong]);
        assert(Seq::empty() + pongs(before.drop_first()) =~= pongs(before.drop_first()));
    }
}

/// A session's subscriptions depend on the SUBs and UNSUBs it takes and on
/// nothing else.
pub proof fn law_only_sub_and_unsub_change_subscriptions(
    subscribed: Seq<Subscription>,
    lines: Seq<LineModel>,
)
    requires
        forall|i: int|
            0 <= i < lines.len() ==> !((#[trigger] lines[i]) is Sub) && !(lines[i] is Unsub),
    ensures
        subscribed_through(subscribed, lines) == subscribed,
    decreases lines.len(),
{
    if lines.len() > 0 {
        assert(!(lines[0] is Sub));
        assert(forall|i: int| 0 <= i < lines.len() - 1 ==> lines.drop_first()[i] == lines[i + 1]);
        law_only_sub_and_unsub_change_subscriptions(subscribed, lines.drop_first());
    }
}

/// A session that has read any lines at all has only words for subjects and
/// sids.
pub proof fn law_session_subscriptions_are_words(lines: Seq<LineModel>)
    requires
        forall|i: int| 0 <= i < lines.len() ==> framing::is_sound(#[trigger] lines[i]),
    ensures
        subscribed_in_words(subscribed_through(Seq::empty(), lines)),
{
    lemma_through_stays_words(Seq::empty(), lines);
}

proof fn lemma_through_stays_words(subscribed: Seq<Subscription>, lines: Seq<LineModel>)
    requires
        subscribed_in_words(subscribed),
        forall|i: int| 0 <= i < lines.len() ==> framing::is_sound(#[trigger] lines[i]),
    ensures
        subscribed_in_words(subscribed_through(subscribed, lines)),
    decreases lines.len(),
{
    if lines.len() > 0 {
        assert(framing::is_sound(lines[0]));
        assert forall|i: int| 0 <= i < lines.drop_first().len() implies framing::is_sound(
            #[trigger] lines.drop_first()[i],
        ) by {
            assert(lines.drop_first()[i] == lines[i + 1]);
        }
        law_subscriptions_stay_words(subscribed, lines[0]);
        lemma_through_stays_words(
            session::subscribed_after(subscribed, Some(lines[0])),
            lines.drop_first(),
        );
    }
}

/// What comes of a client that waits for a message and takes `lines` one after
/// the other, until it is done.
pub open spec fn message_run(client: ClientModel, lines: Seq<LineModel>) -> Run<
    Result<Option<ArrivedModel>, ErrorModel>,
>
    decreases lines.len(),
{
    if lines.len() == 0 {
        Run { replies: Seq::empty(), result: None }
    } else {
        let step = client::message_step(client, Some(lines[0]));
        match step.result {
            Some(result) => Run { replies: as_lines(step.reply), result: Some(result) },
            None => {
                let rest = message_run(client, lines.drop_first());
                Run { replies: as_lines(step.reply) + rest.replies, result: rest.result }
            },
        }
    }
}

/// A client that waits for a message gets the next one that the server
/// delivers: whatever else the server sends before it, short of an error, each
/// PING is answered by one PONG and nothing else is written.
pub proof fn law_next_message_is_the_next(
    client: ClientModel,
    before: Seq<LineModel>,
    subject: Seq<char>,
    sid: Seq<char>,
    reply: Option<Seq<char>>,
    payload: Seq<u8>,
    after: Seq<LineModel>,
)
    requires
        forall|i: int|
            0 <= i < before.len() ==> !((#[trigger] before[i]) is Msg) && !(before[i] is MinusErr),
    ensures
        message_run(
            client,
            before + seq![LineModel::Msg { subject, sid, reply, payload }] + after,
        ) == (Run {
            replies: pongs(before),
            result: Some(
                Ok::<_, ErrorModel>(
                    Some(
                        ArrivedModel {
                            origin_uri: client::message_origin(client.server, subject, sid),
                            bytes: payload,
                        },
                    ),
                ),
            ),
        }),
    decreases before.len(),
{
    let line = LineModel::Msg { subject, sid, reply, payload };
    let lines = before + seq![line] + after;
    if before.len() == 0 {
        assert(lines[0] == line);
    } else {
        assert(lines[0] == before[0]);
        assert(!(before[0] is Msg));
        assert(lines.drop_first() =~= before.drop_first() + seq![line] + after);
        assert(forall|i: int|
            0 <= i < before.len() - 1 ==> before.drop_first()[i] == before[i + 1]);
        law_next_message_is_the_next(
            client,
            before.drop_first(),
            subject,
            sid,
            reply,
            payload,
            after,
        );
        assert(as_lines(Some(LineModel::Pong)) =~= seq![LineModel::Pong]);
        assert(Seq::empty() + pongs(before.drop_first()) =~= pongs(before.drop_first()));
    }
}

/// What comes of a client that waits for its PONG and takes `lines` one after
/// the other, until it is done.
pub open spec fn flush_run(lines: Seq<LineModel>) -> Run<Result<(), ErrorModel>>
    decreases lines.len(),
{
    if lines.len() == 0 {
        Run { replies: Seq::empty(), result: None }
    } else {
        let step = client::flush_step(Some(lines[0]));
        match step.result {
            Some(result) => Run { replies: as_lines(step.reply), result: Some(result) },
            None => {
                let rest = flush_run(lines.drop_first());
                Run { replies: as_lines(step.reply) + rest.replies, result: rest.result }
            },
        }
    }
}

/// A flush is over at the first PONG: whatever else the server sends before it,
/// short of an error, each PING is answered by one PONG and nothing else is
/// written.
pub proof fn law_flush_ends_at_pong(before: Seq<LineModel>, after: Seq<LineModel>)
    requires
        forall|i: int|
            0 <= i < before.len() ==> !((#[trigger] before[i]) is Pong) && !(before[i] is MinusErr),
    ensures
        flush_run(before + seq![LineModel::Pong] + after) == (Run {
            replies: pongs(before),
            result: Some(Ok::<(), ErrorModel>(())),
        }),
    decreases before.len(),
{
    let lines = before + seq![LineModel::Pong] + after;
    if before.len() == 0 {
        assert(lines[0] == LineModel::Pong);
    } else {
        assert(lines[0] == before[0]);
        assert(!(before[0] is Pong));
        assert(lines.drop_first() =~= before.drop_first() + seq![LineModel::Pong] + after);
        assert(forall|i: int|
            0 <= i < before.len() - 1 ==> before.drop_first()[i] == before[i + 1]);
        law_flush_ends_at_pong(before.drop_first(), after);
        assert(as_lines(Some(LineModel::Pong)) =~= seq![LineModel::Pong]);
        assert(Seq::empty() + pongs(before.drop_first()) =~= pongs(before.drop_first()));
    }
}

/// What a Location that receives has come to: still waiting, or done with what
/// arrived or with the failure.
pub enum Received {
    Waiting(Seq<Arrived>),
    HandedUp(Seq<Arrived>),
    Failed,
}

/// What comes of a Location that receives `events` one after the other, behind
/// what has arrived before.
pub open spec fn receive_run(arrived: Seq<Arrived>, events: Seq<Incoming>) -> Received
    decreases events.len(),
{
    if events.len() == 0 {
        Received::Waiting(arrived)
    } else {
        let after = location::arrived_after(arrived, events[0]);
        match location::receive_next(arrived.len(), events[0]) {
            Receive::On => receive_run(after, events.drop_first()),
            Receive::Finish => Received::HandedUp(after),
            Receive::GiveUp => Received::Failed,
        }
    }
}

/// `messages` as they come in.
pub open spec fn incoming(messages: Seq<Arrived>) -> Seq<Incoming> {
    Seq::new(messages.len(), |i: int| Incoming::Message(messages[i]))
}

/// A Location hands up every message the server delivered, in order, when the
/// server closes; when it goes quiet instead, which may be worth another try,
/// the same if anything arrived; any other failure is handed up itself.
pub proof fn law_receive_hands_up_all(messages: Seq<Arrived>, last: Incoming)
    requires
        !(last is Message),
    ensures
        receive_run(Seq::empty(), incoming(messages).push(last)) == match last {
            Incoming::Failed { retryable } => if retryable && messages.len() > 0 {
                Received::HandedUp(messages)
            } else {
                Received::Failed
            },
            _ => Received::HandedUp(messages),
        },
{
    lemma_receive_run(Seq::empty(), messages, last);
    assert(Seq::empty() + messages =~= messages);
}

proof fn lemma_receive_run(arrived: Seq<Arrived>, messages: Seq<Arrived>, last: Incoming)
    requires
        !(last is Message),
    ensures
        receive_run(arrived, incoming(messages).push(last)) == match last {
            Incoming::Failed { retryable } => if retryable && (arrived + messages).len() > 0 {
                Received::HandedUp(arrived + messages)
            } else {
                Received::Failed
            },
            _ => Received::HandedUp(arrived + messages),
        },
    decreases messages.len(),
{
    let events = incoming(messages).push(last);
    if messages.len() == 0 {
        assert(events[0] == last);
        assert(arrived + messages =~= arrived);
    } else {
        assert(events[0] == Incoming::Message(messages[0]));
        assert(events.drop_first() =~= incoming(messages.drop_first()).push(last));
        assert(arrived.push(messages[0]) + messages.drop_first() =~= arrived + messages);
        lemma_receive_run(arrived.push(messages[0]), messages.drop_first(), last);
    }
}

/// A Stream arrives whole off the wire, whatever the client sends before it: a
/// session that reads the lines as they were encoded one after the other, and
/// waits for a Stream, gets the one that was published.
pub proof fn law_stream_arrives_off_the_wire(
    peer: Seq<char>,
    before: Seq<LineModel>,
    subject: Seq<char>,
    payload: Seq<u8>,
)
    requires
        forall|i: int|
            0 <= i < before.len() ==> on_the_way(#[trigger] before[i]) && framing::is_sound(
                before[i],
            ),
        text::is_word(subject),
        payload.len() <= usize::MAX,
    ensures
        publish_run(
            peer,
            framing::read_all(
                framing::encoded_all(
                    before + seq![LineModel::Pub { subject, reply: None, payload }],
                ),
            ),
        ) == (Run {
            replies: pongs(before),
            result: Some(
                Ok::<_, ErrorModel>(
                    Some(
                        ArrivedModel {
                            origin_uri: session::publish_origin(peer, subject),
                            bytes: payload,
                        },
                    ),
                ),
            ),
        }),
{
    let lines = before + seq![LineModel::Pub { subject, reply: None, payload }];
    assert forall|i: int| 0 <= i < lines.len() implies framing::is_sound(#[trigger] lines[i]) by {
        if i < before.len() {
            assert(lines[i] == before[i]);
        }
    }
    framing::law_lines_read_back_in_order(lines);
    law_next_publish_is_the_next(peer, before, subject, None, payload, Seq::empty());
    assert(lines + Seq::empty() =~= lines);
}

/// A Stream sent to an address goes there on the Location's own subject: the
/// target that names both resolves to both, and so does one that names the
/// address alone.
pub proof fn law_target_resolves_to_its_address(
    location: NatsTransportModel,
    target: Seq<char>,
    address: Seq<char>,
)
    ensures
        location::resolved(location, target, Some((address, location.subject))) == (
            address,
            location.subject,
        ),
        location::resolved(location, target, Some((address, Seq::empty()))) == (
            address,
            location.subject,
        ),
{
}

} // verus!
