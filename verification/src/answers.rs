//! What each end does with every line that it can be sent, and with the close.

use crate::client;
use crate::client::ClientModel;
use crate::error;
use crate::error::ErrorModel;
use crate::location;
use crate::location::Incoming;
use crate::location::NatsTransportModel;
use crate::location::Receive;
use crate::session;
use crate::session::EventModel;
use crate::session::Subscription;
use crate::step::Arrived;
use crate::step::ArrivedModel;
use crate::step::StepModel;
use crate::text;
use crate::wire::LineModel;
use vstd::prelude::*;

verus! {

/// What either end says of itself: a session in INFO, and a client in CONNECT,
/// which gives the name it goes by.
pub proof fn law_ends_introduce_themselves(name: Seq<char>)
    ensures
        session::info_json()
            == "{\"server_id\":\"xmip\",\"version\":\"0.1.0\",\"headers\":false,\"max_payload\":1048576}"@,
        client::connect_json(name) == "{\"verbose\":false,\"pedantic\":false,\"name\":\""@ + name
            + "\",\"lang\":\"rust\",\"version\":\"0.1.0\"}"@,
{
}

/// Subscriptions are numbered, in decimal: the first digits of a sid are those
/// of a tenth of its number, and the last is what is left over.
pub proof fn law_sids_are_numbers(n: nat, d: nat)
    requires
        d < 10,
    ensures
        client::sid_of(d) == seq!["0123456789"@[d as int]],
        n > 0 ==> client::sid_of(n * 10 + d) == client::sid_of(n).push("0123456789"@[d as int]),
        text::number(client::sid_of(n)) == if n <= usize::MAX {
            Some(n as usize)
        } else {
            None
        },
{
    text::lemma_decimal(n);
    reveal_strlit("0123456789");
    if n > 0 {
        assert((n * 10 + d) / 10 == n);
        assert((n * 10 + d) % 10 == d);
    }
}

/// A flush ends well at a PONG and nowhere else. An error that the server
/// reports ends it with that error, word for word, and the close with an error
/// of its own; anything else is read past. Only a PING is answered, by a PONG.
pub proof fn law_flush_ends_well_only_at_pong(read: Option<LineModel>, message: Seq<char>)
    ensures
        client::flush_step(read).result == Some(Ok::<(), ErrorModel>(())) <==> read == Some(
            LineModel::Pong,
        ),
        client::flush_step(read).result == Some(Err::<(), _>(ErrorModel::Reported(message)))
            <==> read == Some(LineModel::MinusErr(message)),
        client::flush_step(read).result == Some(Err::<(), _>(ErrorModel::ClosedBeforePong))
            <==> read is None,
        client::flush_step(read).result is None <==> read is Some && !(read->Some_0 is Pong) && !(
        read->Some_0 is MinusErr),
        client::flush_step(read).reply == if read == Some(LineModel::Ping) {
            Some(LineModel::Pong)
        } else {
            None
        },
{
}

/// A message is handed up with its payload whole and its origin spelled out:
/// the server, the subject and the sid it was delivered under.
pub proof fn law_message_says_where_it_came_from(
    client: ClientModel,
    subject: Seq<char>,
    sid: Seq<char>,
    reply: Option<Seq<char>>,
    payload: Seq<u8>,
)
    ensures
        client::message_step(client, Some(LineModel::Msg { subject, sid, reply, payload })) == (
        StepModel {
            reply: None,
            result: Some(
                Ok::<_, ErrorModel>(
                    Some(
                        ArrivedModel {
                            origin_uri: "nats://"@ + client.server + "/"@ + subject + "?sid="@
                                + sid,
                            bytes: payload,
                        },
                    ),
                ),
            ),
        }),
{
}

/// Messages delivered under different sids have different origins, and so have
/// messages on different subjects delivered under one sid.
pub proof fn law_message_origins_tell_subscriptions_apart(
    client: ClientModel,
    subject: Seq<char>,
    sid: Seq<char>,
    reply: Option<Seq<char>>,
    payload: Seq<u8>,
    other: Seq<char>,
)
    ensures
        ({
            let here = client::message_step(
                client,
                Some(LineModel::Msg { subject, sid, reply, payload }),
            );
            let there = client::message_step(
                client,
                Some(LineModel::Msg { subject, sid: other, reply, payload }),
            );
            other != sid ==> here != there && here.result->Some_0->Ok_0->Some_0.origin_uri
                != there.result->Some_0->Ok_0->Some_0.origin_uri
        }),
        ({
            let here = client::message_step(
                client,
                Some(LineModel::Msg { subject, sid, reply, payload }),
            );
            let there = client::message_step(
                client,
                Some(LineModel::Msg { subject: other, sid, reply, payload }),
            );
            other != subject ==> here.result->Some_0->Ok_0->Some_0.origin_uri
                != there.result->Some_0->Ok_0->Some_0.origin_uri
        }),
{
    let start = "nats://"@ + client.server + "/"@;
    let end = "?sid="@;
    if other != sid {
        lemma_same_ends(start + subject + end, sid, other, Seq::empty());
        assert(start + subject + end + sid + Seq::empty() =~= start + subject + end + sid);
        assert(start + subject + end + other + Seq::empty() =~= start + subject + end + other);
    }
    if other != subject {
        lemma_same_ends(start, subject, other, end + sid);
        assert(start + subject + (end + sid) =~= start + subject + end + sid);
        assert(start + other + (end + sid) =~= start + other + end + sid);
    }
}

/// Texts that differ still differ between the same two ends.
proof fn lemma_same_ends(start: Seq<char>, a: Seq<char>, b: Seq<char>, end: Seq<char>)
    requires
        a != b,
    ensures
        start + a + end != start + b + end,
{
    let (x, y) = (start + a + end, start + b + end);
    if x == y {
        assert(x.len() == start.len() + a.len() + end.len());
        assert(y.len() == start.len() + b.len() + end.len());
        assert(x.subrange(start.len() as int, (start.len() + a.len()) as int) =~= a);
        assert(y.subrange(start.len() as int, (start.len() + b.len()) as int) =~= b);
    }
}

/// A client that waits for a message gets one only from a MSG. An error that the
/// server reports ends the wait with that error, word for word; the close ends
/// it with nothing; anything else is read past. Only a PING is answered, by a
/// PONG.
pub proof fn law_message_comes_only_from_msg(
    client: ClientModel,
    read: Option<LineModel>,
    message: Seq<char>,
)
    ensures
        (client::message_step(client, read).result matches Some(Ok(Some(_)))) <==> (read matches
            Some(line) && line is Msg),
        client::message_step(client, read).result == Some(
            Err::<Option<ArrivedModel>, _>(ErrorModel::Reported(message)),
        ) <==> read == Some(LineModel::MinusErr(message)),
        client::message_step(client, read).result == Some(
            Ok::<Option<ArrivedModel>, ErrorModel>(None),
        ) <==> read is None,
        client::message_step(client, read).result is None <==> (read matches Some(line) && !(
        line is Msg) && !(line is MinusErr)),
        client::message_step(client, read).reply == if read == Some(LineModel::Ping) {
            Some(LineModel::Pong)
        } else {
            None
        },
{
}

/// A subscription is reported and kept whatever its queue group, if it has one:
/// under its own subject and sid, behind what was kept before, and nothing is
/// written. A session that waits for a Stream keeps it too, and waits on.
pub proof fn law_subscription_is_kept_whatever_its_queue(
    peer: Seq<char>,
    subscribed: Seq<Subscription>,
    subject: Seq<char>,
    queue: Option<Seq<char>>,
    sid: Seq<char>,
)
    ensures
        session::event_step(peer, Some(LineModel::Sub { subject, queue, sid })) == (StepModel {
            reply: None,
            result: Some(Ok::<_, ErrorModel>(Some(EventModel::Subscribed { subject, sid }))),
        }),
        session::publish_step(peer, Some(LineModel::Sub { subject, queue, sid })) == (StepModel {
            reply: None,
            result: None::<Result<Option<ArrivedModel>, ErrorModel>>,
        }),
        ({
            let kept = session::subscribed_after(
                subscribed,
                Some(LineModel::Sub { subject, queue, sid }),
            );
            &&& kept.len() == subscribed.len() + 1
            &&& kept.take(subscribed.len() as int) == subscribed
            &&& kept.last() == (Subscription { subject, sid })
        }),
{
    let kept = session::subscribed_after(subscribed, Some(LineModel::Sub { subject, queue, sid }));
    assert(kept.take(subscribed.len() as int) =~= subscribed);
}

/// Ending a subscription leaves exactly those under other sids, in their order;
/// nothing but a SUB or an UNSUB changes what is kept.
pub proof fn law_subscriptions_end_by_sid(
    subscribed: Seq<Subscription>,
    sid: Seq<char>,
    read: Option<LineModel>,
)
    ensures
        session::subscribed_after(subscribed, Some(LineModel::Unsub { sid })) == subscribed.filter(
            |s: Subscription| s.sid != sid,
        ),
        !(read matches Some(line) && (line is Sub || line is Unsub)) ==> session::subscribed_after(
            subscribed,
            read,
        ) == subscribed,
{
    crate::laws::law_unsubscribed_is_gone(subscribed, sid);
}

/// What a client publishes is handed up with its payload whole and its origin
/// spelled out: the client and the subject, whatever reply it asks for.
pub proof fn law_stream_says_where_it_came_from(
    peer: Seq<char>,
    subject: Seq<char>,
    reply: Option<Seq<char>>,
    payload: Seq<u8>,
)
    ensures
        session::event_step(peer, Some(LineModel::Pub { subject, reply, payload })) == (StepModel {
            reply: None,
            result: Some(
                Ok::<_, ErrorModel>(
                    Some(
                        EventModel::Published(
                            ArrivedModel {
                                origin_uri: "nats://"@ + peer + "/"@ + subject,
                                bytes: payload,
                            },
                        ),
                    ),
                ),
            ),
        }),
        session::publish_step(peer, Some(LineModel::Pub { subject, reply, payload })) == (
        StepModel {
            reply: None,
            result: Some(
                Ok::<_, ErrorModel>(
                    Some(
                        ArrivedModel {
                            origin_uri: "nats://"@ + peer + "/"@ + subject,
                            bytes: payload,
                        },
                    ),
                ),
            ),
        }),
{
}

/// Streams on different subjects have different origins.
pub proof fn law_stream_origins_tell_subjects_apart(
    peer: Seq<char>,
    subject: Seq<char>,
    other: Seq<char>,
    reply: Option<Seq<char>>,
    payload: Seq<u8>,
)
    requires
        subject != other,
    ensures
        session::publish_step(
            peer,
            Some(LineModel::Pub { subject, reply, payload }),
        ).result->Some_0->Ok_0->Some_0.origin_uri != session::publish_step(
            peer,
            Some(LineModel::Pub { subject: other, reply, payload }),
        ).result->Some_0->Ok_0->Some_0.origin_uri,
{
    let start = "nats://"@ + peer + "/"@;
    lemma_same_ends(start, subject, other, Seq::empty());
    assert(start + subject + Seq::empty() =~= start + subject);
    assert(start + other + Seq::empty() =~= start + other);
}

/// What a session does with every line but a PUB and a SUB, whether it waits for
/// any event or for a Stream: a PING is answered by a PONG; UNSUB, PONG and
/// CONNECT are read past; what only a server sends is answered by `-ERR` and
/// refused, the line itself in the error; the close ends the wait with nothing.
pub proof fn law_session_serves_or_refuses(peer: Seq<char>, read: Option<LineModel>)
    requires
        read matches Some(line) ==> !(line is Pub) && !(line is Sub),
    ensures
        session::event_step(peer, read).reply == match read {
            Some(LineModel::Ping) => Some(LineModel::Pong),
            Some(LineModel::Info(_)) | Some(LineModel::Msg { .. }) | Some(LineModel::PlusOk)
            | Some(LineModel::MinusErr(_)) => Some(
                LineModel::MinusErr("Unknown Protocol Operation"@),
            ),
            _ => None,
        },
        session::event_step(peer, read).result == match read {
            None => Some(Ok::<Option<EventModel>, ErrorModel>(None)),
            Some(LineModel::Ping) | Some(LineModel::Pong) | Some(LineModel::Unsub { .. })
            | Some(LineModel::Connect(_)) => None,
            Some(line) => Some(Err(ErrorModel::FromClient(line))),
        },
        session::publish_step(peer, read).reply == session::event_step(peer, read).reply,
        session::publish_step(peer, read).result == match read {
            None => Some(Ok::<Option<ArrivedModel>, ErrorModel>(None)),
            Some(LineModel::Ping) | Some(LineModel::Pong) | Some(LineModel::Unsub { .. })
            | Some(LineModel::Connect(_)) => None,
            Some(line) => Some(Err(ErrorModel::FromClient(line))),
        },
{
}

/// A target that names a server goes to that server, on the subject it names, or
/// where it names none on the Location's own; any other target is a subject on
/// the Location's own server. The target that names both is spelled out.
pub proof fn law_targets_resolve(
    location: NatsTransportModel,
    target: Seq<char>,
    server: Seq<char>,
    subject: Seq<char>,
)
    ensures
        location::resolved(location, target, None) == (location.server, target),
        subject.len() > 0 ==> location::resolved(location, target, Some((server, subject))) == (
            server,
            subject,
        ),
        location::resolved(location, target, Some((server, Seq::empty()))) == (
            server,
            location.subject,
        ),
        location::target_text(server, subject) == "nats://"@ + server + "/"@ + subject,
{
}

/// A Location that receives keeps every message behind those before it and waits
/// for the next; at the close it hands up what it has; at a failure too, where
/// another try may help and there is anything to hand up, and else it gives up.
pub proof fn law_receiving_goes_on_until_the_end(
    arrived: Seq<Arrived>,
    message: Arrived,
    retryable: bool,
)
    ensures
        location::arrived_after(arrived, Incoming::Message(message)) == arrived.push(message),
        location::arrived_after(arrived, Incoming::Closed) == arrived,
        location::arrived_after(arrived, Incoming::Failed { retryable }) == arrived,
        location::receive_next(arrived.len(), Incoming::Message(message)) == Receive::On,
        location::receive_next(arrived.len(), Incoming::Closed) == Receive::Finish,
        location::receive_next(arrived.len(), Incoming::Failed { retryable }) == Receive::Finish
            <==> retryable && arrived.len() > 0,
        location::receive_next(arrived.len(), Incoming::Failed { retryable }) == Receive::GiveUp
            <==> !retryable || arrived.len() == 0,
{
}

/// What each error says to a person.
pub proof fn law_errors_say_what_is_wrong(word: Seq<char>, line: LineModel)
    ensures
        error::message_of(ErrorModel::NoCrlf) == "a protocol line without its CRLF"@,
        error::message_of(ErrorModel::NotUtf8) == "a line that is not UTF-8"@,
        error::message_of(ErrorModel::BadPub) == "a PUB that is not subject [reply] length"@,
        error::message_of(ErrorModel::BadSub) == "a SUB that is not subject [queue] sid"@,
        error::message_of(ErrorModel::BadMsg) == "a MSG that is not subject sid [reply] length"@,
        error::message_of(ErrorModel::UnknownVerb(word)) == error::debug_form(word)
            + " is not a NATS verb"@,
        error::message_of(ErrorModel::BadLength(word)) == error::debug_form(word)
            + " is not a payload length"@,
        error::message_of(ErrorModel::ShortPayload) == "reading a payload"@,
        error::message_of(ErrorModel::PayloadNoCrlf) == "a payload not followed by CRLF"@,
        error::message_of(ErrorModel::NoInfo) == "the server did not open with INFO"@,
        error::message_of(ErrorModel::NoConnect) == "the client did not answer INFO with CONNECT"@,
        error::message_of(ErrorModel::Reported(word)) == word,
        error::message_of(ErrorModel::ClosedBeforePong) == "the server closed before PONG"@,
        error::message_of(ErrorModel::FromClient(line)) == error::described(line)
            + " from a client"@,
        error::message_of(ErrorModel::NothingPublished) == "the client closed without publishing"@,
{
}

/// How each kind of line is described: its kind, and its parts by name, each
/// with its own value.
pub proof fn law_lines_are_described_part_by_part(
    json: Seq<char>,
    subject: Seq<char>,
    sid: Seq<char>,
    word: Seq<char>,
    payload: Seq<u8>,
    byte: u8,
)
    ensures
        error::described(LineModel::Info(json)) == "Info("@ + error::debug_form(json) + ")"@,
        error::described(LineModel::Connect(json)) == "Connect("@ + error::debug_form(json) + ")"@,
        error::described(LineModel::Pub { subject, reply: None, payload }) == "Pub { subject: "@
            + error::debug_form(subject) + ", reply: "@ + "None"@ + ", payload: ["@
            + error::bytes_listed(payload) + "] }"@,
        error::described(LineModel::Pub { subject, reply: Some(word), payload })
            == "Pub { subject: "@ + error::debug_form(subject) + ", reply: "@ + ("Some("@
            + error::debug_form(word) + ")"@) + ", payload: ["@ + error::bytes_listed(payload)
            + "] }"@,
        error::described(LineModel::Sub { subject, queue: None, sid }) == "Sub { subject: "@
            + error::debug_form(subject) + ", queue: "@ + "None"@ + ", sid: "@ + error::debug_form(
            sid,
        ) + " }"@,
        error::described(LineModel::Sub { subject, queue: Some(word), sid }) == "Sub { subject: "@
            + error::debug_form(subject) + ", queue: "@ + ("Some("@ + error::debug_form(word)
            + ")"@) + ", sid: "@ + error::debug_form(sid) + " }"@,
        error::described(LineModel::Unsub { sid }) == "Unsub { sid: "@ + error::debug_form(sid)
            + " }"@,
        error::described(LineModel::Msg { subject, sid, reply: None, payload })
            == "Msg { subject: "@ + error::debug_form(subject) + ", sid: "@ + error::debug_form(sid)
            + ", reply: "@ + "None"@ + ", payload: ["@ + error::bytes_listed(payload) + "] }"@,
        error::described(LineModel::Msg { subject, sid, reply: Some(word), payload })
            == "Msg { subject: "@ + error::debug_form(subject) + ", sid: "@ + error::debug_form(sid)
            + ", reply: "@ + ("Some("@ + error::debug_form(word) + ")"@) + ", payload: ["@
            + error::bytes_listed(payload) + "] }"@,
        error::described(LineModel::Ping) == "Ping"@,
        error::described(LineModel::Pong) == "Pong"@,
        error::described(LineModel::PlusOk) == "Ok"@,
        error::described(LineModel::MinusErr(word)) == "Err("@ + error::debug_form(word) + ")"@,
        error::bytes_listed(Seq::empty()) == Seq::<char>::empty(),
        error::bytes_listed(seq![byte]) == text::decimal(byte as nat),
        payload.len() > 0 ==> error::bytes_listed(payload.push(byte)) == error::bytes_listed(
            payload,
        ) + ", "@ + text::decimal(byte as nat),
{
    assert(payload.push(byte).drop_last() =~= payload);
}

} // verus!
