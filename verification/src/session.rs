//! Laws of a session with the Mobile Connection Server.

use crate::codec::McsMessage;
use crate::error::{Error, ErrorView};
use crate::mcs::{fails_with, heartbeat_interval_of, is_stream_ack};
use crate::mcs::{Action, ConnectionState, Event, Receipt, Wait};
use crate::mcs::{MAX_HEARTBEAT_INTERVAL, MIN_HEARTBEAT_INTERVAL, STREAM_ACK_THRESHOLD};
use crate::proto::{DataMessageStanza, HeartbeatPing, LoginResponse};
use crate::text::signed_decimal;
use vstd::prelude::*;

verus! {

/// The heartbeat interval that a login sets lies between thirty seconds and fifteen minutes,
/// whatever the server asks for.
pub proof fn heartbeat_interval_is_bounded(response: LoginResponse)
    ensures
        heartbeat_interval_of(response) matches Ok(interval) ==> MIN_HEARTBEAT_INTERVAL <= interval
            <= MAX_HEARTBEAT_INTERVAL,
{
}

/// The state stays sound whatever happens on the connection: in particular, fewer messages than the
/// acknowledgement threshold are ever left unacknowledged.
pub proof fn session_stays_sound(state: ConnectionState, event: Event)
    requires
        state.sound(),
    ensures
        state.after(event).sound(),
{
}

/// The state after a run of events.
pub open spec fn after_events(state: ConnectionState, events: Seq<Event>) -> ConnectionState
    decreases events.len(),
{
    if events.len() == 0 {
        state
    } else {
        after_events(state, events.drop_last()).after(events.last())
    }
}

/// The state stays sound over any run of events.
pub proof fn run_stays_sound(state: ConnectionState, events: Seq<Event>)
    requires
        state.sound(),
    ensures
        after_events(state, events).sound(),
    decreases events.len(),
{
    if events.len() > 0 {
        run_stays_sound(state, events.drop_last());
    }
}

/// Whether the event is a login response.
pub open spec fn is_login_response(event: Event) -> bool {
    event matches Event::Message(McsMessage::LoginResponse(_))
}

/// How many of the events are messages.
pub open spec fn message_count(events: Seq<Event>) -> nat
    decreases events.len(),
{
    if events.len() == 0 {
        0
    } else {
        message_count(events.drop_last()) + if events.last() is Message {
            1nat
        } else {
            0
        }
    }
}

/// The events from the latest login response on; none, where there was no login response.
pub open spec fn since_login(events: Seq<Event>) -> Seq<Event>
    decreases events.len(),
{
    if events.len() == 0 {
        events
    } else if is_login_response(events.last()) {
        seq![events.last()]
    } else {
        let earlier = since_login(events.drop_last());
        if earlier.len() == 0 {
            earlier
        } else {
            earlier.push(events.last())
        }
    }
}

/// `count`, or the largest stream identifier where it is larger.
pub open spec fn as_stream_id(count: nat) -> int {
    if count <= i32::MAX {
        count as int
    } else {
        i32::MAX as int
    }
}

/// The events since the latest login response are that response and all that came after it.
pub proof fn latest_login_divides_events(earlier: Seq<Event>, login: Event, later: Seq<Event>)
    requires
        is_login_response(login),
        forall|i: int| 0 <= i < later.len() ==> !is_login_response(#[trigger] later[i]),
    ensures
        since_login(earlier.push(login) + later) == seq![login] + later,
    decreases later.len(),
{
    let events = earlier.push(login) + later;
    if later.len() == 0 {
        assert(events =~= earlier.push(login));
        assert(seq![login] =~= seq![login] + later);
    } else {
        let before = later.drop_last();
        assert forall|i: int| 0 <= i < before.len() implies !is_login_response(
            #[trigger] before[i],
        ) by {
            assert(before[i] == later[i]);
        }
        latest_login_divides_events(earlier, login, before);
        assert(events.drop_last() =~= earlier.push(login) + before);
        assert(events.last() == later[later.len() - 1]);
        assert((seq![login] + before).push(later.last()) =~= seq![login] + later);
    }
}

/// Whatever happened in a session, the stream identifier is the number of messages since the latest
/// login response, that one included, as far as it can count; and zero before the first.
pub proof fn stream_id_counts_messages_since_login(state: ConnectionState, events: Seq<Event>)
    requires
        state.last_stream_id_received == 0,
    ensures
        after_events(state, events).last_stream_id_received == as_stream_id(
            message_count(since_login(events)),
        ),
    decreases events.len(),
{
    let since = since_login(events);
    if events.len() > 0 {
        let earlier = since_login(events.drop_last());
        stream_id_counts_messages_since_login(state, events.drop_last());
        lemma_since_login_counts(events.drop_last());
        if is_login_response(events.last()) {
            reveal_with_fuel(message_count, 2);
        } else if earlier.len() > 0 {
            assert(since.drop_last() =~= earlier);
        }
    }
}

/// Since a login response there is at least that message.
proof fn lemma_since_login_counts(events: Seq<Event>)
    ensures
        since_login(events).len() > 0 ==> message_count(since_login(events)) > 0,
        since_login(events).len() == 0 ==> message_count(since_login(events)) == 0,
    decreases events.len(),
{
    let since = since_login(events);
    if events.len() > 0 && !is_login_response(events.last()) {
        lemma_since_login_counts(events.drop_last());
        let earlier = since_login(events.drop_last());
        if earlier.len() > 0 {
            assert(since.drop_last() =~= earlier);
        }
    }
}

/// After a login response the stream identifier is the number of messages from it on, whatever the
/// state was before.
pub proof fn stream_id_starts_anew_with_login(
    state: ConnectionState,
    login: LoginResponse,
    later: Seq<Event>,
)
    requires
        forall|i: int| 0 <= i < later.len() ==> !is_login_response(#[trigger] later[i]),
    ensures
        after_events(
            state.after(Event::Message(McsMessage::LoginResponse(login))),
            later,
        ).last_stream_id_received == as_stream_id(1 + message_count(later)),
    decreases later.len(),
{
    if later.len() > 0 {
        let before = later.drop_last();
        assert forall|i: int| 0 <= i < before.len() implies !is_login_response(
            #[trigger] before[i],
        ) by {
            assert(before[i] == later[i]);
        }
        stream_id_starts_anew_with_login(state, login, before);
        assert(!is_login_response(later[later.len() - 1]));
    }
}

/// Whether `actions` are what a session from `state` on answers `events` with, one by one.
pub open spec fn answers_all(
    state: ConnectionState,
    events: Seq<Event>,
    actions: Seq<Action>,
) -> bool
    decreases events.len(),
{
    if events.len() == 0 {
        actions.len() == 0
    } else {
        let before = after_events(state, events.drop_last());
        &&& actions.len() == events.len()
        &&& answers_all(state, events.drop_last(), actions.drop_last())
        &&& before.after(events.last()).answers(events.last(), before, actions.last())
    }
}

/// Whether an action sends an acknowledgement of the stream.
pub open spec fn sends_ack(action: Action) -> bool {
    action matches Action::Listen { send: Some(McsMessage::IqStanza(_)), .. }
}

/// Whether the event is the delivery of a tracked message.
pub open spec fn is_tracked_delivery(event: Event) -> bool {
    event matches Event::Delivered(receipt) && receipt.tracks_delivery
}

/// One for the delivery of a tracked message, and zero for another event.
pub open spec fn tracked_in(event: Event) -> nat {
    if is_tracked_delivery(event) {
        1
    } else {
        0
    }
}

/// How many tracked messages were delivered since the last acknowledgement was sent.
pub open spec fn tracked_since_ack(events: Seq<Event>, actions: Seq<Action>) -> nat
    decreases events.len(),
{
    if events.len() == 0 || sends_ack(actions.last()) {
        0
    } else {
        tracked_since_ack(events.drop_last(), actions.drop_last()) + tracked_in(events.last())
    }
}

/// How many tracked messages are unacknowledged at an event, before it is answered.
pub open spec fn tracked_at(events: Seq<Event>, actions: Seq<Action>, at: int) -> nat {
    tracked_since_ack(events.take(at), actions.take(at)) + tracked_in(events[at])
}

/// Whether an acknowledgement is due at an event: a message was delivered, and either its sender
/// asked for it or as many tracked messages as the threshold are unacknowledged.
pub open spec fn ack_is_due(events: Seq<Event>, actions: Seq<Action>, at: int) -> bool {
    events[at] matches Event::Delivered(receipt) && (receipt.immediate_ack || tracked_at(
        events,
        actions,
        at,
    ) >= STREAM_ACK_THRESHOLD)
}

/// What one event does to the count, and when it is answered with an acknowledgement.
proof fn lemma_ack_of_event(state: ConnectionState, event: Event, action: Action)
    requires
        state.sound(),
        state.after(event).answers(event, state, action),
    ensures
        sends_ack(action) == (event matches Event::Delivered(receipt) && (receipt.immediate_ack
            || state.unacknowledged_messages + tracked_in(event) >= STREAM_ACK_THRESHOLD)),
        sends_ack(action) ==> is_stream_ack(action->send->0, state.last_stream_id_received),
        state.after(event).unacknowledged_messages == if sends_ack(action) {
            0
        } else {
            state.unacknowledged_messages + tracked_in(event)
        },
{
}

/// Whatever happens in a session, an acknowledgement is sent exactly where the sender of a delivered
/// message asks for it or ten tracked messages are unacknowledged, and it names the stream identifier
/// that was reached. What the state counts is the tracked deliveries since the last one was sent.
pub proof fn acknowledgements_are_sent_when_due(
    state: ConnectionState,
    events: Seq<Event>,
    actions: Seq<Action>,
)
    requires
        state.sound(),
        state.unacknowledged_messages == 0,
        answers_all(state, events, actions),
    ensures
        actions.len() == events.len(),
        after_events(state, events).unacknowledged_messages == tracked_since_ack(events, actions),
        forall|i: int|
            0 <= i < events.len() ==> sends_ack(#[trigger] actions[i]) == ack_is_due(
                events,
                actions,
                i,
            ),
        forall|i: int|
            0 <= i < events.len() && sends_ack(#[trigger] actions[i]) ==> is_stream_ack(
                actions[i]->send->0,
                after_events(state, events.take(i)).last_stream_id_received,
            ),
    decreases events.len(),
{
    if events.len() > 0 {
        let earlier = events.drop_last();
        let answered = actions.drop_last();
        let last = events.len() - 1;
        acknowledgements_are_sent_when_due(state, earlier, answered);
        run_stays_sound(state, earlier);
        lemma_ack_of_event(after_events(state, earlier), events.last(), actions.last());
        assert(events.take(last) =~= earlier);
        assert(actions.take(last) =~= answered);
        assert(actions[last] == actions.last() && events[last] == events.last());
        assert forall|i: int| 0 <= i < events.len() implies sends_ack(#[trigger] actions[i])
            == ack_is_due(events, actions, i) by {
            if i < last {
                assert(answered[i] == actions[i]);
                assert(earlier.take(i) =~= events.take(i));
                assert(answered.take(i) =~= actions.take(i));
            }
        }
        assert forall|i: int| 0 <= i < events.len() && sends_ack(#[trigger] actions[i]) implies
            is_stream_ack(
            actions[i]->send->0,
            after_events(state, events.take(i)).last_stream_id_received,
        ) by {
            if i < last {
                assert(answered[i] == actions[i]);
                assert(earlier.take(i) =~= events.take(i));
            }
        }
    }
}

/// Where tracked messages are delivered one after the other and none is to be acknowledged at once,
/// every tenth delivery is answered with an acknowledgement, and no other.
pub proof fn every_tenth_tracked_message_is_acknowledged(
    state: ConnectionState,
    events: Seq<Event>,
    actions: Seq<Action>,
)
    requires
        state.sound(),
        state.unacknowledged_messages == 0,
        answers_all(state, events, actions),
        forall|i: int|
            0 <= i < events.len() ==> #[trigger] events[i] == Event::Delivered(
                Receipt { immediate_ack: false, tracks_delivery: true },
            ),
    ensures
        actions.len() == events.len(),
        forall|i: int|
            0 <= i < events.len() ==> sends_ack(#[trigger] actions[i]) == ((i + 1)
                % (STREAM_ACK_THRESHOLD as int) == 0),
        after_events(state, events).unacknowledged_messages == events.len()
            % (STREAM_ACK_THRESHOLD as nat),
    decreases events.len(),
{
    if events.len() > 0 {
        let earlier = events.drop_last();
        let answered = actions.drop_last();
        let last = events.len() - 1;
        let delivery = events[last];
        assert forall|i: int| 0 <= i < earlier.len() implies #[trigger] earlier[i]
            == Event::Delivered(Receipt { immediate_ack: false, tracks_delivery: true }) by {
            assert(earlier[i] == events[i]);
        }
        every_tenth_tracked_message_is_acknowledged(state, earlier, answered);
        run_stays_sound(state, earlier);
        lemma_ack_of_event(after_events(state, earlier), delivery, actions.last());
        assert(tracked_in(delivery) == 1);
        lemma_next_of_ten(last as nat);
        assert forall|i: int| 0 <= i < events.len() implies sends_ack(#[trigger] actions[i]) == ((i
            + 1) % (STREAM_ACK_THRESHOLD as int) == 0) by {
            if i < last {
                assert(answered[i] == actions[i]);
            }
        }
    }
}

/// Counting on from a number, in tens.
proof fn lemma_next_of_ten(n: nat)
    ensures
        (n % 10 + 1 >= 10) == ((n + 1) % 10 == 0),
        (n + 1) % 10 == if n % 10 + 1 >= 10 {
            0
        } else {
            n % 10 + 1
        },
{
}

/// The interval that a server asks for is kept where it lies between thirty seconds and fifteen
/// minutes, and else the nearer of the two is taken; without one, or with a negative one, it is five
/// minutes. A login is refused exactly where the response has an error code other than zero, and the
/// failure then tells the code and the message.
pub proof fn interval_that_a_login_sets(response: LoginResponse)
    ensures
        ({
            let refused = response.error matches Some(error) && error.code != 0;
            let asked = response.heartbeat_config matches Some(config) && (config.interval_ms
                matches Some(milliseconds) && milliseconds >= 0);
            let milliseconds = response.heartbeat_config->0.interval_ms->0;
            &&& refused ==> heartbeat_interval_of(response) == Err::<int, ErrorView>(
                ErrorView::Protocol(
                    "MCS login failed with code "@ + signed_decimal(response.error->0.code as int)
                        + ": "@ + (match response.error->0.message {
                        Some(message) => message@,
                        None => "no detail"@,
                    }),
                ),
            )
            &&& !refused ==> heartbeat_interval_of(response) is Ok
            &&& !refused && !asked ==> heartbeat_interval_of(response)->Ok_0 == 300_000
            &&& !refused && asked && milliseconds <= 30_000 ==> heartbeat_interval_of(
                response,
            )->Ok_0 == 30_000
            &&& !refused && asked && 30_000 <= milliseconds <= 900_000 ==> heartbeat_interval_of(
                response,
            )->Ok_0 == milliseconds
            &&& !refused && asked && milliseconds >= 900_000 ==> heartbeat_interval_of(
                response,
            )->Ok_0 == 900_000
        }),
{
}

/// What an event changes. A message counts on from the login response, which is the first, and the
/// login response alone sets the interval. A delivery counts where it is tracked, and the count starts
/// anew where ten are reached or an acknowledgement is asked for. Nothing else changes.
pub proof fn what_an_event_changes(state: ConnectionState, event: Event)
    requires
        state.unacknowledged_messages < usize::MAX,
    ensures
        ({
            let next = state.after(event);
            let id = state.last_stream_id_received;
            let count = state.unacknowledged_messages;
            match event {
                Event::Message(McsMessage::LoginResponse(response)) => {
                    &&& next.last_stream_id_received == 1
                    &&& next.unacknowledged_messages == count
                    &&& match heartbeat_interval_of(response) {
                        Ok(interval) => next.heartbeat_interval == interval,
                        Err(_) => next.heartbeat_interval == state.heartbeat_interval,
                    }
                },
                Event::Message(_) => {
                    &&& 0 < id < i32::MAX ==> next.last_stream_id_received == id + 1
                    &&& id <= 0 || id == i32::MAX ==> next.last_stream_id_received == id
                    &&& next.unacknowledged_messages == count
                    &&& next.heartbeat_interval == state.heartbeat_interval
                },
                Event::Delivered(receipt) => {
                    let reached = count + if receipt.tracks_delivery {
                        1int
                    } else {
                        0int
                    };
                    &&& receipt.immediate_ack || reached >= 10 ==> next.unacknowledged_messages == 0
                    &&& !receipt.immediate_ack && reached < 10 ==> next.unacknowledged_messages
                        == reached
                    &&& next.last_stream_id_received == id
                    &&& next.heartbeat_interval == state.heartbeat_interval
                },
                _ => next == state,
            }
        }),
{
    match event {
        Event::Message(McsMessage::LoginResponse(response)) => {
            heartbeat_interval_is_bounded(response);
        },
        _ => {},
    }
}

/// A data message is handed to its consumer as it came, whatever it holds and whatever the state is.
/// An acknowledgement at once is due where the message asks for it, and the delivery is tracked where
/// the message has an identifier.
pub proof fn data_message_is_delivered(
    state: ConnectionState,
    data: DataMessageStanza,
    action: Action,
)
    requires
        ({
            let event = Event::Message(McsMessage::DataMessageStanza(data));
            state.after(event).answers(event, state, action)
        }),
    ensures
        action matches Action::Deliver { data: handed, receipt } && handed == data
            && receipt.immediate_ack == (data.immediate_ack == Some(true))
            && receipt.tracks_delivery == (data.persistent_id is Some),
{
}

/// Nothing but a data message that came is handed to the consumer.
pub proof fn only_data_messages_are_delivered(
    state: ConnectionState,
    event: Event,
    action: Action,
)
    requires
        state.after(event).answers(event, state, action),
    ensures
        action matches Action::Deliver { data, .. } ==> event == Event::Message(
            McsMessage::DataMessageStanza(data),
        ),
{
}

/// The data messages that came, in order.
pub open spec fn arrived(events: Seq<Event>) -> Seq<DataMessageStanza>
    decreases events.len(),
{
    if events.len() == 0 {
        Seq::empty()
    } else if let Event::Message(McsMessage::DataMessageStanza(data)) = events.last() {
        arrived(events.drop_last()).push(data)
    } else {
        arrived(events.drop_last())
    }
}

/// The data messages that were handed to the consumer, in order.
pub open spec fn handed_over(actions: Seq<Action>) -> Seq<DataMessageStanza>
    decreases actions.len(),
{
    if actions.len() == 0 {
        Seq::empty()
    } else if let Action::Deliver { data, .. } = actions.last() {
        handed_over(actions.drop_last()).push(data)
    } else {
        handed_over(actions.drop_last())
    }
}

/// Over a session, what is handed to the consumer is what came: all data messages, in order, each
/// when it comes, and nothing else.
pub proof fn all_that_came_is_handed_over(
    state: ConnectionState,
    events: Seq<Event>,
    actions: Seq<Action>,
)
    requires
        answers_all(state, events, actions),
    ensures
        actions.len() == events.len(),
        handed_over(actions) == arrived(events),
        forall|i: int|
            0 <= i < events.len() ==> (#[trigger] events[i] matches Event::Message(
                McsMessage::DataMessageStanza(data),
            ) ==> actions[i] matches Action::Deliver { data: handed, .. } && handed == data),
    decreases events.len(),
{
    if events.len() > 0 {
        let last = events.len() - 1;
        let earlier = events.drop_last();
        let answered = actions.drop_last();
        all_that_came_is_handed_over(state, earlier, answered);
        let before = after_events(state, earlier);
        only_data_messages_are_delivered(before, events.last(), actions.last());
        if let Event::Message(McsMessage::DataMessageStanza(data)) = events.last() {
            data_message_is_delivered(before, data, actions.last());
        }
        assert forall|i: int| 0 <= i < events.len() implies (#[trigger] events[i] matches
            Event::Message(McsMessage::DataMessageStanza(data)) ==> actions[i] matches
            Action::Deliver { data: handed, .. } && handed == data) by {
            if i < last {
                assert(earlier[i] == events[i]);
                assert(answered[i] == actions[i]);
            }
        }
    }
}

/// A heartbeat is answered at once, with the stream identifier that its own arrival makes.
pub proof fn ping_is_answered_with_the_identifier(
    state: ConnectionState,
    ping: HeartbeatPing,
    action: Action,
)
    requires
        ({
            let event = Event::Message(McsMessage::HeartbeatPing(ping));
            state.after(event).answers(event, state, action)
        }),
    ensures
        action matches Action::Listen {
            send: Some(McsMessage::HeartbeatAck(ack)),
            forget_ids,
            wait,
            timeout,
        } && ack.last_stream_id_received == Some(
            state.after(Event::Message(McsMessage::HeartbeatPing(ping))).last_stream_id_received,
        ) && !forget_ids && wait == Wait::Idle && timeout == state.heartbeat_interval,
{
}

/// A login that succeeds sends nothing, has the identifiers of processed messages forgotten, and sets
/// the time to wait. One that is refused ends the session with the refusal.
pub proof fn login_is_answered(state: ConnectionState, response: LoginResponse, action: Action)
    requires
        ({
            let event = Event::Message(McsMessage::LoginResponse(response));
            state.after(event).answers(event, state, action)
        }),
    ensures
        match heartbeat_interval_of(response) {
            Ok(interval) => action matches Action::Listen { send: None, forget_ids, wait, timeout }
                && forget_ids && wait == Wait::Idle && timeout == interval,
            Err(failure) => action matches Action::Stop(Err(error)) && error@ == failure,
        },
{
    heartbeat_interval_is_bounded(response);
}

/// Other messages are not answered, and the session goes on.
pub proof fn other_messages_are_not_answered(
    state: ConnectionState,
    message: McsMessage,
    action: Action,
)
    requires
        message is HeartbeatAck || message is LoginRequest || message is IqStanza,
        state.after(Event::Message(message)).answers(Event::Message(message), state, action),
    ensures
        action == (Action::Listen {
            send: None,
            forget_ids: false,
            wait: Wait::Idle,
            timeout: state.heartbeat_interval,
        }),
{
}

/// What ends a session: the peer, without a failure, by closing it; a reported error, a heartbeat
/// without an answer, and a consumer that is gone, each with its failure; and a login that is refused.
/// Nothing else does.
pub proof fn ends_of_a_session(state: ConnectionState, event: Event, action: Action)
    requires
        state.after(event).answers(event, state, action),
    ensures
        event == Event::Ended || (event matches Event::Message(McsMessage::Close(_))) ==> action
            == Action::Stop(Ok::<(), Error>(())),
        event matches Event::Message(McsMessage::StreamErrorStanza(stanza)) ==> (action matches
            Action::Stop(Err(error)) && error@ == ErrorView::Protocol(
            "MCS stream error "@ + stanza.error_type@ + ": "@ + (match stanza.text {
                Some(text) => text@,
                None => "no detail"@,
            }),
        )),
        event == Event::Silence(Wait::Heartbeat) ==> (action matches Action::Stop(Err(error))
            && error@ == ErrorView::Protocol("MCS heartbeat timed out"@)),
        event == Event::Undeliverable ==> (action matches Action::Stop(Err(error)) && error@
            == ErrorView::Protocol("push notification consumer stopped"@)),
        action is Stop ==> event == Event::Ended || event == Event::Undeliverable || event
            == Event::Silence(Wait::Heartbeat) || (event matches Event::Message(message) && (message
            is Close || message is StreamErrorStanza || (message matches McsMessage::LoginResponse(
            response,
        ) && heartbeat_interval_of(response) is Err))),
{
}

/// After a heartbeat interval without a message a heartbeat is sent, which tells the stream identifier
/// once there is one, and half a minute is left for the answer.
pub proof fn silence_is_met_with_a_heartbeat(state: ConnectionState, action: Action)
    requires
        state.after(Event::Silence(Wait::Idle)).answers(
            Event::Silence(Wait::Idle),
            state,
            action,
        ),
    ensures
        action matches Action::Listen {
            send: Some(McsMessage::HeartbeatPing(ping)),
            forget_ids,
            wait,
            timeout,
        } && !forget_ids && wait == Wait::Heartbeat && timeout == 30_000
            && ping.last_stream_id_received == if state.last_stream_id_received > 0 {
            Some(state.last_stream_id_received)
        } else {
            None
        },
{
}

/// A delivery is answered with an acknowledgement of the stream where the sender asked for it or the
/// tenth tracked message is reached, and else with nothing; either way the session waits on.
pub proof fn delivery_is_answered(state: ConnectionState, receipt: Receipt, action: Action)
    requires
        state.unacknowledged_messages < usize::MAX,
        state.after(Event::Delivered(receipt)).answers(Event::Delivered(receipt), state, action),
    ensures
        ({
            let reached = state.unacknowledged_messages + if receipt.tracks_delivery {
                1int
            } else {
                0int
            };
            &&& action matches Action::Listen { send, forget_ids, wait, timeout }
            &&& !forget_ids
            &&& wait == Wait::Idle
            &&& timeout == state.heartbeat_interval
            &&& if receipt.immediate_ack || reached >= 10 {
                &&& send matches Some(McsMessage::IqStanza(stanza))
                &&& stanza.iq_type == 1
                &&& stanza.id@.len() == 0
                &&& stanza.last_stream_id_received == Some(state.last_stream_id_received)
                &&& stanza.extension matches Some(extension)
                &&& extension.id == 13
                &&& extension.data@.len() == 0
            } else {
                send is None
            }
        }),
{
}

/// A message whose sender wants it is acknowledged at once, and nothing is left unacknowledged.
pub proof fn requested_acknowledgement_is_immediate(
    state: ConnectionState,
    tracks_delivery: bool,
    action: Action,
)
    requires
        ({
            let event = Event::Delivered(Receipt { immediate_ack: true, tracks_delivery });
            state.after(event).answers(event, state, action)
        }),
    ensures
        action matches Action::Listen { send: Some(McsMessage::IqStanza(ack)), .. }
            && ack.last_stream_id_received == Some(state.last_stream_id_received),
        state.after(
            Event::Delivered(Receipt { immediate_ack: true, tracks_delivery }),
        ).unacknowledged_messages == 0,
{
}

/// A server that stays silent is sent one heartbeat, and the session fails when it stays silent
/// after that.
pub proof fn silent_server_is_given_up(
    state: ConnectionState,
    first: Action,
    second: Action,
)
    requires
        state.after(Event::Silence(Wait::Idle)).answers(
            Event::Silence(Wait::Idle),
            state,
            first,
        ),
        state.after(Event::Silence(first->wait)).answers(
            Event::Silence(first->wait),
            state,
            second,
        ),
    ensures
        first matches Action::Listen { send: Some(McsMessage::HeartbeatPing(_)), .. },
        fails_with(second, ErrorView::Protocol("MCS heartbeat timed out"@)),
        state.after(Event::Silence(Wait::Idle)) == state,
{
}

/// The session waits for at least thirty seconds and at most fifteen minutes at a time.
pub proof fn waits_are_bounded(state: ConnectionState, event: Event, action: Action)
    requires
        state.sound(),
        state.after(event).answers(event, state, action),
    ensures
        action matches Action::Listen { timeout, .. } ==> MIN_HEARTBEAT_INTERVAL <= timeout
            <= MAX_HEARTBEAT_INTERVAL,
{
}

/// The identifiers of processed messages are forgotten when a login succeeds, and never otherwise.
pub proof fn identifiers_are_forgotten_at_login_only(
    state: ConnectionState,
    event: Event,
    action: Action,
)
    requires
        state.after(event).answers(event, state, action),
    ensures
        (action matches Action::Listen { forget_ids, .. } && forget_ids) <==> (event matches
            Event::Message(McsMessage::LoginResponse(response)) && heartbeat_interval_of(response)
            is Ok),
{
}

} // verus!
