//! Whole runs of one connection: what a sequence of events leads to, and
//! what is sent back along the way.

use vstd::prelude::*;
use crate::connection::{Action, ActionView, Ending, Event, EventView, Stage};
use crate::message::{Message, MessageView};

verus! {

/// The events of a run, as values.
pub open spec fn event_views(events: Seq<Event>) -> Seq<EventView> {
    events.map_values(|e: Event| e@)
}

/// The messages of a list, as values.
pub open spec fn message_views(messages: Seq<Message>) -> Seq<MessageView> {
    messages.map_values(|m: Message| m@)
}

/// The message that an action puts on the outbound direction, if any.
pub open spec fn sent_by(action: ActionView) -> Seq<MessageView> {
    match action {
        ActionView::Forward(m) => seq![m],
        _ => Seq::empty(),
    }
}

/// The stage that a connection in `stage` has reached once it has taken
/// `events`, one after the other.
pub open spec fn stage_after(stage: Stage, events: Seq<EventView>) -> Stage
    decreases events.len(),
{
    if events.len() == 0 {
        stage
    } else {
        stage_after(stage, events.drop_last()).next(events.last()).0
    }
}

/// The messages that a connection in `stage` puts on its outbound
/// direction while it takes `events`, in the order in which it does so.
pub open spec fn forwarded(stage: Stage, events: Seq<EventView>) -> Seq<MessageView>
    decreases events.len(),
{
    if events.len() == 0 {
        Seq::empty()
    } else {
        forwarded(stage, events.drop_last()) + sent_by(
            stage_after(stage, events.drop_last()).next(events.last()).1,
        )
    }
}

/// The outcome of a run: where the connection stands, and what it sent back.
#[derive(Debug, PartialEq, Eq)]
pub struct Transcript {
    pub stage: Stage,
    pub forwarded: Vec<Message>,
}

/// Runs a connection that stands in `stage` through `events` and records
/// what it forwards.
pub fn replay(stage: Stage, events: &Vec<Event>) -> (t: Transcript)
    ensures
        t.stage == stage_after(stage, event_views(events@)),
        message_views(t.forwarded@) == forwarded(stage, event_views(events@)),
{
    let ghost views = event_views(events@);
    let mut current = stage;
    let mut out: Vec<Message> = Vec::new();
    let mut i: usize = 0;
    while i < events.len()
        invariant
            i <= events.len(),
            views == event_views(events@),
            current == stage_after(stage, views.take(i as int)),
            message_views(out@) == forwarded(stage, views.take(i as int)),
        decreases events.len() - i,
    {
        let (following, action) = current.step(events[i].clone());
        proof {
            let prefix = views.take(i as int + 1);
            assert(prefix.drop_last() == views.take(i as int));
            assert(prefix.last() == events@[i as int]@);
        }
        current = following;
        match action {
            Action::Forward(message) => {
                proof {
                    assert(message_views(out@.push(message)) == message_views(out@).push(
                        message@,
                    ));
                }
                out.push(message);
            },
            _ => {},
        }
        i = i + 1;
    }
    proof {
        assert(views.take(i as int) == views);
    }
    Transcript { stage: current, forwarded: out }
}

/// The events that report `messages` arriving one after the other.
pub open spec fn arrivals(messages: Seq<MessageView>) -> Seq<EventView> {
    messages.map_values(|m: MessageView| EventView::Inbound(m))
}

/// The text and binary messages among `messages`, in their order.
pub open spec fn data_of(messages: Seq<MessageView>) -> Seq<MessageView> {
    messages.filter(|m: MessageView| m.kind.relayed())
}

/// The messages that arrive during `events`, in their order.
pub open spec fn inbound_of(events: Seq<EventView>) -> Seq<MessageView> {
    events.filter(|e: EventView| e is Inbound).map_values(|e: EventView| e->Inbound_0)
}

/// The part of a run that comes before the first event that ends a relay;
/// the whole run if there is no such event.
pub open spec fn until_end(events: Seq<EventView>) -> Seq<EventView>
    decreases events.len(),
{
    if events.len() == 0 {
        events
    } else {
        let before = until_end(events.drop_last());
        if before.len() < events.len() - 1 || events.last().ends_relay() {
            before
        } else {
            before.push(events.last())
        }
    }
}

/// The events of a connection that is set up without a failure: the secure
/// handshake succeeds, then the upgrade.
pub open spec fn opening() -> Seq<EventView> {
    seq![EventView::Secured, EventView::Upgraded]
}

/// A run of one event is one step.
pub proof fn run_of_one(stage: Stage, event: EventView)
    ensures
        stage_after(stage, seq![event]) == stage.next(event).0,
        forwarded(stage, seq![event]) == sent_by(stage.next(event).1),
{
    let run = seq![event];
    assert(run.drop_last() == Seq::<EventView>::empty());
    assert(run.last() == event);
    assert(stage_after(stage, run.drop_last()) == stage);
    assert(forwarded(stage, run.drop_last()) == Seq::<MessageView>::empty());
}

/// A run taken in two parts is the run taken at once: the second part
/// starts in the stage that the first part reached, and what is forwarded
/// is what the first part forwards followed by what the second part does.
pub proof fn runs_compose(stage: Stage, first: Seq<EventView>, then: Seq<EventView>)
    ensures
        stage_after(stage, first + then) == stage_after(stage_after(stage, first), then),
        forwarded(stage, first + then) == forwarded(stage, first) + forwarded(
            stage_after(stage, first),
            then,
        ),
    decreases then.len(),
{
    if then.len() == 0 {
        assert(first + then == first);
    } else {
        runs_compose(stage, first, then.drop_last());
        assert((first + then).drop_last() == first + then.drop_last());
        assert((first + then).last() == then.last());
    }
}

/// Whatever the events, every forwarded message is a text or a binary
/// message: a ping, a pong or a close is never sent back.
pub proof fn only_data_is_forwarded(stage: Stage, events: Seq<EventView>)
    ensures
        forall|i: int|
            0 <= i < forwarded(stage, events).len() ==> (#[trigger] forwarded(
                stage,
                events,
            )[i]).kind.relayed(),
    decreases events.len(),
{
    if events.len() > 0 {
        only_data_is_forwarded(stage, events.drop_last());
    }
}

/// Whatever the events, every forwarded message is one that arrived on
/// this connection: nothing is made up, and nothing comes from elsewhere.
pub proof fn forwarded_messages_arrived(stage: Stage, events: Seq<EventView>)
    ensures
        forall|i: int|
            0 <= i < forwarded(stage, events).len() ==> events.contains(
                EventView::Inbound(#[trigger] forwarded(stage, events)[i]),
            ),
    decreases events.len(),
{
    if events.len() > 0 {
        let before = events.drop_last();
        forwarded_messages_arrived(stage, before);
        assert forall|i: int| 0 <= i < forwarded(stage, events).len() implies events.contains(
            EventView::Inbound(#[trigger] forwarded(stage, events)[i]),
        ) by {
            let m = forwarded(stage, events)[i];
            if i < forwarded(stage, before).len() {
                assert(forwarded(stage, before)[i] == m);
                let j = choose|j: int|
                    0 <= j < before.len() && before[j] == EventView::Inbound(m);
                assert(events[j] == EventView::Inbound(m));
            } else {
                assert(events[events.len() - 1] == EventView::Inbound(m));
            }
        }
    }
}

/// While a connection relays, it sends back exactly the text and binary
/// messages among those that arrive, each unchanged and in the order of
/// arrival, and it goes on relaying.
pub proof fn relay_keeps_data_in_order(messages: Seq<MessageView>)
    ensures
        stage_after(Stage::Relaying, arrivals(messages)) == Stage::Relaying,
        forwarded(Stage::Relaying, arrivals(messages)) == data_of(messages),
    decreases messages.len(),
{
    reveal(Seq::filter);
    if messages.len() > 0 {
        relay_keeps_data_in_order(messages.drop_last());
        assert(arrivals(messages).drop_last() == arrivals(messages.drop_last()));
        assert(arrivals(messages).last() == EventView::Inbound(messages.last()));
    }
}

/// The part of a run before its end is the run cut off at the first event
/// that ends a relay.
pub proof fn until_end_is_a_prefix(events: Seq<EventView>)
    ensures
        until_end(events).len() <= events.len(),
        until_end(events) == events.take(until_end(events).len() as int),
        forall|i: int| 0 <= i < until_end(events).len() ==> !(#[trigger] events[i]).ends_relay(),
        until_end(events).len() < events.len() ==> events[until_end(events).len() as int]
            .ends_relay(),
    decreases events.len(),
{
    if events.len() > 0 {
        let before = events.drop_last();
        until_end_is_a_prefix(before);
        assert forall|i: int| 0 <= i < until_end(events).len() implies !(#[trigger] events[i])
            .ends_relay() by {
            if i < before.len() {
                assert(events[i] == before[i]);
            }
        }
    }
}

/// Whatever is reported to a connection that relays, it sends back exactly
/// the text and binary messages that arrive before the relay ends, each
/// unchanged and in the order of arrival; and it relays until an event ends
/// the relay, and no longer.
pub proof fn relay_forwards_data_until_the_end(events: Seq<EventView>)
    ensures
        forwarded(Stage::Relaying, events) == data_of(inbound_of(until_end(events))),
        until_end(events) == events ==> stage_after(Stage::Relaying, events) == Stage::Relaying,
        until_end(events) != events ==> stage_after(Stage::Relaying, events).closed(),
    decreases events.len(),
{
    reveal(Seq::filter);
    until_end_is_a_prefix(events);
    if events.len() > 0 {
        let before = events.drop_last();
        let last = events.last();
        relay_forwards_data_until_the_end(before);
        until_end_is_a_prefix(before);
        if until_end(before).len() < before.len() {
            assert(until_end(before) != before);
        } else {
            assert(until_end(before) == before);
            if !last.ends_relay() {
                let kept = until_end(before);
                assert(until_end(events) == kept.push(last));
                assert(before.push(last) == events);
                assert(kept.push(last).drop_last() == kept);
                match last {
                    EventView::Inbound(m) => {
                        assert(inbound_of(kept.push(last)) == inbound_of(kept).push(m));
                        assert(inbound_of(kept).push(m).drop_last() == inbound_of(kept));
                    },
                    _ => {
                        assert(inbound_of(kept.push(last)) == inbound_of(kept));
                    },
                }
            }
        }
    }
}

/// Among text and binary messages alone, all are data.
proof fn data_of_data(messages: Seq<MessageView>)
    requires
        forall|i: int| 0 <= i < messages.len() ==> (#[trigger] messages[i]).kind.relayed(),
    ensures
        data_of(messages) == messages,
    decreases messages.len(),
{
    reveal(Seq::filter);
    if messages.len() > 0 {
        data_of_data(messages.drop_last());
        assert(messages.drop_last().push(messages.last()) == messages);
    }
}

/// A connection that is set up without a failure relays, and has sent
/// nothing yet.
pub proof fn opening_leads_to_relay()
    ensures
        stage_after(Stage::Handshaking, opening()) == Stage::Relaying,
        forwarded(Stage::Handshaking, opening()) == Seq::<MessageView>::empty(),
{
    run_of_one(Stage::Handshaking, EventView::Secured);
    run_of_one(Stage::Upgrading, EventView::Upgraded);
    runs_compose(Stage::Handshaking, seq![EventView::Secured], seq![EventView::Upgraded]);
    assert(opening() == seq![EventView::Secured] + seq![EventView::Upgraded]);
}

/// A client that sends only text and binary messages gets every one of them
/// back, byte for byte and in order, with nothing added and nothing left
/// out. This holds of a channel that is open, and so of a connection that
/// was set up without a failure.
pub proof fn data_is_echoed(messages: Seq<MessageView>)
    requires
        forall|i: int| 0 <= i < messages.len() ==> (#[trigger] messages[i]).kind.relayed(),
    ensures
        forwarded(Stage::Relaying, arrivals(messages)) == messages,
        forwarded(Stage::Handshaking, opening() + arrivals(messages)) == messages,
        stage_after(Stage::Handshaking, opening() + arrivals(messages)) == Stage::Relaying,
{
    relay_keeps_data_in_order(messages);
    data_of_data(messages);
    opening_leads_to_relay();
    runs_compose(Stage::Handshaking, opening(), arrivals(messages));
}

/// When the inbound direction ends, the connection ends gracefully, after
/// it has sent back the text and binary messages that arrived before.
pub proof fn end_of_stream_ends_gracefully(messages: Seq<MessageView>)
    ensures
        stage_after(Stage::Relaying, arrivals(messages).push(EventView::EndOfStream))
            == Stage::Closed(Ending::Graceful),
        forwarded(Stage::Relaying, arrivals(messages).push(EventView::EndOfStream)) == data_of(
            messages,
        ),
{
    relay_keeps_data_in_order(messages);
    let run = arrivals(messages).push(EventView::EndOfStream);
    assert(run.drop_last() == arrivals(messages));
}

/// A connection that is over stays over: it forwards nothing more, and
/// whatever is reported to it, it asks for no handshake, no upgrade and no
/// message again. Nothing is retried.
pub proof fn closed_stays_closed(ending: Ending, events: Seq<EventView>)
    ensures
        stage_after(Stage::Closed(ending), events) == Stage::Closed(ending),
        forwarded(Stage::Closed(ending), events) == Seq::<MessageView>::empty(),
        forall|event: EventView|
            #[trigger] stage_after(Stage::Closed(ending), events).next(event) == (
                Stage::Closed(ending),
                ActionView::Halt,
            ),
    decreases events.len(),
{
    if events.len() > 0 {
        closed_stays_closed(ending, events.drop_last());
    }
}

/// A connection only moves forward: from the secure handshake to the
/// upgrade, from there to the relay, from any of them to its end. So each
/// connection has at most one secure stream and at most one framed channel.
pub proof fn stages_only_advance(stage: Stage, events: Seq<EventView>)
    ensures
        stage.rank() <= stage_after(stage, events).rank(),
    decreases events.len(),
{
    if events.len() > 0 {
        stages_only_advance(stage, events.drop_last());
    }
}

/// Nothing is relayed on a connection whose upgrade has not succeeded:
/// without that event no message is ever forwarded, whatever else happens.
pub proof fn no_relay_before_upgrade(events: Seq<EventView>)
    requires
        !events.contains(EventView::Upgraded),
    ensures
        stage_after(Stage::Handshaking, events) != Stage::Relaying,
        forwarded(Stage::Handshaking, events) == Seq::<MessageView>::empty(),
    decreases events.len(),
{
    if events.len() > 0 {
        let before = events.drop_last();
        assert forall|j: int| 0 <= j < before.len() implies before[j]
            != EventView::Upgraded by {
            assert(events[j] == before[j]);
            assert(events.contains(events[j]));
        }
        no_relay_before_upgrade(before);
        assert(events.contains(events.last()));
    }
}

/// A client whose secure handshake fails gets no relay: the connection is
/// over at once, and nothing that happens afterwards is forwarded.
pub proof fn failed_handshake_starts_no_relay(rest: Seq<EventView>)
    ensures
        stage_after(Stage::Handshaking, seq![EventView::HandshakeFailed] + rest) == Stage::Closed(
            Ending::HandshakeFailed,
        ),
        forwarded(Stage::Handshaking, seq![EventView::HandshakeFailed] + rest) == Seq::<
            MessageView,
        >::empty(),
{
    let failure = seq![EventView::HandshakeFailed];
    run_of_one(Stage::Handshaking, EventView::HandshakeFailed);
    runs_compose(Stage::Handshaking, failure, rest);
    closed_stays_closed(Ending::HandshakeFailed, rest);
}

/// A client that completes the secure handshake and then fails the upgrade
/// gets no relay: the connection is over at once, and nothing that happens
/// afterwards is forwarded.
pub proof fn failed_upgrade_starts_no_relay(rest: Seq<EventView>)
    ensures
        stage_after(
            Stage::Handshaking,
            seq![EventView::Secured, EventView::UpgradeFailed] + rest,
        ) == Stage::Closed(Ending::UpgradeFailed),
        forwarded(Stage::Handshaking, seq![EventView::Secured, EventView::UpgradeFailed] + rest)
            == Seq::<MessageView>::empty(),
{
    let failure = seq![EventView::Secured, EventView::UpgradeFailed];
    run_of_one(Stage::Handshaking, EventView::Secured);
    run_of_one(Stage::Upgrading, EventView::UpgradeFailed);
    runs_compose(Stage::Handshaking, seq![EventView::Secured], seq![EventView::UpgradeFailed]);
    assert(failure == seq![EventView::Secured] + seq![EventView::UpgradeFailed]);
    runs_compose(Stage::Handshaking, failure, rest);
    closed_stays_closed(Ending::UpgradeFailed, rest);
}

} // verus!
