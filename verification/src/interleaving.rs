//! Many connections at once.
//!
//! The endpoint serves its connections side by side, and their events reach
//! it in some interleaved order. This module states what that order cannot
//! change: each connection goes through the stages, and is sent the
//! messages, that it would have had if it had been alone.

use vstd::prelude::*;
use crate::connection::{ActionView, EventView, Stage};
use crate::message::MessageView;
use crate::transcript::{forwarded, forwarded_messages_arrived, stage_after};

verus! {

/// One event of the endpoint: the connection it belongs to, and what
/// happened there.
pub struct Occurrence {
    pub connection: nat,
    pub event: EventView,
}

/// One message put on the outbound direction of a connection.
pub struct Delivery {
    pub connection: nat,
    pub message: MessageView,
}

/// The events of one connection, picked out of the history of the endpoint.
pub open spec fn events_of(history: Seq<Occurrence>, connection: nat) -> Seq<EventView> {
    history.filter(|o: Occurrence| o.connection == connection).map_values(
        |o: Occurrence| o.event,
    )
}

/// The stage of every connection after `history`. Each connection has a
/// stage of its own, starts in `Handshaking`, and takes the events that
/// carry its number; an event moves no other connection.
pub open spec fn stages_after(history: Seq<Occurrence>) -> Map<nat, Stage>
    decreases history.len(),
{
    if history.len() == 0 {
        Map::new(|c: nat| true, |c: nat| Stage::Handshaking)
    } else {
        let before = stages_after(history.drop_last());
        let last = history.last();
        before.insert(last.connection, before[last.connection].next(last.event).0)
    }
}

/// Every message that the endpoint sends during `history`, with the
/// connection on which it sends it, in the order of sending.
pub open spec fn deliveries(history: Seq<Occurrence>) -> Seq<Delivery>
    decreases history.len(),
{
    if history.len() == 0 {
        Seq::empty()
    } else {
        let before = stages_after(history.drop_last());
        let last = history.last();
        match before[last.connection].next(last.event).1 {
            ActionView::Forward(message) => deliveries(history.drop_last()).push(
                Delivery { connection: last.connection, message },
            ),
            _ => deliveries(history.drop_last()),
        }
    }
}

/// The messages sent on one connection during `history`, in order.
pub open spec fn delivered_to(history: Seq<Occurrence>, connection: nat) -> Seq<MessageView> {
    deliveries(history).filter(|d: Delivery| d.connection == connection).map_values(
        |d: Delivery| d.message,
    )
}

/// The history as it would have been if one connection had reported
/// nothing at all.
pub open spec fn without(history: Seq<Occurrence>, stalled: nat) -> Seq<Occurrence> {
    history.filter(|o: Occurrence| o.connection != stalled)
}

/// The events of a connection grow by the events that carry its number,
/// and by no others.
proof fn events_of_push(before: Seq<Occurrence>, last: Occurrence, connection: nat)
    ensures
        last.connection == connection ==> events_of(before.push(last), connection) == events_of(
            before,
            connection,
        ).push(last.event),
        last.connection != connection ==> events_of(before.push(last), connection) == events_of(
            before,
            connection,
        ),
{
    reveal(Seq::filter);
    assert(before.push(last).drop_last() == before);
}

/// Whatever the other connections do meanwhile, and in whatever order the
/// events of all of them arrive, a connection reaches the stage, and is
/// sent the messages, that its own events alone would have led to.
pub proof fn connections_do_not_interfere(history: Seq<Occurrence>, connection: nat)
    ensures
        stages_after(history).dom().contains(connection),
        stages_after(history)[connection] == stage_after(
            Stage::Handshaking,
            events_of(history, connection),
        ),
        delivered_to(history, connection) == forwarded(
            Stage::Handshaking,
            events_of(history, connection),
        ),
    decreases history.len(),
{
    reveal(Seq::filter);
    if history.len() > 0 {
        let before = history.drop_last();
        let last = history.last();
        connections_do_not_interfere(before, connection);
        connections_do_not_interfere(before, last.connection);
        assert(before.push(last) == history);
        events_of_push(before, last, connection);
        let step = stages_after(before)[last.connection].next(last.event);
        if last.connection == connection {
            let own = events_of(before, connection);
            assert(own.push(last.event).drop_last() == own);
            match step.1 {
                ActionView::Forward(message) => {
                    let sent = Delivery { connection, message };
                    assert(deliveries(history) == deliveries(before).push(sent));
                    assert(deliveries(history).drop_last() == deliveries(before));
                    assert(delivered_to(history, connection) == delivered_to(
                        before,
                        connection,
                    ).push(message));
                },
                _ => {},
            }
        } else {
            match step.1 {
                ActionView::Forward(message) => {
                    let sent = Delivery { connection: last.connection, message };
                    assert(deliveries(history) == deliveries(before).push(sent));
                    assert(deliveries(history).drop_last() == deliveries(before));
                },
                _ => {},
            }
        }
    }
}

/// Leaving out what one connection reports leaves the events of every
/// other connection as they are.
proof fn events_of_others_stay(history: Seq<Occurrence>, stalled: nat, connection: nat)
    requires
        stalled != connection,
    ensures
        events_of(without(history, stalled), connection) == events_of(history, connection),
    decreases history.len(),
{
    reveal(Seq::filter);
    if history.len() > 0 {
        let before = history.drop_last();
        let last = history.last();
        events_of_others_stay(before, stalled, connection);
        assert(before.push(last) == history);
        events_of_push(before, last, connection);
        if last.connection != stalled {
            assert(without(history, stalled) == without(before, stalled).push(last));
            events_of_push(without(before, stalled), last, connection);
        }
    }
}

/// A connection that stalls holds up no other: what another connection
/// is sent, and the stage it reaches, are the same whether the stalled
/// one reports its events or reports nothing at all.
pub proof fn stalled_connection_delays_no_other(
    history: Seq<Occurrence>,
    stalled: nat,
    connection: nat,
)
    requires
        stalled != connection,
    ensures
        delivered_to(without(history, stalled), connection) == delivered_to(history, connection),
        stages_after(without(history, stalled))[connection] == stages_after(history)[connection],
{
    events_of_others_stay(history, stalled, connection);
    connections_do_not_interfere(history, connection);
    connections_do_not_interfere(without(history, stalled), connection);
}

/// A connection is sent only messages that arrived on that same
/// connection: nothing is ever delivered across connections.
pub proof fn no_cross_delivery(history: Seq<Occurrence>, connection: nat)
    ensures
        forall|i: int|
            0 <= i < delivered_to(history, connection).len() ==> events_of(
                history,
                connection,
            ).contains(EventView::Inbound(#[trigger] delivered_to(history, connection)[i])),
{
    connections_do_not_interfere(history, connection);
    forwarded_messages_arrived(Stage::Handshaking, events_of(history, connection));
}

} // verus!
