//! The life of one connection: secure handshake, upgrade to a framed
//! channel, relay, end.
//!
//! A connection is driven from outside. The driver performs the [`Action`]
//! it is given, reports what came of it as an [`Event`], and [`Stage::step`]
//! answers with the next stage and the next action. Nothing here touches a
//! socket, so every decision of the connection is a function of the events
//! alone.

use vstd::prelude::*;
use crate::message::{Message, MessageView};

verus! {

/// How a connection came to its end.
#[derive(Clone, Copy, Debug, PartialEq, Eq, Structural)]
pub enum Ending {
    /// The inbound direction signalled end of stream.
    Graceful,
    /// The secure handshake failed.
    HandshakeFailed,
    /// The upgrade to a framed channel failed.
    UpgradeFailed,
    /// Receiving failed while relaying.
    ReadFailed,
    /// Sending failed while relaying.
    WriteFailed,
}

/// Where a connection stands.
#[derive(Clone, Copy, Debug, PartialEq, Eq, Structural)]
pub enum Stage {
    /// The raw connection is accepted; the secure handshake is under way.
    Handshaking,
    /// The stream is secure; the upgrade handshake is under way.
    Upgrading,
    /// The framed channel is open and messages are relayed.
    Relaying,
    /// The connection is over.
    Closed(Ending),
}

/// What the driver reports.
#[derive(Debug, PartialEq, Eq)]
pub enum Event {
    /// The secure handshake succeeded.
    Secured,
    /// The secure handshake failed.
    HandshakeFailed,
    /// The upgrade handshake succeeded.
    Upgraded,
    /// The upgrade handshake failed.
    UpgradeFailed,
    /// A message arrived on the inbound direction.
    Inbound(Message),
    /// The inbound direction ended.
    EndOfStream,
    /// Receiving failed.
    ReadFailed,
    /// Sending a forwarded message failed.
    WriteFailed,
}

/// An event as a value.
pub enum EventView {
    Secured,
    HandshakeFailed,
    Upgraded,
    UpgradeFailed,
    Inbound(MessageView),
    EndOfStream,
    ReadFailed,
    WriteFailed,
}

impl EventView {
    /// Whether the event ends a relay: the inbound direction is over, or
    /// receiving or sending has failed.
    pub open spec fn ends_relay(self) -> bool {
        self is EndOfStream || self is ReadFailed || self is WriteFailed
    }
}

impl View for Event {
    type V = EventView;

    open spec fn view(&self) -> EventView {
        match self {
            Event::Secured => EventView::Secured,
            Event::HandshakeFailed => EventView::HandshakeFailed,
            Event::Upgraded => EventView::Upgraded,
            Event::UpgradeFailed => EventView::UpgradeFailed,
            Event::Inbound(m) => EventView::Inbound(m@),
            Event::EndOfStream => EventView::EndOfStream,
            Event::ReadFailed => EventView::ReadFailed,
            Event::WriteFailed => EventView::WriteFailed,
        }
    }
}

/// What the driver is to do next.
#[derive(Debug, PartialEq, Eq)]
pub enum Action {
    /// Perform the secure handshake as the server.
    Secure,
    /// Perform the upgrade handshake on the secure stream.
    Upgrade,
    /// Receive the next inbound message.
    Receive,
    /// Send this message on the outbound direction of the same channel,
    /// then receive the next inbound message.
    Forward(Message),
    /// Close the outbound direction: the connection ended gracefully.
    Finish,
    /// Drop the connection: it failed.
    Abort,
    /// Nothing is left to do.
    Halt,
}

/// An action as a value.
pub enum ActionView {
    Secure,
    Upgrade,
    Receive,
    Forward(MessageView),
    Finish,
    Abort,
    Halt,
}

impl View for Action {
    type V = ActionView;

    open spec fn view(&self) -> ActionView {
        match self {
            Action::Secure => ActionView::Secure,
            Action::Upgrade => ActionView::Upgrade,
            Action::Receive => ActionView::Receive,
            Action::Forward(m) => ActionView::Forward(m@),
            Action::Finish => ActionView::Finish,
            Action::Abort => ActionView::Abort,
            Action::Halt => ActionView::Halt,
        }
    }
}

impl Clone for Event {
    /// A copy that reports the same thing, with the same message.
    fn clone(&self) -> (e: Event)
        ensures
            e@ == self@,
    {
        match self {
            Event::Secured => Event::Secured,
            Event::HandshakeFailed => Event::HandshakeFailed,
            Event::Upgraded => Event::Upgraded,
            Event::UpgradeFailed => Event::UpgradeFailed,
            Event::Inbound(m) => Event::Inbound(m.clone()),
            Event::EndOfStream => Event::EndOfStream,
            Event::ReadFailed => Event::ReadFailed,
            Event::WriteFailed => Event::WriteFailed,
        }
    }
}

impl Stage {
    /// Whether the connection is over.
    pub open spec fn closed(self) -> bool {
        self is Closed
    }

    /// How far the connection has come: a count of the stages behind it.
    pub open spec fn rank(self) -> nat {
        match self {
            Stage::Handshaking => 0,
            Stage::Upgrading => 1,
            Stage::Relaying => 2,
            Stage::Closed(_) => 3,
        }
    }

    /// The action on whose outcome the stage waits.
    pub open spec fn awaited(self) -> ActionView {
        match self {
            Stage::Handshaking => ActionView::Secure,
            Stage::Upgrading => ActionView::Upgrade,
            Stage::Relaying => ActionView::Receive,
            Stage::Closed(_) => ActionView::Halt,
        }
    }

    /// Whether the stage waits for this event. An event that it does not
    /// wait for changes nothing.
    pub open spec fn awaits(self, event: EventView) -> bool {
        match self {
            Stage::Handshaking => event is Secured || event is HandshakeFailed,
            Stage::Upgrading => event is Upgraded || event is UpgradeFailed,
            Stage::Relaying => event is Inbound || event is EndOfStream || event is ReadFailed
                || event is WriteFailed,
            Stage::Closed(_) => false,
        }
    }

    /// The transition function: the stage and the action that follow
    /// `event` in stage `self`.
    pub open spec fn next(self, event: EventView) -> (Stage, ActionView) {
        match (self, event) {
            (Stage::Handshaking, EventView::Secured) => (Stage::Upgrading, ActionView::Upgrade),
            (Stage::Handshaking, EventView::HandshakeFailed) => (
                Stage::Closed(Ending::HandshakeFailed),
                ActionView::Abort,
            ),
            (Stage::Upgrading, EventView::Upgraded) => (Stage::Relaying, ActionView::Receive),
            (Stage::Upgrading, EventView::UpgradeFailed) => (
                Stage::Closed(Ending::UpgradeFailed),
                ActionView::Abort,
            ),
            (Stage::Relaying, EventView::Inbound(m)) => if m.kind.relayed() {
                (Stage::Relaying, ActionView::Forward(m))
            } else {
                (Stage::Relaying, ActionView::Receive)
            },
            (Stage::Relaying, EventView::EndOfStream) => (
                Stage::Closed(Ending::Graceful),
                ActionView::Finish,
            ),
            (Stage::Relaying, EventView::ReadFailed) => (
                Stage::Closed(Ending::ReadFailed),
                ActionView::Abort,
            ),
            (Stage::Relaying, EventView::WriteFailed) => (
                Stage::Closed(Ending::WriteFailed),
                ActionView::Abort,
            ),
            _ => (self, self.awaited()),
        }
    }

    /// The stage of a connection that was just accepted.
    pub fn start() -> (s: Stage)
        ensures
            s == Stage::Handshaking,
    {
        Stage::Handshaking
    }

    /// Whether the connection is over.
    pub fn is_closed(self) -> (r: bool)
        ensures
            r == self.closed(),
    {
        match self {
            Stage::Closed(_) => true,
            _ => false,
        }
    }

    /// The action on whose outcome this stage waits; for a fresh
    /// connection, the first thing to do.
    pub fn pending(self) -> (a: Action)
        ensures
            a@ == self.awaited(),
    {
        match self {
            Stage::Handshaking => Action::Secure,
            Stage::Upgrading => Action::Upgrade,
            Stage::Relaying => Action::Receive,
            Stage::Closed(_) => Action::Halt,
        }
    }

    /// Takes one event and decides what follows.
    ///
    /// While relaying, a text or binary message is handed back for sending,
    /// unchanged; any other message is passed over. End of stream ends the
    /// connection gracefully, a failure ends it at once. An event that the
    /// stage does not wait for leaves the stage as it is.
    pub fn step(self, event: Event) -> (r: (Stage, Action))
        ensures
            r.0 == self.next(event@).0,
            r.1@ == self.next(event@).1,
    {
        match self {
            Stage::Handshaking => match event {
                Event::Secured => (Stage::Upgrading, Action::Upgrade),
                Event::HandshakeFailed => (Stage::Closed(Ending::HandshakeFailed), Action::Abort),
                _ => (self, Action::Secure),
            },
            Stage::Upgrading => match event {
                Event::Upgraded => (Stage::Relaying, Action::Receive),
                Event::UpgradeFailed => (Stage::Closed(Ending::UpgradeFailed), Action::Abort),
                _ => (self, Action::Upgrade),
            },
            Stage::Relaying => match event {
                Event::Inbound(message) => if message.is_relayed() {
                    (Stage::Relaying, Action::Forward(message))
                } else {
                    (Stage::Relaying, Action::Receive)
                },
                Event::EndOfStream => (Stage::Closed(Ending::Graceful), Action::Finish),
                Event::ReadFailed => (Stage::Closed(Ending::ReadFailed), Action::Abort),
                Event::WriteFailed => (Stage::Closed(Ending::WriteFailed), Action::Abort),
                _ => (self, Action::Receive),
            },
            Stage::Closed(_) => (self, Action::Halt),
        }
    }
}

/// An event that the stage does not wait for changes nothing: the stage
/// stays, and the answer is the action that is still awaited. An event that
/// it does wait for moves the connection forward, unless it is a message,
/// which leaves the relay as it is.
pub proof fn only_awaited_events_count(stage: Stage, event: EventView)
    ensures
        !stage.awaits(event) ==> stage.next(event) == (stage, stage.awaited()),
        stage.awaits(event) && !(event is Inbound) ==> stage.rank() < stage.next(event).0.rank(),
        stage.awaits(event) && event is Inbound ==> stage.next(event).0 == stage,
{
}

} // verus!
