//! Framed messages and the policy that decides which of them are relayed.

use vstd::prelude::*;

verus! {

/// The type tag of a framed message.
#[derive(Clone, Copy, Debug, PartialEq, Eq, Structural)]
pub enum MessageKind {
    Text,
    Binary,
    Ping,
    Pong,
    Close,
}

impl MessageKind {
    /// The relay policy: text and binary messages carry data and are sent
    /// back; ping, pong and close belong to the framing layer.
    pub open spec fn relayed(self) -> bool {
        self is Text || self is Binary
    }

    /// Whether a message of this kind is sent back to its sender.
    pub fn is_relayed(self) -> (r: bool)
        ensures
            r == self.relayed(),
    {
        match self {
            MessageKind::Text | MessageKind::Binary => true,
            _ => false,
        }
    }
}

/// One framed message: a type tag and the bytes it carries.
#[derive(Debug, PartialEq, Eq)]
pub struct Message {
    pub kind: MessageKind,
    pub payload: Vec<u8>,
}

/// What a message is, as a value: its tag and its bytes in order.
pub struct MessageView {
    pub kind: MessageKind,
    pub payload: Seq<u8>,
}

impl View for Message {
    type V = MessageView;

    open spec fn view(&self) -> MessageView {
        MessageView { kind: self.kind, payload: self.payload@ }
    }
}

impl Message {
    /// A message of the given kind that carries `payload`.
    pub fn new(kind: MessageKind, payload: Vec<u8>) -> (m: Message)
        ensures
            m@ == (MessageView { kind, payload: payload@ }),
    {
        Message { kind, payload }
    }

    /// Whether this is a text message.
    pub fn is_text(&self) -> (r: bool)
        ensures
            r == (self@.kind is Text),
    {
        match self.kind {
            MessageKind::Text => true,
            _ => false,
        }
    }

    /// Whether this is a binary message.
    pub fn is_binary(&self) -> (r: bool)
        ensures
            r == (self@.kind is Binary),
    {
        match self.kind {
            MessageKind::Binary => true,
            _ => false,
        }
    }

    /// Whether the relay sends this message back: it does so exactly for
    /// text and binary messages.
    pub fn is_relayed(&self) -> (r: bool)
        ensures
            r == self@.kind.relayed(),
    {
        self.is_text() || self.is_binary()
    }
}

impl Clone for Message {
    /// A copy with the same tag and the same bytes.
    fn clone(&self) -> (m: Message)
        ensures
            m@ == self@,
    {
        let payload = self.payload.clone();
        assert(payload@ =~= self.payload@);
        Message { kind: self.kind, payload }
    }
}

} // verus!
