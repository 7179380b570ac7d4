//! The endpoint as a whole: start-up and the accept loop.
//!
//! The supervisor builds the server identity first, opens the listening
//! socket second, and then accepts connections for as long as the socket
//! lasts. Each accepted connection is handed to a pipeline of its own
//! (see [`crate::connection`]); what becomes of it is never reported back
//! here, so no connection can stop the supervisor or another connection.
//!
//! Like a connection, the supervisor is driven from outside: the driver
//! performs a [`Command`], reports a [`Signal`], and [`Phase::step`] answers.

use vstd::prelude::*;

verus! {

/// Why the endpoint stopped.
#[derive(Clone, Copy, Debug, PartialEq, Eq, Structural)]
pub enum StopReason {
    /// No server identity could be made of the credential bundle and its
    /// secret.
    IdentityRejected,
    /// The listening address could not be bound.
    BindFailed,
    /// The listening socket failed while accepting.
    ListenerFailed,
}

/// Where the endpoint stands.
#[derive(Clone, Copy, Debug, PartialEq, Eq, Structural)]
pub enum Phase {
    /// Nothing is open; the server identity is being built.
    Starting,
    /// The identity is ready; the listening address is being bound.
    Binding,
    /// The socket is open and connections are accepted.
    Listening,
    /// The endpoint has stopped for good.
    Stopped(StopReason),
}

/// What the driver reports.
#[derive(Clone, Copy, Debug, PartialEq, Eq, Structural)]
pub enum Signal {
    /// The server identity is built.
    IdentityReady,
    /// The credential bundle or its secret was refused.
    IdentityRejected,
    /// The listening socket is open.
    Bound,
    /// The listening address could not be bound.
    BindFailed,
    /// A raw connection was accepted.
    Accepted,
    /// Accepting failed.
    AcceptFailed,
}

/// What the driver is to do next.
#[derive(Clone, Copy, Debug, PartialEq, Eq, Structural)]
pub enum Command {
    /// Build the server identity from the credential bundle and its secret.
    LoadIdentity,
    /// Open the listening socket.
    Bind,
    /// Wait for the next raw connection.
    Accept,
    /// Start a pipeline of its own for the connection just accepted,
    /// without waiting for it, then wait for the next raw connection.
    Spawn,
    /// Stop the process.
    Exit,
}

impl Command {
    /// Whether the command needs the listening socket: to open it or to
    /// take a connection from it.
    pub open spec fn uses_listener(self) -> bool {
        self is Bind || self is Accept || self is Spawn
    }
}

impl StopReason {
    /// Whether the process leaves with a failure status. It does when
    /// start-up was aborted, before any connection was accepted.
    pub open spec fn fails(self) -> bool {
        self is IdentityRejected || self is BindFailed
    }

    /// Whether the process is to leave with a failure status.
    pub fn exits_with_failure(self) -> (r: bool)
        ensures
            r == self.fails(),
    {
        match self {
            StopReason::IdentityRejected | StopReason::BindFailed => true,
            StopReason::ListenerFailed => false,
        }
    }
}

impl Phase {
    /// The command on whose outcome the phase waits.
    pub open spec fn awaited(self) -> Command {
        match self {
            Phase::Starting => Command::LoadIdentity,
            Phase::Binding => Command::Bind,
            Phase::Listening => Command::Accept,
            Phase::Stopped(_) => Command::Exit,
        }
    }

    /// The transition function: the phase and the command that follow
    /// `signal` in phase `self`. A signal that the phase does not wait for
    /// changes nothing.
    pub open spec fn next(self, signal: Signal) -> (Phase, Command) {
        match (self, signal) {
            (Phase::Starting, Signal::IdentityReady) => (Phase::Binding, Command::Bind),
            (Phase::Starting, Signal::IdentityRejected) => (
                Phase::Stopped(StopReason::IdentityRejected),
                Command::Exit,
            ),
            (Phase::Binding, Signal::Bound) => (Phase::Listening, Command::Accept),
            (Phase::Binding, Signal::BindFailed) => (
                Phase::Stopped(StopReason::BindFailed),
                Command::Exit,
            ),
            (Phase::Listening, Signal::Accepted) => (Phase::Listening, Command::Spawn),
            (Phase::Listening, Signal::AcceptFailed) => (
                Phase::Stopped(StopReason::ListenerFailed),
                Command::Exit,
            ),
            _ => (self, self.awaited()),
        }
    }

    /// The phase of an endpoint that has done nothing yet.
    pub fn start() -> (p: Phase)
        ensures
            p == Phase::Starting,
    {
        Phase::Starting
    }

    /// Whether the endpoint has stopped.
    pub fn is_stopped(self) -> (r: bool)
        ensures
            r == (self is Stopped),
    {
        match self {
            Phase::Stopped(_) => true,
            _ => false,
        }
    }

    /// The command on whose outcome this phase waits; for a fresh endpoint,
    /// the first thing to do.
    pub fn pending(self) -> (c: Command)
        ensures
            c == self.awaited(),
    {
        match self {
            Phase::Starting => Command::LoadIdentity,
            Phase::Binding => Command::Bind,
            Phase::Listening => Command::Accept,
            Phase::Stopped(_) => Command::Exit,
        }
    }

    /// Takes one signal and decides what follows.
    ///
    /// The socket is opened only once the identity is ready, and
    /// connections are accepted only once the socket is open. A failure
    /// of either step, or of the socket later on, stops the endpoint for
    /// good. Every accepted connection is spawned, and the endpoint goes
    /// on listening.
    pub fn step(self, signal: Signal) -> (r: (Phase, Command))
        ensures
            r == self.next(signal),
    {
        match self {
            Phase::Starting => match signal {
                Signal::IdentityReady => (Phase::Binding, Command::Bind),
                Signal::IdentityRejected => (
                    Phase::Stopped(StopReason::IdentityRejected),
                    Command::Exit,
                ),
                _ => (self, Command::LoadIdentity),
            },
            Phase::Binding => match signal {
                Signal::Bound => (Phase::Listening, Command::Accept),
                Signal::BindFailed => (Phase::Stopped(StopReason::BindFailed), Command::Exit),
                _ => (self, Command::Bind),
            },
            Phase::Listening => match signal {
                Signal::Accepted => (Phase::Listening, Command::Spawn),
                Signal::AcceptFailed => (
                    Phase::Stopped(StopReason::ListenerFailed),
                    Command::Exit,
                ),
                _ => (self, Command::Accept),
            },
            Phase::Stopped(_) => (self, Command::Exit),
        }
    }
}

/// The phase that an endpoint in `phase` has reached once it has taken
/// `signals`, one after the other.
pub open spec fn phase_after(phase: Phase, signals: Seq<Signal>) -> Phase
    decreases signals.len(),
{
    if signals.len() == 0 {
        phase
    } else {
        phase_after(phase, signals.drop_last()).next(signals.last()).0
    }
}

/// The commands that an endpoint in `phase` gives while it takes
/// `signals`: one for each signal, in order.
pub open spec fn commands(phase: Phase, signals: Seq<Signal>) -> Seq<Command>
    decreases signals.len(),
{
    if signals.len() == 0 {
        Seq::empty()
    } else {
        commands(phase, signals.drop_last()).push(
            phase_after(phase, signals.drop_last()).next(signals.last()).1,
        )
    }
}

/// Each signal is answered by one command.
pub proof fn one_command_per_signal(phase: Phase, signals: Seq<Signal>)
    ensures
        commands(phase, signals).len() == signals.len(),
    decreases signals.len(),
{
    if signals.len() > 0 {
        one_command_per_signal(phase, signals.drop_last());
    }
}

/// An endpoint that has stopped stays stopped: whatever is reported to it,
/// it tells the driver to leave, and never to open or use a socket.
pub proof fn stopped_stays_stopped(reason: StopReason, signals: Seq<Signal>)
    ensures
        phase_after(Phase::Stopped(reason), signals) == Phase::Stopped(reason),
        commands(Phase::Stopped(reason), signals).len() == signals.len(),
        forall|i: int|
            0 <= i < signals.len() ==> #[trigger] commands(Phase::Stopped(reason), signals)[i]
                == Command::Exit,
    decreases signals.len(),
{
    if signals.len() > 0 {
        stopped_stays_stopped(reason, signals.drop_last());
    }
}

/// The listening socket is opened only after the identity is ready: until
/// that is reported, no command opens the socket or takes a connection
/// from it, whatever else is reported.
pub proof fn no_listener_without_identity(signals: Seq<Signal>)
    requires
        !signals.contains(Signal::IdentityReady),
    ensures
        phase_after(Phase::Starting, signals) == Phase::Starting || phase_after(
            Phase::Starting,
            signals,
        ) == Phase::Stopped(StopReason::IdentityRejected),
        commands(Phase::Starting, signals).len() == signals.len(),
        forall|i: int|
            0 <= i < signals.len() ==> !(#[trigger] commands(
                Phase::Starting,
                signals,
            )[i]).uses_listener(),
    decreases signals.len(),
{
    if signals.len() > 0 {
        let before = signals.drop_last();
        assert forall|j: int| 0 <= j < before.len() implies before[j]
            != Signal::IdentityReady by {
            assert(signals[j] == before[j]);
            assert(signals.contains(signals[j]));
        }
        no_listener_without_identity(before);
        assert(signals.contains(signals.last()));
    }
}

/// A credential bundle that is refused stops the endpoint before the
/// listening socket is opened: the endpoint is stopped for that reason,
/// leaves with a failure status, and every command from then on is to
/// leave.
pub proof fn rejected_identity_opens_no_listener(rest: Seq<Signal>)
    ensures
        phase_after(Phase::Starting, seq![Signal::IdentityRejected] + rest) == Phase::Stopped(
            StopReason::IdentityRejected,
        ),
        StopReason::IdentityRejected.fails(),
        commands(Phase::Starting, seq![Signal::IdentityRejected] + rest).len() == 1 + rest.len(),
        forall|i: int|
            0 <= i < 1 + rest.len() ==> #[trigger] commands(
                Phase::Starting,
                seq![Signal::IdentityRejected] + rest,
            )[i] == Command::Exit,
    decreases rest.len(),
{
    let first = seq![Signal::IdentityRejected];
    if rest.len() == 0 {
        assert(first + rest == first);
        assert(first.drop_last() == Seq::<Signal>::empty());
        assert(phase_after(Phase::Starting, first.drop_last()) == Phase::Starting);
        assert(commands(Phase::Starting, first.drop_last()) == Seq::<Command>::empty());
    } else {
        rejected_identity_opens_no_listener(rest.drop_last());
        assert((first + rest).drop_last() == first + rest.drop_last());
        assert((first + rest).last() == rest.last());
    }
}

/// While it listens, the endpoint starts one pipeline for each accepted
/// connection, and none otherwise; and only a failure of the listening
/// socket ends the listening. As long as none is reported the endpoint
/// listens, however many connections there are and whatever else is
/// reported.
pub proof fn listening_spawns_every_accepted_connection(signals: Seq<Signal>)
    requires
        !signals.contains(Signal::AcceptFailed),
    ensures
        phase_after(Phase::Listening, signals) == Phase::Listening,
        commands(Phase::Listening, signals).len() == signals.len(),
        forall|i: int|
            0 <= i < signals.len() && signals[i] == Signal::Accepted ==> #[trigger] commands(
                Phase::Listening,
                signals,
            )[i] == Command::Spawn,
        forall|i: int|
            0 <= i < signals.len() && signals[i] != Signal::Accepted ==> #[trigger] commands(
                Phase::Listening,
                signals,
            )[i] == Command::Accept,
    decreases signals.len(),
{
    if signals.len() > 0 {
        let before = signals.drop_last();
        assert forall|j: int| 0 <= j < before.len() implies before[j]
            != Signal::AcceptFailed by {
            assert(signals[j] == before[j]);
            assert(signals.contains(signals[j]));
        }
        listening_spawns_every_accepted_connection(before);
        assert(signals.contains(signals.last()));
    }
}

/// A failure of the listening socket stops the endpoint for good: there is
/// no restart, and every command from then on is to leave.
pub proof fn listener_failure_is_final(rest: Seq<Signal>)
    ensures
        phase_after(Phase::Listening, seq![Signal::AcceptFailed] + rest) == Phase::Stopped(
            StopReason::ListenerFailed,
        ),
        commands(Phase::Listening, seq![Signal::AcceptFailed] + rest).len() == 1 + rest.len(),
        forall|i: int|
            0 <= i < 1 + rest.len() ==> #[trigger] commands(
                Phase::Listening,
                seq![Signal::AcceptFailed] + rest,
            )[i] == Command::Exit,
    decreases rest.len(),
{
    let first = seq![Signal::AcceptFailed];
    if rest.len() == 0 {
        assert(first + rest == first);
        assert(first.drop_last() == Seq::<Signal>::empty());
        assert(phase_after(Phase::Listening, first.drop_last()) == Phase::Listening);
        assert(commands(Phase::Listening, first.drop_last()) == Seq::<Command>::empty());
    } else {
        listener_failure_is_final(rest.drop_last());
        assert((first + rest).drop_last() == first + rest.drop_last());
        assert((first + rest).last() == rest.last());
    }
}

} // verus!
