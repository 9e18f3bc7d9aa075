//! The persistent TCP/TLS connection of one upstream: the shared connection
//! state, its transitions, and the decisions of each poll of a query.
//!
//! The sender `H` is the multiplexer's submission endpoint; its lifetime is
//! that of a background driver task.
use vstd::prelude::*;

verus! {

/// The connection of one upstream.
#[derive(Debug, PartialEq, Eq, Structural)]
pub enum ConnectionState<H> {
    NotConnected,
    /// A driver is handshaking; queries may already be submitted.
    Connecting(H),
    /// The handshake succeeded.
    Connected(H),
}

impl<H> ConnectionState<H> {
    /// Whether a driver (and its sender) is bound to the state.
    pub open spec fn is_live(&self) -> bool {
        !(*self is NotConnected)
    }

    /// The state of a new upstream.
    pub fn new() -> (r: Self)
        ensures
            r == ConnectionState::<H>::NotConnected,
    {
        ConnectionState::NotConnected
    }

    /// Whether no driver is bound, so that a query must connect first.
    pub fn is_not_connected(&self) -> (r: bool)
        ensures
            r == (*self is NotConnected),
    {
        match self {
            ConnectionState::NotConnected => true,
            _ => false,
        }
    }

    /// The sender to submit queries on, while connecting or connected.
    pub fn sender(&self) -> (r: Option<&H>)
        ensures
            match *self {
                ConnectionState::NotConnected => r is None,
                ConnectionState::Connecting(h) => r == Some(&h),
                ConnectionState::Connected(h) => r == Some(&h),
            },
    {
        match self {
            ConnectionState::NotConnected => None,
            ConnectionState::Connecting(h) => Some(h),
            ConnectionState::Connected(h) => Some(h),
        }
    }

    /// A query asks to connect, offering the sender of a new driver. Only
    /// when no driver is bound is it taken, and the caller must then spawn
    /// that driver; otherwise the existing connection is shared.
    pub fn connect(&mut self, sender: H) -> (spawn: bool)
        ensures
            (*final(self), spawn) == connect_step(*old(self), sender),
    {
        if self.is_not_connected() {
            *self = ConnectionState::Connecting(sender);
            true
        } else {
            false
        }
    }

    /// The driver's handshake succeeded: connecting becomes connected with
    /// the same sender; any other state is forced back to not connected.
    pub fn on_handshake(&mut self)
        ensures
            *final(self) == handshake_step(*old(self)),
    {
        let mut prev = ConnectionState::NotConnected;
        std::mem::swap(self, &mut prev);
        match prev {
            ConnectionState::Connecting(h) => {
                *self = ConnectionState::Connected(h);
            },
            _ => {},
        }
    }

    /// The driver ended (closed, failed or idle).
    pub fn on_driver_closed(&mut self)
        ensures
            *final(self) == ConnectionState::<H>::NotConnected,
    {
        *self = ConnectionState::NotConnected;
    }

    /// A query's deadline passed: the deadline is taken as evidence that
    /// the connection, established or still handshaking, is unhealthy, so
    /// the state is reset; a later query connects afresh.
    pub fn on_timeout(&mut self)
        ensures
            *final(self) == timeout_step(*old(self)),
    {
        *self = ConnectionState::NotConnected;
    }

    /// An awaited response failed: while connecting, the handshake is taken
    /// as lost and the state reset; while connected, other queries may still
    /// succeed, so the state stays.
    pub fn on_response_error(&mut self)
        ensures
            *final(self) == response_error_step(*old(self)),
    {
        match self {
            ConnectionState::Connecting(_) => {
                *self = ConnectionState::NotConnected;
            },
            _ => {},
        }
    }

    /// A submission failed at once: the connection is taken as dead.
    pub fn on_submit_error(&mut self)
        ensures
            *final(self) == ConnectionState::<H>::NotConnected,
    {
        *self = ConnectionState::NotConnected;
    }
}

/// A connect request: the new state, and whether a driver is spawned.
pub open spec fn connect_step<H>(s: ConnectionState<H>, sender: H) -> (ConnectionState<H>, bool) {
    match s {
        ConnectionState::NotConnected => (ConnectionState::Connecting(sender), true),
        _ => (s, false),
    }
}

/// The state after the driver's handshake.
pub open spec fn handshake_step<H>(s: ConnectionState<H>) -> ConnectionState<H> {
    match s {
        ConnectionState::Connecting(h) => ConnectionState::Connected(h),
        _ => ConnectionState::NotConnected,
    }
}

/// The state after a query's deadline.
pub open spec fn timeout_step<H>(s: ConnectionState<H>) -> ConnectionState<H> {
    ConnectionState::NotConnected
}

/// The state after an awaited response failed.
pub open spec fn response_error_step<H>(s: ConnectionState<H>) -> ConnectionState<H> {
    match s {
        ConnectionState::Connecting(_) => ConnectionState::NotConnected,
        _ => s,
    }
}

/// The state after a run of connect requests, and how many drivers they
/// spawned.
pub open spec fn connect_run<H>(s: ConnectionState<H>, senders: Seq<H>) -> (ConnectionState<H>, nat)
    decreases senders.len(),
{
    if senders.len() == 0 {
        (s, 0)
    } else {
        let (next, spawned) = connect_step(s, senders[0]);
        let (last, n) = connect_run(next, senders.skip(1));
        (last, n + if spawned { 1nat } else { 0nat })
    }
}

/// Connection singleton: a driver is spawned only when none is bound, and
/// the state then holds that driver's sender; so any run of connect
/// requests spawns at most one driver, none if one was bound, and every
/// request after the first shares its connection.
pub proof fn lemma_connection_singleton<H>(s: ConnectionState<H>, senders: Seq<H>)
    ensures
        connect_step(s, senders.first()).1 ==> s is NotConnected,
        connect_run(s, senders).1 <= 1,
        s.is_live() ==> connect_run(s, senders) == (s, 0nat),
        !s.is_live() && senders.len() > 0 ==> connect_run(s, senders) == (
            ConnectionState::Connecting(senders[0]),
            1nat,
        ),
    decreases senders.len(),
{
    if senders.len() > 0 {
        let next = connect_step(s, senders[0]).0;
        lemma_connection_singleton(next, senders.skip(1));
        lemma_live_run(next, senders.skip(1));
    }
}

proof fn lemma_live_run<H>(s: ConnectionState<H>, senders: Seq<H>)
    requires
        s.is_live(),
    ensures
        connect_run(s, senders) == (s, 0nat),
    decreases senders.len(),
{
    if senders.len() > 0 {
        lemma_live_run(s, senders.skip(1));
    }
}

/// Timeout safety: whatever the state at a query's deadline, the deadline
/// leaves it neither connecting nor connected.
pub proof fn lemma_timeout_safety<H>(s: ConnectionState<H>)
    ensures
        !(timeout_step(s) is Connecting),
        !(timeout_step(s) is Connected),
        timeout_step(s) is NotConnected,
{
}

/// How far a future has got.
#[derive(Clone, Copy, Debug, PartialEq, Eq, Structural)]
pub enum Progress {
    Ready,
    NotReady,
    Failed,
}

/// What a poll of a query found.
#[derive(Clone, Copy, Debug, PartialEq, Eq, Structural)]
pub enum PollInput {
    /// The query's deadline has passed.
    Deadline,
    /// The response already awaited is ready, not yet, or failed.
    Awaited(Progress),
    /// Nothing is awaited and the state holds no sender.
    NoSender,
    /// Nothing was awaited; the query was just submitted on the state's
    /// sender, and its first poll gave this.
    Submitted(Progress),
}

/// What the poll returns to its caller.
#[derive(Clone, Copy, Debug, PartialEq, Eq, Structural)]
pub enum PollOutcome {
    /// The response is ready.
    Ready,
    /// The query fails with a timeout.
    TimedOut,
    /// Not yet: poll again later.
    Pending,
}

/// The decisions of one poll of a query.
#[derive(Clone, Copy, Debug, PartialEq, Eq, Structural)]
pub struct PollStep {
    pub outcome: PollOutcome,
    /// Whether a response is awaited after this poll.
    pub awaiting: bool,
    /// Whether an awaited response is handed to the background, so that a
    /// late arrival is still consumed.
    pub detach: bool,
    /// Whether the caller must connect (see `ConnectionState::connect`).
    pub connect: bool,
    /// Whether the task must be woken to poll again at once.
    pub reschedule: bool,
}

/// Whether a poll input fits the query's phase and the state.
pub open spec fn poll_input_fits<H>(s: ConnectionState<H>, awaiting: bool, input: PollInput) -> bool {
    match input {
        PollInput::Deadline => true,
        PollInput::Awaited(_) => awaiting,
        PollInput::NoSender => !awaiting && s is NotConnected,
        PollInput::Submitted(_) => !awaiting && s.is_live(),
    }
}

/// A poll step with these fields.
pub open spec fn step_of(outcome: PollOutcome, awaiting: bool, detach: bool, connect: bool, reschedule: bool) -> PollStep {
    PollStep { outcome, awaiting, detach, connect, reschedule }
}

/// The decision on a poll input that no longer fits the phase or the
/// state (the state moved on since it was read): the state is kept, a
/// response at hand is returned, and otherwise the query is polled again.
pub open spec fn stale_step(input: PollInput) -> PollStep {
    if input == PollInput::Awaited(Progress::Ready) || input == PollInput::Submitted(Progress::Ready) {
        step_of(PollOutcome::Ready, false, false, false, false)
    } else {
        step_of(PollOutcome::Pending, false, false, false, true)
    }
}

/// One poll of a query: the new state and the decisions.
pub open spec fn poll_spec<H>(s: ConnectionState<H>, awaiting: bool, input: PollInput) -> (ConnectionState<H>, PollStep) {
    if !poll_input_fits(s, awaiting, input) {
        (s, stale_step(input))
    } else {
        match input {
            PollInput::Deadline => (timeout_step(s), step_of(PollOutcome::TimedOut, false, awaiting, false, false)),
            PollInput::Awaited(Progress::Ready) => (s, step_of(PollOutcome::Ready, false, false, false, false)),
            PollInput::Awaited(Progress::NotReady) => (s, step_of(PollOutcome::Pending, true, false, false, false)),
            PollInput::Awaited(Progress::Failed) => (response_error_step(s), step_of(PollOutcome::Pending, false, false, false, true)),
            PollInput::NoSender => (s, step_of(PollOutcome::Pending, false, false, true, true)),
            PollInput::Submitted(Progress::Ready) => (s, step_of(PollOutcome::Ready, false, false, false, false)),
            PollInput::Submitted(Progress::NotReady) => (s, step_of(PollOutcome::Pending, true, false, false, false)),
            PollInput::Submitted(Progress::Failed) => (ConnectionState::NotConnected, step_of(PollOutcome::Pending, false, false, false, true)),
        }
    }
}

/// Decides one poll of a query on the persistent connection, and applies
/// its transition to the shared state. A deadline fails the query and
/// resets the state; a failed awaited response is retried, and resets a
/// connecting state; a query with no sender asks to connect; a submission
/// that fails at once resets the state and is retried. An input that no
/// longer fits the state is retried without a transition.
pub fn poll_step<H>(state: &mut ConnectionState<H>, awaiting: bool, input: PollInput) -> (r: PollStep)
    ensures
        (*final(state), r) == poll_spec(*old(state), awaiting, input),
{
    let fits = match input {
        PollInput::Deadline => true,
        PollInput::Awaited(_) => awaiting,
        PollInput::NoSender => !awaiting && state.is_not_connected(),
        PollInput::Submitted(_) => !awaiting && !state.is_not_connected(),
    };
    if !fits {
        let ready = match input {
            PollInput::Awaited(Progress::Ready) | PollInput::Submitted(Progress::Ready) => true,
            _ => false,
        };
        return PollStep {
            outcome: if ready { PollOutcome::Ready } else { PollOutcome::Pending },
            awaiting: false,
            detach: false,
            connect: false,
            reschedule: !ready,
        };
    }
    match input {
        PollInput::Deadline => {
            state.on_timeout();
            PollStep { outcome: PollOutcome::TimedOut, awaiting: false, detach: awaiting, connect: false, reschedule: false }
        },
        PollInput::Awaited(Progress::Ready) | PollInput::Submitted(Progress::Ready) => {
            PollStep { outcome: PollOutcome::Ready, awaiting: false, detach: false, connect: false, reschedule: false }
        },
        PollInput::Awaited(Progress::NotReady) | PollInput::Submitted(Progress::NotReady) => {
            PollStep { outcome: PollOutcome::Pending, awaiting: true, detach: false, connect: false, reschedule: false }
        },
        PollInput::Awaited(Progress::Failed) => {
            state.on_response_error();
            PollStep { outcome: PollOutcome::Pending, awaiting: false, detach: false, connect: false, reschedule: true }
        },
        PollInput::NoSender => {
            PollStep { outcome: PollOutcome::Pending, awaiting: false, detach: false, connect: true, reschedule: true }
        },
        PollInput::Submitted(Progress::Failed) => {
            state.on_submit_error();
            PollStep { outcome: PollOutcome::Pending, awaiting: false, detach: false, connect: false, reschedule: true }
        },
    }
}

/// A query that times out fails with a timeout, detaches what it awaited,
/// and leaves the upstream's state neither connecting nor connected.
pub proof fn lemma_poll_timeout<H>(s: ConnectionState<H>, awaiting: bool)
    ensures
        poll_spec(s, awaiting, PollInput::Deadline).1.outcome == PollOutcome::TimedOut,
        poll_spec(s, awaiting, PollInput::Deadline).1.detach == awaiting,
        poll_spec(s, awaiting, PollInput::Deadline).0 is NotConnected,
{
}

} // verus!
