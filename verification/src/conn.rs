//! The connection manager's state machine: exponential backoff on
//! transport failure, fair multiplexing over the two server streams, and
//! retry-on-reconnect for one-shot commands. The machine decides; the
//! surrounding process performs the actual connects, waits and RPC calls
//! and feeds every outcome back in as an event.

use vstd::prelude::*;

verus! {

/// Wait added to the backoff after each failed connect attempt, and the
/// wait used after an established connection breaks.
pub const BASE_BACKOFF_MS: u64 = 500;

/// Hard ceiling on the backoff: no reconnect ever waits longer than this.
pub const MAX_BACKOFF_MS: u64 = 5000;

/// Scheme of the target address: a plain network endpoint, or a local
/// domain socket addressed by path.
#[derive(Clone, Copy, PartialEq, Eq, Structural, Debug)]
pub enum Scheme {
    Network,
    LocalSocket,
}

/// What the manager reads of the target's authority: local-socket targets
/// accept only an absent or `localhost` host.
#[derive(Clone, Copy, PartialEq, Eq, Structural, Debug)]
pub enum HostKind {
    Empty,
    Localhost,
    Other,
}

/// The endpoint the manager was built for; immutable for its lifetime.
#[derive(Clone, Copy, PartialEq, Eq, Structural, Debug)]
pub struct Target {
    pub scheme: Scheme,
    pub host: HostKind,
}

/// Exactly two connection states: a live channel with both server streams
/// open, or disconnected with the wait before the next attempt.
/// `backoff_ms == 0` means "never yet connected": the first attempt
/// proceeds immediately.
#[derive(Clone, Copy, PartialEq, Eq, Structural, Debug)]
pub enum ConnState {
    Connected,
    Disconnected { backoff_ms: u64 },
}

/// What the steady-state wait on the two streams produced: an item on one
/// of them, or a transport-level fault (an error or an end-of-stream) on
/// either. A fault on one stream condemns the whole connection, since both
/// streams ride the same channel.
#[derive(Clone, Copy, PartialEq, Eq, Structural, Debug)]
pub enum StreamEvent {
    UpdateReceived,
    StateReceived,
    UpdateFault,
    StateFault,
}

/// What the caller of `next_message` must do next.
#[derive(Clone, Copy, PartialEq, Eq, Structural, Debug)]
pub enum NextStep {
    /// Disconnected: wait the current backoff (if non-zero) and attempt a
    /// fresh connect, then report the outcome.
    Connect,
    /// Connected: wait fairly on both streams and feed the event back.
    AwaitStreams,
}

/// How a one-shot command attempt ended, as classified by the caller: a
/// connection-level fault (the channel itself broke) or an
/// application-level rejection by the server.
#[derive(Clone, Copy, PartialEq, Eq, Structural, Debug)]
pub enum CommandOutcome {
    Succeeded,
    ConnectionError,
    Rejected,
}

/// What the command loop must do next.
#[derive(Clone, Copy, PartialEq, Eq, Structural, Debug)]
pub enum CommandAction {
    /// Disconnected: reconnect first, then retry the command.
    Connect,
    /// Connected: attempt the command on the current client handle.
    Attempt,
    /// The command succeeded; surface the response.
    ReturnOk,
    /// The server rejected the command; surface the error without retrying.
    ReturnErr,
}

/// One-line status of the connection, a pure projection of the state.
#[derive(Clone, Copy, PartialEq, Eq, Structural, Debug)]
pub enum ConnStatus {
    Connected,
    Connecting,
    ReconnectingIn { backoff_ms: u64 },
}

/// The backoff after one more failed attempt: it grows by one base step,
/// capped at the ceiling.
pub open spec fn next_backoff_spec(b: u64) -> u64 {
    if b + BASE_BACKOFF_MS <= MAX_BACKOFF_MS {
        (b + BASE_BACKOFF_MS) as u64
    } else {
        MAX_BACKOFF_MS
    }
}

/// The backoff never retries tighter than it already waits, and never
/// exceeds the ceiling: one failure step is monotone and bounded.
pub proof fn lemma_backoff_step_monotone(b: u64)
    requires
        b <= MAX_BACKOFF_MS,
    ensures
        b <= next_backoff_spec(b),
        next_backoff_spec(b) <= MAX_BACKOFF_MS,
{
}

/// The backoff after `n` consecutive failed attempts, starting from `b0`.
pub open spec fn backoff_after_failures(b0: u64, n: nat) -> u64
    decreases n,
{
    if n == 0 {
        b0
    } else {
        next_backoff_spec(backoff_after_failures(b0, (n - 1) as nat))
    }
}

/// For every sequence of consecutive transport failures the backoff is
/// non-decreasing and bounded above by the ceiling.
pub proof fn lemma_backoff_monotone_bounded(b0: u64, n: nat)
    requires
        b0 <= MAX_BACKOFF_MS,
    ensures
        backoff_after_failures(b0, n) <= backoff_after_failures(b0, n + 1),
        backoff_after_failures(b0, n) <= MAX_BACKOFF_MS,
    decreases n,
{
    if n == 0 {
    } else {
        lemma_backoff_monotone_bounded(b0, (n - 1) as nat);
        assert(backoff_after_failures(b0, n + 1) == next_backoff_spec(
            backoff_after_failures(b0, n),
        ));
        lemma_backoff_step_monotone(backoff_after_failures(b0, n));
    }
}

/// The connection manager: the target it was built for, and the current
/// state of the reconnect state machine. The channel, the client handle
/// and the two stream handles live with the caller, which must hold them
/// exactly while the state is `Connected` and drop them on every
/// transition back to `Disconnected`.
pub struct Connection {
    target: Target,
    state: ConnState,
}

impl Connection {
    pub closed spec fn target_spec(&self) -> Target {
        self.target
    }

    pub closed spec fn state_spec(&self) -> ConnState {
        self.state
    }

    /// The machine never schedules a wait above the ceiling.
    pub open spec fn wf(&self) -> bool {
        match self.state_spec() {
            ConnState::Disconnected { backoff_ms } => backoff_ms <= MAX_BACKOFF_MS,
            ConnState::Connected => true,
        }
    }

    /// A new manager: never yet connected, so the first attempt waits
    /// nothing.
    pub fn new(target: Target) -> (c: Connection)
        ensures
            c.wf(),
            c.target_spec() == target,
            c.state_spec() == (ConnState::Disconnected { backoff_ms: 0u64 }),
    {
        Connection { target, state: ConnState::Disconnected { backoff_ms: 0 } }
    }

    pub fn target(&self) -> (t: Target)
        ensures
            t == self.target_spec(),
    {
        self.target
    }

    /// A local-socket target is acceptable only with an empty or
    /// `localhost` host; every network target is acceptable. An
    /// unacceptable target is a configuration error: the attempt fails at
    /// once instead of waiting on the transport.
    pub open spec fn target_ok_spec(t: Target) -> bool {
        t.scheme == Scheme::LocalSocket ==> (t.host == HostKind::Empty || t.host
            == HostKind::Localhost)
    }

    pub fn target_ok(&self) -> (r: bool)
        ensures
            r == Self::target_ok_spec(self.target_spec()),
    {
        match self.target.scheme {
            Scheme::LocalSocket => match self.target.host {
                HostKind::Empty => true,
                HostKind::Localhost => true,
                HostKind::Other => false,
            },
            Scheme::Network => true,
        }
    }

    /// What `next_message` does next: connect while disconnected, else
    /// wait on the streams. A fresh fault therefore leads straight to a
    /// new connect attempt.
    pub fn next_step(&self) -> (s: NextStep)
        ensures
            self.state_spec() is Disconnected <==> s == NextStep::Connect,
            self.state_spec() is Connected <==> s == NextStep::AwaitStreams,
    {
        match self.state {
            ConnState::Disconnected { .. } => NextStep::Connect,
            ConnState::Connected => NextStep::AwaitStreams,
        }
    }

    /// The wait owed before the next connect attempt: zero on a first
    /// attempt, the current backoff otherwise.
    pub fn backoff_wait_ms(&self) -> (w: u64)
        requires
            self.wf(),
            self.state_spec() is Disconnected,
        ensures
            w == self.state_spec()->Disconnected_backoff_ms,
            w <= MAX_BACKOFF_MS,
    {
        match self.state {
            ConnState::Disconnected { backoff_ms } => backoff_ms,
            ConnState::Connected => 0,
        }
    }

    /// Record the outcome of one connect attempt (the channel established
    /// and both streams opened, or any of the three failed). Success
    /// discards the backoff entirely; failure grows it by one base step,
    /// capped at the ceiling, so consecutive failures wait monotonically
    /// longer but never above the ceiling.
    pub fn on_connect_outcome(&mut self, ok: bool)
        requires
            old(self).wf(),
            old(self).state_spec() is Disconnected,
        ensures
            final(self).wf(),
            final(self).target_spec() == old(self).target_spec(),
            ok ==> final(self).state_spec() == ConnState::Connected,
            !ok ==> final(self).state_spec() == (ConnState::Disconnected {
                backoff_ms: next_backoff_spec(old(self).state_spec()->Disconnected_backoff_ms),
            }),
    {
        if ok {
            self.state = ConnState::Connected;
        } else {
            let b = match self.state {
                ConnState::Disconnected { backoff_ms } => backoff_ms,
                ConnState::Connected => 0,
            };
            let grown = if b + BASE_BACKOFF_MS <= MAX_BACKOFF_MS {
                b + BASE_BACKOFF_MS
            } else {
                MAX_BACKOFF_MS
            };
            self.state = ConnState::Disconnected { backoff_ms: grown };
        }
    }

    /// Record what the fair wait on the two streams produced. An item
    /// leaves the connection up and is emitted to the caller; a fault on
    /// either stream (error or end-of-stream) condemns the whole
    /// connection: both streams are abandoned and the next attempt waits
    /// one base step. `true` is returned exactly when the event carried an
    /// item for the caller.
    pub fn on_stream_event(&mut self, ev: StreamEvent) -> (emitted: bool)
        requires
            old(self).wf(),
            old(self).state_spec() is Connected,
        ensures
            final(self).wf(),
            final(self).target_spec() == old(self).target_spec(),
            emitted == (ev == StreamEvent::UpdateReceived || ev == StreamEvent::StateReceived),
            emitted ==> final(self).state_spec() == ConnState::Connected,
            !emitted ==> final(self).state_spec() == (ConnState::Disconnected {
                backoff_ms: BASE_BACKOFF_MS,
            }),
    {
        match ev {
            StreamEvent::UpdateReceived => true,
            StreamEvent::StateReceived => true,
            StreamEvent::UpdateFault | StreamEvent::StateFault => {
                self.state = ConnState::Disconnected { backoff_ms: BASE_BACKOFF_MS };
                false
            },
        }
    }

    /// What the command loop does next, before any attempt is made:
    /// reconnect first while disconnected, else attempt the command on the
    /// live handle.
    pub fn command_step(&self) -> (a: CommandAction)
        ensures
            self.state_spec() is Disconnected ==> a == CommandAction::Connect,
            self.state_spec() is Connected ==> a == CommandAction::Attempt,
    {
        match self.state {
            ConnState::Disconnected { .. } => CommandAction::Connect,
            ConnState::Connected => CommandAction::Attempt,
        }
    }

    /// Record how a command attempt ended. A success is surfaced; a
    /// connection-level fault condemns the connection (one base step of
    /// backoff) and asks the loop to reconnect and retry; an
    /// application-level rejection is surfaced at once, without touching
    /// the connection.
    pub fn on_command_outcome(&mut self, outcome: CommandOutcome) -> (a: CommandAction)
        requires
            old(self).wf(),
            old(self).state_spec() is Connected,
        ensures
            final(self).wf(),
            final(self).target_spec() == old(self).target_spec(),
            outcome == CommandOutcome::Succeeded ==> a == CommandAction::ReturnOk
                && final(self).state_spec() == ConnState::Connected,
            outcome == CommandOutcome::Rejected ==> a == CommandAction::ReturnErr
                && final(self).state_spec() == ConnState::Connected,
            outcome == CommandOutcome::ConnectionError ==> a == CommandAction::Connect
                && final(self).state_spec() == (ConnState::Disconnected {
                    backoff_ms: BASE_BACKOFF_MS,
                }),
    {
        match outcome {
            CommandOutcome::Succeeded => CommandAction::ReturnOk,
            CommandOutcome::Rejected => CommandAction::ReturnErr,
            CommandOutcome::ConnectionError => {
                self.state = ConnState::Disconnected { backoff_ms: BASE_BACKOFF_MS };
                CommandAction::Connect
            },
        }
    }

    /// The one-line status: connected, connecting (a first attempt, no
    /// backoff yet), or reconnecting after the current backoff. A pure
    /// projection of the state, with no side effect.
    pub fn render(&self) -> (s: ConnStatus)
        ensures
            self.state_spec() is Connected ==> s == ConnStatus::Connected,
            self.state_spec() matches ConnState::Disconnected { backoff_ms } ==> s == (if backoff_ms
                == 0 {
                ConnStatus::Connecting
            } else {
                ConnStatus::ReconnectingIn { backoff_ms }
            }),
    {
        match self.state {
            ConnState::Connected => ConnStatus::Connected,
            ConnState::Disconnected { backoff_ms } => {
                if backoff_ms == 0 {
                    ConnStatus::Connecting
                } else {
                    ConnStatus::ReconnectingIn { backoff_ms }
                }
            },
        }
    }
}

} // verus!
