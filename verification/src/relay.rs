//! The control logic of the relay: the pump decisions, the connect-mode and
//! listen-mode state machines, and the exit status owed for each outcome.
//! The surrounding runtime performs the actions these functions choose and
//! feeds the resulting events back in.

use vstd::prelude::*;

verus! {

// ---------------------------------------------------------------------------
// Stream pump
// ---------------------------------------------------------------------------

/// What one read attempt of a pump's source yielded.
#[derive(Clone, Copy, Debug, PartialEq, Eq)]
pub enum PumpEvent {
    /// A read returned this many bytes; zero means end-of-stream.
    Read(usize),
    /// The source failed.
    ReadFailed,
    /// The sink failed.
    WriteFailed,
    /// The surrounding scope was cancelled.
    Cancelled,
}

/// What the pump does next.
#[derive(Clone, Copy, Debug, PartialEq, Eq)]
pub enum PumpStep {
    /// Forward the bytes just read and keep pumping.
    Forward,
    /// Stop: the source ended; the copy succeeded.
    DoneEof,
    /// Stop: an I/O failure ended the copy.
    DoneFailed,
    /// Stop: cancelled from outside.
    DoneCancelled,
}

/// One decision of a byte pump: forward every non-empty read, succeed on
/// end-of-stream, stop on failure or cancellation.
pub fn pump_step(ev: &PumpEvent) -> (r: PumpStep)
    ensures
        r == match ev {
            PumpEvent::Read(n) => if *n == 0 {
                PumpStep::DoneEof
            } else {
                PumpStep::Forward
            },
            PumpEvent::ReadFailed => PumpStep::DoneFailed,
            PumpEvent::WriteFailed => PumpStep::DoneFailed,
            PumpEvent::Cancelled => PumpStep::DoneCancelled,
        },
{
    match ev {
        PumpEvent::Read(n) => {
            if *n == 0 {
                PumpStep::DoneEof
            } else {
                PumpStep::Forward
            }
        },
        PumpEvent::ReadFailed => PumpStep::DoneFailed,
        PumpEvent::WriteFailed => PumpStep::DoneFailed,
        PumpEvent::Cancelled => PumpStep::DoneCancelled,
    }
}

/// Whether the standard-input producer keeps running: it stops only at
/// end-of-stream.  A publish that finds no subscribers merely drops the
/// chunk — the feed must survive for clients that connect later — and
/// cancellation stops the task through its scope, not through this
/// decision.
pub fn stdin_pump_continues(n_read: usize) -> (r: bool)
    ensures
        r == (n_read > 0),
{
    n_read > 0
}

/// What a session's writer pump does with one bus poll outcome: forward
/// chunks, resume silently after a lag, wait while the bus is quiet, and
/// stop only when the producer is done.
#[derive(Clone, Copy, Debug, PartialEq, Eq)]
pub enum WriterStep {
    Forward,
    Resume,
    Wait,
    Stop,
}

/// Maps a bus poll outcome to the writer pump's next move.  Falling behind
/// is not fatal; only a closed bus ends the loop.
pub fn writer_step(got_chunk: bool, lagged: bool, closed: bool) -> (r: WriterStep)
    requires
        got_chunk ==> !lagged && !closed,
        lagged ==> !closed,
    ensures
        r == if got_chunk {
            WriterStep::Forward
        } else if lagged {
            WriterStep::Resume
        } else if closed {
            WriterStep::Stop
        } else {
            WriterStep::Wait
        },
{
    if got_chunk {
        WriterStep::Forward
    } else if lagged {
        WriterStep::Resume
    } else if closed {
        WriterStep::Stop
    } else {
        WriterStep::Wait
    }
}

// ---------------------------------------------------------------------------
// Connect mode
// ---------------------------------------------------------------------------

/// The connect-mode session states.
#[derive(Clone, Copy, Debug, PartialEq, Eq)]
pub enum ConnectorState {
    /// Dialing the resolved endpoint.
    Dialing,
    /// Both pumps are running.
    Active,
    /// The inbound pump ended; the outbound pump is being cancelled.
    Closing,
    /// Both pumps have stopped.
    Terminated,
}

/// What happened to the connect-mode session.
#[derive(Clone, Copy, Debug, PartialEq, Eq)]
pub enum ConnectorEvent {
    /// The dial succeeded.
    DialOk,
    /// The dial failed.
    DialFailed,
    /// The inbound (socket to stdout) pump ended, by end-of-stream or
    /// failure.
    InboundEnded,
    /// Every remaining pump has stopped.
    PumpsStopped,
}

/// What the runtime must do after a connect-mode step.
#[derive(Clone, Copy, Debug, PartialEq, Eq)]
pub enum ConnectorAction {
    /// Split the connection and start the outbound and inbound pumps.
    StartPumps,
    /// Report the dial failure and exit with a host-unreachable status.
    ReportHostUnreachable,
    /// Cancel the session scope so the outbound pump stops.
    CancelScope,
    /// Nothing to do.
    Done,
}

pub open spec fn spec_connector_step(s: ConnectorState, ev: ConnectorEvent) -> (
    ConnectorState,
    ConnectorAction,
) {
    match (s, ev) {
        (ConnectorState::Dialing, ConnectorEvent::DialOk) => (
            ConnectorState::Active,
            ConnectorAction::StartPumps,
        ),
        (ConnectorState::Dialing, ConnectorEvent::DialFailed) => (
            ConnectorState::Terminated,
            ConnectorAction::ReportHostUnreachable,
        ),
        (ConnectorState::Active, ConnectorEvent::InboundEnded) => (
            ConnectorState::Closing,
            ConnectorAction::CancelScope,
        ),
        (ConnectorState::Closing, ConnectorEvent::PumpsStopped) => (
            ConnectorState::Terminated,
            ConnectorAction::Done,
        ),
        _ => (s, ConnectorAction::Done),
    }
}

/// One step of the connect-mode state machine: dialing either starts the
/// pumps or terminates the run; the moment the inbound pump ends, the scope
/// is cancelled so the outbound pump cannot linger; once terminated,
/// nothing happens any more.
pub fn connector_step(s: ConnectorState, ev: ConnectorEvent) -> (r: (
    ConnectorState,
    ConnectorAction,
))
    ensures
        r == spec_connector_step(s, ev),
{
    match (s, ev) {
        (ConnectorState::Dialing, ConnectorEvent::DialOk) => (
            ConnectorState::Active,
            ConnectorAction::StartPumps,
        ),
        (ConnectorState::Dialing, ConnectorEvent::DialFailed) => (
            ConnectorState::Terminated,
            ConnectorAction::ReportHostUnreachable,
        ),
        (ConnectorState::Active, ConnectorEvent::InboundEnded) => (
            ConnectorState::Closing,
            ConnectorAction::CancelScope,
        ),
        (ConnectorState::Closing, ConnectorEvent::PumpsStopped) => (
            ConnectorState::Terminated,
            ConnectorAction::Done,
        ),
        (s, _) => (s, ConnectorAction::Done),
    }
}

// ---------------------------------------------------------------------------
// Listen mode
// ---------------------------------------------------------------------------

/// The listener policy: serve one client, or keep accepting.
#[derive(Clone, Copy, Debug, PartialEq, Eq)]
pub enum Policy {
    SingleServing,
    MultiServing,
}

/// The listen-mode states.
#[derive(Clone, Copy, Debug, PartialEq, Eq)]
pub enum ListenerState {
    /// Binding the resolved endpoint.
    Binding,
    /// Accepting connections.
    Accepting,
    /// The listener is done.
    Terminated,
}

/// What happened to the listener.
#[derive(Clone, Copy, Debug, PartialEq, Eq)]
pub enum ListenerEvent {
    /// The bind succeeded.
    BindOk,
    /// The bind failed.
    BindFailed,
    /// A connection was accepted.
    Accepted,
    /// An accept attempt failed.
    AcceptFailed,
    /// A session's inbound (socket to stdout) pump ended.
    SessionEnded,
}

/// What the runtime must do after a listen-mode step.
#[derive(Clone, Copy, Debug, PartialEq, Eq)]
pub enum ListenerAction {
    /// Start the standard-input producer and begin accepting.
    StartInputAndAccept,
    /// Report the bind failure and exit with a host-unreachable status.
    ReportHostUnreachable,
    /// Subscribe the session to the bus, start its pumps, and keep
    /// accepting.
    ServeSession,
    /// Drop the failed session and keep accepting.
    DiscardSession,
    /// Release the finished session's resources and keep accepting.
    TeardownSession,
    /// Cancel the listener scope, stopping the producer and every session
    /// pump.
    CancelScope,
    /// Nothing to do.
    Done,
}

pub open spec fn spec_listener_step(policy: Policy, s: ListenerState, ev: ListenerEvent) -> (
    ListenerState,
    ListenerAction,
) {
    match (s, ev) {
        (ListenerState::Binding, ListenerEvent::BindOk) => (
            ListenerState::Accepting,
            ListenerAction::StartInputAndAccept,
        ),
        (ListenerState::Binding, ListenerEvent::BindFailed) => (
            ListenerState::Terminated,
            ListenerAction::ReportHostUnreachable,
        ),
        (ListenerState::Accepting, ListenerEvent::Accepted) => (
            ListenerState::Accepting,
            ListenerAction::ServeSession,
        ),
        (ListenerState::Accepting, ListenerEvent::AcceptFailed) => (
            ListenerState::Accepting,
            ListenerAction::DiscardSession,
        ),
        (ListenerState::Accepting, ListenerEvent::SessionEnded) => match policy {
            Policy::SingleServing => (ListenerState::Terminated, ListenerAction::CancelScope),
            Policy::MultiServing => (ListenerState::Accepting, ListenerAction::TeardownSession),
        },
        _ => (s, ListenerAction::Done),
    }
}

/// One step of the listen-mode state machine.  An accept failure discards
/// only that session and never aborts the listener.  When a session ends,
/// the single-serving listener cancels everything and terminates, while the
/// multi-serving listener tears down only that session and keeps accepting.
pub fn listener_step(policy: Policy, s: ListenerState, ev: ListenerEvent) -> (r: (
    ListenerState,
    ListenerAction,
))
    ensures
        r == spec_listener_step(policy, s, ev),
{
    match (s, ev) {
        (ListenerState::Binding, ListenerEvent::BindOk) => (
            ListenerState::Accepting,
            ListenerAction::StartInputAndAccept,
        ),
        (ListenerState::Binding, ListenerEvent::BindFailed) => (
            ListenerState::Terminated,
            ListenerAction::ReportHostUnreachable,
        ),
        (ListenerState::Accepting, ListenerEvent::Accepted) => (
            ListenerState::Accepting,
            ListenerAction::ServeSession,
        ),
        (ListenerState::Accepting, ListenerEvent::AcceptFailed) => (
            ListenerState::Accepting,
            ListenerAction::DiscardSession,
        ),
        (ListenerState::Accepting, ListenerEvent::SessionEnded) => match policy {
            Policy::SingleServing => (ListenerState::Terminated, ListenerAction::CancelScope),
            Policy::MultiServing => (ListenerState::Accepting, ListenerAction::TeardownSession),
        },
        (s, _) => (s, ListenerAction::Done),
    }
}

/// The listener state after a whole sequence of events.
pub open spec fn spec_listener_run(policy: Policy, s: ListenerState, evs: Seq<ListenerEvent>)
    -> ListenerState
    decreases evs.len(),
{
    if evs.len() == 0 {
        s
    } else {
        spec_listener_run(policy, spec_listener_step(policy, s, evs[0]).0, evs.drop_first())
    }
}

/// The single-serving law: the moment one session's inbound direction ends,
/// the listener cancels its scope and terminates, and no later event of any
/// kind makes it accept or serve again — every further step leaves the
/// state `Terminated` and demands nothing.
pub proof fn lemma_single_serving_stops(s: ListenerState, evs: Seq<ListenerEvent>)
    requires
        s == ListenerState::Accepting,
    ensures
        spec_listener_step(Policy::SingleServing, s, ListenerEvent::SessionEnded) == (
            ListenerState::Terminated,
            ListenerAction::CancelScope,
        ),
        spec_listener_run(
            Policy::SingleServing,
            spec_listener_step(Policy::SingleServing, s, ListenerEvent::SessionEnded).0,
            evs,
        ) == ListenerState::Terminated,
        forall|ev: ListenerEvent|
            #[trigger] spec_listener_step(Policy::SingleServing, ListenerState::Terminated, ev)
                == (ListenerState::Terminated, ListenerAction::Done),
{
    lemma_terminated_absorbing(Policy::SingleServing, evs);
}

/// A terminated listener stays terminated under every event sequence.
pub proof fn lemma_terminated_absorbing(policy: Policy, evs: Seq<ListenerEvent>)
    ensures
        spec_listener_run(policy, ListenerState::Terminated, evs) == ListenerState::Terminated,
    decreases evs.len(),
{
    if evs.len() > 0 {
        lemma_terminated_absorbing(policy, evs.drop_first());
    }
}

/// The multi-serving law: once accepting, the keep-open listener accepts
/// forever — no sequence of accepts, accept failures or session endings
/// makes it leave the accepting state on its own.
pub proof fn lemma_multi_serving_keeps_accepting(evs: Seq<ListenerEvent>)
    ensures
        spec_listener_run(Policy::MultiServing, ListenerState::Accepting, evs)
            == ListenerState::Accepting,
    decreases evs.len(),
{
    if evs.len() > 0 {
        lemma_multi_serving_keeps_accepting(evs.drop_first());
    }
}

// ---------------------------------------------------------------------------
// Exit status
// ---------------------------------------------------------------------------

/// How a whole run ended.
#[derive(Clone, Copy, Debug, PartialEq, Eq)]
pub enum RunOutcome {
    /// The relay ran and shut down in an orderly way.
    Completed,
    /// Endpoint resolution failed before any I/O.
    ResolutionFailed,
    /// The dial or bind failed.
    ConnectionFailed,
}

/// What the process reports when it exits.
#[derive(Clone, Copy, Debug, PartialEq, Eq)]
pub enum ExitStatus {
    Success,
    UsageError,
    HostUnreachable,
}

/// The exit status owed for each outcome: resolution failures are usage
/// errors, dial and bind failures are host-unreachable, everything else is
/// success.
pub fn exit_status_for(outcome: &RunOutcome) -> (r: ExitStatus)
    ensures
        r == match outcome {
            RunOutcome::Completed => ExitStatus::Success,
            RunOutcome::ResolutionFailed => ExitStatus::UsageError,
            RunOutcome::ConnectionFailed => ExitStatus::HostUnreachable,
        },
{
    match outcome {
        RunOutcome::Completed => ExitStatus::Success,
        RunOutcome::ResolutionFailed => ExitStatus::UsageError,
        RunOutcome::ConnectionFailed => ExitStatus::HostUnreachable,
    }
}

} // verus!
