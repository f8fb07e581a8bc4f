use rnc::bus::{Bus, BusPoll};
use rnc::relay::{
    connector_step, exit_status_for, listener_step, pump_step, stdin_pump_continues, writer_step,
    ConnectorAction, ConnectorEvent, ConnectorState, ExitStatus, ListenerAction, ListenerEvent,
    ListenerState, Policy, PumpEvent, PumpStep, RunOutcome, WriterStep,
};
use rnc::scope::ScopeSet;

// ---------------------------------------------------------------------------
// Cancellation scopes
// ---------------------------------------------------------------------------

#[test]
fn cancel_is_idempotent() {
    let mut scopes = ScopeSet::new();
    let root = scopes.new_scope();
    assert!(!scopes.is_cancelled(root));
    scopes.cancel(root);
    assert!(scopes.is_cancelled(root));
    scopes.cancel(root);
    scopes.cancel(root);
    assert!(scopes.is_cancelled(root));
}

#[test]
fn cancel_reaches_children() {
    let mut scopes = ScopeSet::new();
    let root = scopes.new_scope();
    let child = scopes.child(root);
    let grandchild = scopes.child(child);
    let sibling = scopes.new_scope();

    scopes.cancel(root);

    assert!(scopes.is_cancelled(root));
    assert!(scopes.is_cancelled(child));
    assert!(scopes.is_cancelled(grandchild));
    assert!(!scopes.is_cancelled(sibling));
}

#[test]
fn cancel_child_leaves_parent() {
    let mut scopes = ScopeSet::new();
    let root = scopes.new_scope();
    let child = scopes.child(root);

    scopes.cancel(child);

    assert!(scopes.is_cancelled(child));
    assert!(!scopes.is_cancelled(root));
}

// ---------------------------------------------------------------------------
// Broadcast bus
// ---------------------------------------------------------------------------

#[test]
fn bus_delivers_in_order() {
    let mut bus = Bus::new(16);
    let mut sub = bus.subscribe();
    bus.publish(vec![1, 2]);
    bus.publish(vec![3]);

    assert_eq!(bus.poll(&mut sub), BusPoll::Chunk(vec![1, 2]));
    assert_eq!(bus.poll(&mut sub), BusPoll::Chunk(vec![3]));
    assert_eq!(bus.poll(&mut sub), BusPoll::Pending);

    bus.close();
    assert_eq!(bus.poll(&mut sub), BusPoll::Closed);
}

#[test]
fn late_subscriber_sees_only_later_chunks() {
    let mut bus = Bus::new(16);
    bus.publish(vec![1]);
    let mut sub = bus.subscribe();
    bus.publish(vec![2]);

    assert_eq!(bus.poll(&mut sub), BusPoll::Chunk(vec![2]));
    assert_eq!(bus.poll(&mut sub), BusPoll::Pending);
}

#[test]
fn lagging_subscriber_skips_oldest_and_resumes() {
    let mut bus = Bus::new(2);
    let mut sub = bus.subscribe();
    bus.publish(vec![1]);
    bus.publish(vec![2]);
    bus.publish(vec![3]);
    bus.publish(vec![4]);

    // Two chunks were lost; delivery resumes at the oldest retained chunk,
    // in order and without duplication: a subsequence of what was published.
    assert_eq!(bus.poll(&mut sub), BusPoll::Lagged(2));
    assert_eq!(bus.poll(&mut sub), BusPoll::Chunk(vec![3]));
    assert_eq!(bus.poll(&mut sub), BusPoll::Chunk(vec![4]));
    assert_eq!(bus.poll(&mut sub), BusPoll::Pending);
}

#[test]
fn publishing_without_subscribers_is_fine() {
    let mut bus = Bus::new(4);
    bus.publish(vec![9]);
    bus.publish(vec![8]);
    bus.close();
    // A subscriber arriving after the close sees only the close.
    let mut sub = bus.subscribe();
    assert_eq!(bus.poll(&mut sub), BusPoll::Closed);
}

#[test]
fn two_subscribers_have_independent_cursors() {
    let mut bus = Bus::new(8);
    let mut a = bus.subscribe();
    let mut b = bus.subscribe();
    bus.publish(vec![1]);

    assert_eq!(bus.poll(&mut a), BusPoll::Chunk(vec![1]));
    bus.publish(vec![2]);
    assert_eq!(bus.poll(&mut a), BusPoll::Chunk(vec![2]));
    assert_eq!(bus.poll(&mut b), BusPoll::Chunk(vec![1]));
    assert_eq!(bus.poll(&mut b), BusPoll::Chunk(vec![2]));
}

// ---------------------------------------------------------------------------
// Pumps
// ---------------------------------------------------------------------------

#[test]
fn pump_decisions() {
    assert_eq!(pump_step(&PumpEvent::Read(512)), PumpStep::Forward);
    assert_eq!(pump_step(&PumpEvent::Read(0)), PumpStep::DoneEof);
    assert_eq!(pump_step(&PumpEvent::ReadFailed), PumpStep::DoneFailed);
    assert_eq!(pump_step(&PumpEvent::WriteFailed), PumpStep::DoneFailed);
    assert_eq!(pump_step(&PumpEvent::Cancelled), PumpStep::DoneCancelled);
}

#[test]
fn stdin_pump_stops_only_on_eof() {
    assert!(stdin_pump_continues(100));
    assert!(stdin_pump_continues(1));
    assert!(!stdin_pump_continues(0));
}

#[test]
fn writer_ignores_lag_and_stops_on_close() {
    assert_eq!(writer_step(true, false, false), WriterStep::Forward);
    assert_eq!(writer_step(false, true, false), WriterStep::Resume);
    assert_eq!(writer_step(false, false, false), WriterStep::Wait);
    assert_eq!(writer_step(false, false, true), WriterStep::Stop);
}

// ---------------------------------------------------------------------------
// Connect mode
// ---------------------------------------------------------------------------

#[test]
fn connector_happy_path() {
    let (s, a) = connector_step(ConnectorState::Dialing, ConnectorEvent::DialOk);
    assert_eq!((s, a), (ConnectorState::Active, ConnectorAction::StartPumps));

    let (s, a) = connector_step(s, ConnectorEvent::InboundEnded);
    assert_eq!((s, a), (ConnectorState::Closing, ConnectorAction::CancelScope));

    let (s, a) = connector_step(s, ConnectorEvent::PumpsStopped);
    assert_eq!((s, a), (ConnectorState::Terminated, ConnectorAction::Done));
}

#[test]
fn connector_dial_failure_is_fatal() {
    let (s, a) = connector_step(ConnectorState::Dialing, ConnectorEvent::DialFailed);
    assert_eq!(s, ConnectorState::Terminated);
    assert_eq!(a, ConnectorAction::ReportHostUnreachable);
}

// ---------------------------------------------------------------------------
// Listen mode
// ---------------------------------------------------------------------------

#[test]
fn single_serving_listener_stops_after_one_session() {
    let policy = Policy::SingleServing;
    let (s, a) = listener_step(policy, ListenerState::Binding, ListenerEvent::BindOk);
    assert_eq!((s, a), (ListenerState::Accepting, ListenerAction::StartInputAndAccept));

    let (s, a) = listener_step(policy, s, ListenerEvent::Accepted);
    assert_eq!((s, a), (ListenerState::Accepting, ListenerAction::ServeSession));

    let (s, a) = listener_step(policy, s, ListenerEvent::SessionEnded);
    assert_eq!((s, a), (ListenerState::Terminated, ListenerAction::CancelScope));

    // No later event revives the listener.
    for ev in [
        ListenerEvent::BindOk,
        ListenerEvent::BindFailed,
        ListenerEvent::Accepted,
        ListenerEvent::AcceptFailed,
        ListenerEvent::SessionEnded,
    ] {
        let (s2, a2) = listener_step(policy, s, ev);
        assert_eq!((s2, a2), (ListenerState::Terminated, ListenerAction::Done));
    }
}

#[test]
fn multi_serving_listener_keeps_accepting() {
    let policy = Policy::MultiServing;
    let (s, _) = listener_step(policy, ListenerState::Binding, ListenerEvent::BindOk);

    let (s, a) = listener_step(policy, s, ListenerEvent::Accepted);
    assert_eq!(a, ListenerAction::ServeSession);

    let (s, a) = listener_step(policy, s, ListenerEvent::SessionEnded);
    assert_eq!((s, a), (ListenerState::Accepting, ListenerAction::TeardownSession));

    let (s, a) = listener_step(policy, s, ListenerEvent::Accepted);
    assert_eq!((s, a), (ListenerState::Accepting, ListenerAction::ServeSession));
}

#[test]
fn accept_failure_never_aborts_the_listener() {
    for policy in [Policy::SingleServing, Policy::MultiServing] {
        let (s, a) = listener_step(policy, ListenerState::Accepting, ListenerEvent::AcceptFailed);
        assert_eq!((s, a), (ListenerState::Accepting, ListenerAction::DiscardSession));
    }
}

#[test]
fn bind_failure_is_fatal() {
    let (s, a) = listener_step(
        Policy::MultiServing,
        ListenerState::Binding,
        ListenerEvent::BindFailed,
    );
    assert_eq!(s, ListenerState::Terminated);
    assert_eq!(a, ListenerAction::ReportHostUnreachable);
}

// ---------------------------------------------------------------------------
// Exit status
// ---------------------------------------------------------------------------

#[test]
fn exit_status_mapping() {
    assert_eq!(exit_status_for(&RunOutcome::Completed), ExitStatus::Success);
    assert_eq!(exit_status_for(&RunOutcome::ResolutionFailed), ExitStatus::UsageError);
    assert_eq!(exit_status_for(&RunOutcome::ConnectionFailed), ExitStatus::HostUnreachable);
}
