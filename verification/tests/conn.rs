use console_core::conn::{
    CommandAction, CommandOutcome, ConnState, ConnStatus, Connection, HostKind, NextStep, Scheme,
    StreamEvent, Target, BASE_BACKOFF_MS, MAX_BACKOFF_MS,
};

fn net_target() -> Target {
    Target { scheme: Scheme::Network, host: HostKind::Other }
}

fn connect(c: &mut Connection) {
    assert!(matches!(c.next_step(), NextStep::Connect));
    c.on_connect_outcome(true);
}

#[test]
fn new_manager_is_connecting_with_no_wait() {
    let c = Connection::new(net_target());
    assert_eq!(c.render(), ConnStatus::Connecting);
    assert_eq!(c.backoff_wait_ms(), 0);
    assert!(matches!(c.next_step(), NextStep::Connect));
}

#[test]
fn backoff_sequence_grows_additively() {
    let mut c = Connection::new(net_target());
    // Target unreachable three times: the observed waits are
    // [0, step, step * 2].
    let mut waits = Vec::new();
    for _ in 0..3 {
        waits.push(c.backoff_wait_ms());
        c.on_connect_outcome(false);
    }
    assert_eq!(waits, vec![0, BASE_BACKOFF_MS, 2 * BASE_BACKOFF_MS]);
    assert_eq!(c.backoff_wait_ms(), 3 * BASE_BACKOFF_MS);
}

#[test]
fn backoff_is_monotone_and_capped() {
    let mut c = Connection::new(net_target());
    let mut prev = c.backoff_wait_ms();
    for _ in 0..20 {
        c.on_connect_outcome(false);
        let next = c.backoff_wait_ms();
        assert!(next >= prev);
        assert!(next <= MAX_BACKOFF_MS);
        prev = next;
    }
    assert_eq!(prev, MAX_BACKOFF_MS);
}

#[test]
fn successful_connect_discards_backoff() {
    let mut c = Connection::new(net_target());
    for _ in 0..4 {
        c.on_connect_outcome(false);
    }
    c.on_connect_outcome(true);
    assert_eq!(c.render(), ConnStatus::Connected);
    // The next failure starts again from one base step, not from the
    // accumulated backoff.
    let emitted = c.on_stream_event(StreamEvent::UpdateFault);
    assert!(!emitted);
    assert_eq!(c.backoff_wait_ms(), BASE_BACKOFF_MS);
}

#[test]
fn stream_items_keep_the_connection_up() {
    let mut c = Connection::new(net_target());
    connect(&mut c);
    assert!(c.on_stream_event(StreamEvent::UpdateReceived));
    assert!(c.on_stream_event(StreamEvent::StateReceived));
    assert_eq!(c.render(), ConnStatus::Connected);
    assert!(matches!(c.next_step(), NextStep::AwaitStreams));
}

#[test]
fn update_stream_close_condemns_whole_connection() {
    // The state stream may still be open: a fault on either stream drops
    // both, and the next call goes straight back to connecting.
    let mut c = Connection::new(net_target());
    connect(&mut c);
    let emitted = c.on_stream_event(StreamEvent::UpdateFault);
    assert!(!emitted);
    assert_eq!(c.render(), ConnStatus::ReconnectingIn { backoff_ms: BASE_BACKOFF_MS });
    assert!(matches!(c.next_step(), NextStep::Connect));
}

#[test]
fn state_stream_fault_behaves_the_same() {
    let mut c = Connection::new(net_target());
    connect(&mut c);
    assert!(!c.on_stream_event(StreamEvent::StateFault));
    assert!(matches!(c.next_step(), NextStep::Connect));
}

#[test]
fn command_rejection_surfaces_without_reconnect() {
    let mut c = Connection::new(net_target());
    connect(&mut c);
    assert_eq!(c.command_step(), CommandAction::Attempt);
    let a = c.on_command_outcome(CommandOutcome::Rejected);
    assert_eq!(a, CommandAction::ReturnErr);
    assert_eq!(c.render(), ConnStatus::Connected);
}

#[test]
fn command_connection_error_reconnects_and_retries() {
    let mut c = Connection::new(net_target());
    connect(&mut c);
    let a = c.on_command_outcome(CommandOutcome::ConnectionError);
    assert_eq!(a, CommandAction::Connect);
    assert_eq!(c.render(), ConnStatus::ReconnectingIn { backoff_ms: BASE_BACKOFF_MS });
    assert_eq!(c.command_step(), CommandAction::Connect);
    c.on_connect_outcome(true);
    assert_eq!(c.command_step(), CommandAction::Attempt);
    let a = c.on_command_outcome(CommandOutcome::Succeeded);
    assert_eq!(a, CommandAction::ReturnOk);
}

#[test]
fn local_socket_targets_accept_only_local_hosts() {
    let ok_empty = Connection::new(Target { scheme: Scheme::LocalSocket, host: HostKind::Empty });
    let ok_local =
        Connection::new(Target { scheme: Scheme::LocalSocket, host: HostKind::Localhost });
    let bad = Connection::new(Target { scheme: Scheme::LocalSocket, host: HostKind::Other });
    let net = Connection::new(Target { scheme: Scheme::Network, host: HostKind::Other });
    assert!(ok_empty.target_ok());
    assert!(ok_local.target_ok());
    assert!(!bad.target_ok());
    assert!(net.target_ok());
}

#[test]
fn status_is_a_pure_projection_of_state() {
    let mut c = Connection::new(net_target());
    assert_eq!(c.render(), ConnStatus::Connecting);
    c.on_connect_outcome(false);
    assert_eq!(c.render(), ConnStatus::ReconnectingIn { backoff_ms: BASE_BACKOFF_MS });
    c.on_connect_outcome(true);
    assert_eq!(c.render(), ConnStatus::Connected);
    let _ = ConnState::Disconnected { backoff_ms: 0 };
}
