use serve_core::listener::{drain_notice, AcceptAction, AcceptEvent, Peer, Supervisor, SupervisorPhase};

fn tcp(address: &str) -> AcceptEvent {
    AcceptEvent::Connection(Peer::Inet(address.to_string()))
}

#[test]
fn network_peer_shows_its_address() {
    assert_eq!(Peer::Inet("10.0.0.7:51234".to_string()).addr_string(), Some("10.0.0.7:51234".to_string()));
}

#[test]
fn unix_peer_shows_nothing() {
    assert_eq!(Peer::Unix.addr_string(), None);
}

#[test]
fn new_supervisor_accepts() {
    let supervisor = Supervisor::new(false);
    assert_eq!(supervisor.phase, SupervisorPhase::Accepting);
    assert!(!supervisor.socket_file);
    assert!(supervisor.is_accepting());
    assert!(Supervisor::new(true).socket_file);
}

#[test]
fn each_connection_is_spawned() {
    let mut supervisor = Supervisor::new(false);
    for n in 0..5 {
        let address = format!("10.0.0.1:{}", 4000 + n);
        assert_eq!(supervisor.step(tcp(&address)), AcceptAction::Spawn { peer: Some(address) });
        assert!(supervisor.is_accepting());
    }
    assert_eq!(supervisor.step(AcceptEvent::Connection(Peer::Unix)), AcceptAction::Spawn { peer: None });
}

#[test]
fn failed_accept_does_not_stop_the_loop() {
    let mut supervisor = Supervisor::new(true);
    assert_eq!(
        supervisor.step(AcceptEvent::Failure("Too many open files".to_string())),
        AcceptAction::Report { cause: "Too many open files".to_string() }
    );
    assert!(supervisor.is_accepting());
    assert_eq!(supervisor.step(AcceptEvent::Connection(Peer::Unix)), AcceptAction::Spawn { peer: None });
}

#[test]
fn cancellation_starts_the_drain() {
    let mut supervisor = Supervisor::new(false);
    assert_eq!(supervisor.step(AcceptEvent::Cancelled), AcceptAction::Drain);
    assert_eq!(supervisor.phase, SupervisorPhase::Draining);
    assert!(!supervisor.is_accepting());
}

#[test]
fn connection_after_cancellation_is_refused() {
    let mut supervisor = Supervisor::new(false);
    supervisor.step(tcp("10.0.0.1:1"));
    supervisor.step(AcceptEvent::Cancelled);
    assert_eq!(supervisor.step(tcp("10.0.0.1:2")), AcceptAction::Refuse);
    assert_eq!(supervisor.step(AcceptEvent::Failure("x".to_string())), AcceptAction::Ignore);
    assert_eq!(supervisor.phase, SupervisorPhase::Draining);
    supervisor.step(AcceptEvent::Drained);
    assert_eq!(supervisor.step(tcp("10.0.0.1:3")), AcceptAction::Refuse);
}

#[test]
fn second_cancellation_is_ignored() {
    let mut supervisor = Supervisor::new(true);
    supervisor.step(AcceptEvent::Cancelled);
    let after_one = supervisor;
    assert_eq!(supervisor.step(AcceptEvent::Cancelled), AcceptAction::Ignore);
    assert_eq!(supervisor, after_one);
}

#[test]
fn socket_file_goes_when_the_drain_is_over() {
    let mut supervisor = Supervisor::new(true);
    supervisor.step(AcceptEvent::Connection(Peer::Unix));
    assert_eq!(supervisor.step(AcceptEvent::Cancelled), AcceptAction::Drain);
    assert_eq!(supervisor.step(AcceptEvent::Drained), AcceptAction::Finish { remove_socket_file: true });
    assert_eq!(supervisor.phase, SupervisorPhase::Stopped);
    assert_eq!(supervisor.step(AcceptEvent::Drained), AcceptAction::Ignore);
    assert_eq!(supervisor.step(AcceptEvent::Cancelled), AcceptAction::Ignore);
}

#[test]
fn network_listener_has_no_file_to_remove() {
    let mut supervisor = Supervisor::new(false);
    supervisor.step(AcceptEvent::Cancelled);
    assert_eq!(supervisor.step(AcceptEvent::Drained), AcceptAction::Finish { remove_socket_file: false });
}

#[test]
fn drain_cannot_end_before_it_began() {
    let mut supervisor = Supervisor::new(true);
    assert_eq!(supervisor.step(AcceptEvent::Drained), AcceptAction::Ignore);
    assert!(supervisor.is_accepting());
}

#[test]
fn drain_notice_counts_tasks() {
    assert_eq!(drain_notice(0), None);
    assert_eq!(drain_notice(1), Some("Waiting for 1 task to finish".to_string()));
    assert_eq!(drain_notice(2), Some("Waiting for 2 tasks to finish".to_string()));
    assert_eq!(drain_notice(10), Some("Waiting for 10 tasks to finish".to_string()));
    assert_eq!(drain_notice(u64::MAX), Some("Waiting for 18446744073709551615 tasks to finish".to_string()));
}
