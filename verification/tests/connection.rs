use serve_core::connection::{Connection, ConnectionAction, ConnectionEvent, ConnectionPhase};

#[test]
fn new_connection_is_serving() {
    let connection = Connection::new();
    assert_eq!(connection.phase(), ConnectionPhase::Serving);
    assert!(connection.watches_cancellation());
    assert!(!connection.is_closed());
}

#[test]
fn completion_ends_the_task() {
    let mut connection = Connection::new();
    let action = connection.step(ConnectionEvent::Finished(None));
    assert_eq!(action, ConnectionAction::End { error: None });
    assert_eq!(connection.phase(), ConnectionPhase::Closed);
    assert!(connection.is_closed());
}

#[test]
fn protocol_error_is_handed_on_and_ends_only_this_task() {
    let mut failing = Connection::new();
    let mut sibling = Connection::new();
    let action = failing.step(ConnectionEvent::Finished(Some("connection reset".to_string())));
    assert_eq!(action, ConnectionAction::End { error: Some("connection reset".to_string()) });
    assert!(failing.is_closed());
    assert_eq!(sibling.phase(), ConnectionPhase::Serving);
    assert_eq!(sibling.step(ConnectionEvent::Finished(None)), ConnectionAction::End { error: None });
}

#[test]
fn cancellation_starts_the_graceful_transition() {
    let mut connection = Connection::new();
    assert_eq!(connection.step(ConnectionEvent::Cancelled), ConnectionAction::ShutDownGracefully);
    assert_eq!(connection.phase(), ConnectionPhase::Closing);
    assert!(!connection.watches_cancellation());
    assert!(!connection.is_closed());
}

#[test]
fn second_cancellation_does_nothing() {
    let mut once = Connection::new();
    once.step(ConnectionEvent::Cancelled);
    let mut twice = Connection::new();
    twice.step(ConnectionEvent::Cancelled);
    assert_eq!(twice.step(ConnectionEvent::Cancelled), ConnectionAction::Wait);
    assert_eq!(twice.phase(), once.phase());
    assert_eq!(twice.step(ConnectionEvent::Cancelled), ConnectionAction::Wait);
    assert_eq!(twice.phase(), ConnectionPhase::Closing);
}

#[test]
fn closing_connection_finishes_its_exchange() {
    let mut connection = Connection::new();
    connection.step(ConnectionEvent::Cancelled);
    assert_eq!(connection.step(ConnectionEvent::Finished(None)), ConnectionAction::End { error: None });
    assert!(connection.is_closed());
    let mut connection = Connection::new();
    connection.step(ConnectionEvent::Cancelled);
    assert_eq!(
        connection.step(ConnectionEvent::Finished(Some("broken pipe".to_string()))),
        ConnectionAction::End { error: Some("broken pipe".to_string()) }
    );
}

#[test]
fn closed_connection_stays_closed() {
    let mut connection = Connection::new();
    connection.step(ConnectionEvent::Finished(None));
    assert_eq!(connection.step(ConnectionEvent::Cancelled), ConnectionAction::Wait);
    assert_eq!(connection.step(ConnectionEvent::Finished(Some("late".to_string()))), ConnectionAction::Wait);
    assert_eq!(connection.phase(), ConnectionPhase::Closed);
    assert!(!connection.watches_cancellation());
}

#[test]
fn graceful_transition_is_asked_for_once_in_any_run() {
    let mut connection = Connection::new();
    let mut asked = 0;
    for round in 0..20 {
        let event = if round == 17 { ConnectionEvent::Finished(None) } else { ConnectionEvent::Cancelled };
        if connection.step(event) == ConnectionAction::ShutDownGracefully {
            asked += 1;
        }
    }
    assert_eq!(asked, 1);
    assert!(connection.is_closed());
}
