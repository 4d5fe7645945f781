use empede::conn::{CommandOutcome, ConnState, NextAction, RetryState};
use empede::error::MpdError;

#[test]
fn completed_outcome_delivers() {
    let mut retry = RetryState::new();
    let action = retry.decide(CommandOutcome::Completed);
    assert!(matches!(action, NextAction::Deliver));
    assert!(!retry.retried);
}

#[test]
fn refused_outcome_surfaces_server_error_verbatim() {
    let mut retry = RetryState::new();
    let action = retry.decide(CommandOutcome::Refused {
        message: "ACK [2@0] {play} bad arg".to_string(),
    });
    match action {
        NextAction::Fail { error: MpdError::Server(m) } => {
            assert_eq!(m, "ACK [2@0] {play} bad arg");
        }
        _ => panic!("an ACK must surface as a server error"),
    }
    assert!(!retry.retried);
}

#[test]
fn transport_failure_is_fatal_at_once() {
    let mut retry = RetryState::new();
    let action = retry.decide(CommandOutcome::TransportFailed);
    assert!(matches!(action, NextAction::Fail { error: MpdError::Connection }));
}

#[test]
fn single_desync_reconnects_then_succeeds() {
    // One protocol violation costs exactly one reconnect and one
    // resend; the retried command then succeeds.
    let mut conn = ConnState::new();
    conn.note_opened();
    assert_eq!(conn.generation, 1);

    let mut retry = RetryState::new();
    let action = retry.decide(CommandOutcome::Desynced);
    assert!(matches!(action, NextAction::ReconnectRetry));
    // The transport layer reopens once, bumping the generation.
    conn.note_closed();
    conn.note_opened();
    assert_eq!(conn.generation, 2);

    let action = retry.decide(CommandOutcome::Completed);
    assert!(matches!(action, NextAction::Deliver));
    assert_eq!(conn.generation, 2);
}

#[test]
fn second_desync_is_fatal_without_a_third_attempt() {
    let mut retry = RetryState::new();
    assert!(matches!(retry.decide(CommandOutcome::Desynced), NextAction::ReconnectRetry));
    let action = retry.decide(CommandOutcome::Desynced);
    assert!(matches!(action, NextAction::Fail { error: MpdError::Connection }));
    assert!(retry.retried);
}

#[test]
fn ack_never_touches_the_generation() {
    // An ACK is a command-level error: the connection's identity
    // counter is exactly what it was before the reply.
    let mut conn = ConnState::new();
    conn.note_opened();
    let generation_before = conn.generation;

    let mut retry = RetryState::new();
    let action = retry.decide(CommandOutcome::Refused { message: "ACK nope".to_string() });
    assert!(matches!(action, NextAction::Fail { error: MpdError::Server(_) }));
    assert!(!matches!(action, NextAction::ReconnectRetry));
    assert_eq!(conn.generation, generation_before);
    assert!(conn.ready);
}
