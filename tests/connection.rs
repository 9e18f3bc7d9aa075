use yadd::connection::{poll_step, ConnectionState, PollInput, PollOutcome, Progress};

#[test]
fn back_to_back_queries_share_one_connection() {
    let mut state: ConnectionState<u32> = ConnectionState::new();
    let mut spawned = 0;
    // first query: nothing bound, so it asks to connect
    let step = poll_step(&mut state, false, PollInput::NoSender);
    assert!(step.connect && step.reschedule);
    if state.is_not_connected() && state.connect(1) {
        spawned += 1;
    }
    // second query arrives before the handshake completes
    assert!(!state.is_not_connected());
    assert!(!state.connect(2));
    assert_eq!(state.sender(), Some(&1));
    let step = poll_step(&mut state, false, PollInput::Submitted(Progress::NotReady));
    assert!(step.awaiting);
    state.on_handshake();
    assert_eq!(state, ConnectionState::Connected(1));
    // a third query later still reuses the driver
    assert!(!state.connect(3));
    assert_eq!(state.sender(), Some(&1));
    assert_eq!(spawned, 1);
}

#[test]
fn handshake_outside_connecting_resets() {
    let mut state: ConnectionState<u32> = ConnectionState::new();
    state.on_handshake();
    assert_eq!(state, ConnectionState::NotConnected);
    let mut state = ConnectionState::Connected(4u32);
    state.on_handshake();
    assert_eq!(state, ConnectionState::NotConnected);
}

#[test]
fn timeout_resets_the_connection() {
    let mut state = ConnectionState::Connected(1u32);
    let step = poll_step(&mut state, true, PollInput::Deadline);
    assert_eq!(step.outcome, PollOutcome::TimedOut);
    assert!(step.detach && !step.awaiting);
    assert_eq!(state, ConnectionState::NotConnected);

    let mut state = ConnectionState::Connecting(1u32);
    let step = poll_step(&mut state, false, PollInput::Deadline);
    assert_eq!(step.outcome, PollOutcome::TimedOut);
    assert!(!step.detach);
    assert_eq!(state, ConnectionState::NotConnected);

    let mut state: ConnectionState<u32> = ConnectionState::NotConnected;
    poll_step(&mut state, false, PollInput::Deadline);
    assert_eq!(state, ConnectionState::NotConnected);
}

#[test]
fn awaited_error_resets_only_while_connecting() {
    let mut state = ConnectionState::Connecting(1u32);
    let step = poll_step(&mut state, true, PollInput::Awaited(Progress::Failed));
    assert_eq!(step.outcome, PollOutcome::Pending);
    assert!(step.reschedule && !step.awaiting);
    assert_eq!(state, ConnectionState::NotConnected);

    let mut state = ConnectionState::Connected(1u32);
    let step = poll_step(&mut state, true, PollInput::Awaited(Progress::Failed));
    assert!(step.reschedule && !step.awaiting);
    assert_eq!(state, ConnectionState::Connected(1));
}

#[test]
fn immediate_submit_error_resets() {
    let mut state = ConnectionState::Connected(1u32);
    let step = poll_step(&mut state, false, PollInput::Submitted(Progress::Failed));
    assert_eq!(step.outcome, PollOutcome::Pending);
    assert!(step.reschedule);
    assert_eq!(state, ConnectionState::NotConnected);
}

#[test]
fn ready_responses_complete() {
    let mut state = ConnectionState::Connected(1u32);
    assert_eq!(poll_step(&mut state, true, PollInput::Awaited(Progress::Ready)).outcome, PollOutcome::Ready);
    assert_eq!(poll_step(&mut state, false, PollInput::Submitted(Progress::Ready)).outcome, PollOutcome::Ready);
    let step = poll_step(&mut state, true, PollInput::Awaited(Progress::NotReady));
    assert_eq!(step.outcome, PollOutcome::Pending);
    assert!(step.awaiting && !step.reschedule);
    assert_eq!(state, ConnectionState::Connected(1));
}

#[test]
fn driver_close_resets() {
    let mut state = ConnectionState::Connected(9u32);
    state.on_driver_closed();
    assert_eq!(state, ConnectionState::NotConnected);
    assert_eq!(state.sender(), None);
    let mut state = ConnectionState::Connecting(9u32);
    state.on_submit_error();
    assert!(state.is_not_connected());
}

#[test]
fn stale_inputs_are_retried_without_a_transition() {
    let mut state = ConnectionState::Connected(1u32);
    let step = poll_step(&mut state, false, PollInput::NoSender);
    assert_eq!(step.outcome, PollOutcome::Pending);
    assert!(step.reschedule && !step.connect && !step.awaiting);
    assert_eq!(state, ConnectionState::Connected(1));

    let mut state: ConnectionState<u32> = ConnectionState::NotConnected;
    let step = poll_step(&mut state, false, PollInput::Submitted(Progress::Failed));
    assert!(step.reschedule);
    assert_eq!(state, ConnectionState::NotConnected);
    let step = poll_step(&mut state, false, PollInput::Submitted(Progress::Ready));
    assert_eq!(step.outcome, PollOutcome::Ready);
    let step = poll_step(&mut state, false, PollInput::Awaited(Progress::Failed));
    assert_eq!(step.outcome, PollOutcome::Pending);
    assert_eq!(state, ConnectionState::NotConnected);
}
