use pktfwd::shutdown::{HandlerError, ShutdownFlag, ShutdownState};

#[test]
fn running_until_the_flag_is_seen_set() {
    let state = ShutdownState::Running;
    assert!(!state.stop_requested());
    assert_eq!(state.observe(false), ShutdownState::Running);
    assert_eq!(state.observe(true), ShutdownState::StopRequested);
    assert!(state.observe(true).stop_requested());
}

#[test]
fn stop_requested_is_final() {
    let state = ShutdownState::StopRequested;
    assert_eq!(state.observe(false), ShutdownState::StopRequested);
    assert_eq!(state.observe(true), ShutdownState::StopRequested);
    assert_eq!(state.observe(false).observe(false), ShutdownState::StopRequested);
}

#[test]
fn new_flag_is_not_set() {
    let flag = ShutdownFlag::new();
    assert!(!flag.is_set());
    assert_eq!(flag.poll(ShutdownState::Running), ShutdownState::Running);
    assert_eq!(flag.poll(ShutdownState::StopRequested), ShutdownState::StopRequested);
}

#[test]
fn request_stop_sets_the_flag_for_good() {
    let flag = ShutdownFlag::new();
    flag.request_stop();
    assert!(flag.is_set());
    flag.request_stop();
    assert!(flag.is_set());
    assert_eq!(flag.poll(ShutdownState::Running), ShutdownState::StopRequested);
}

#[test]
fn shared_handles_stand_for_one_flag() {
    let flag = ShutdownFlag::new();
    let shared = flag.share();
    assert!(!shared.is_set());
    shared.request_stop();
    assert!(flag.is_set());
    assert!(flag.share().is_set());
    let other = ShutdownFlag::new();
    assert!(!other.is_set());
}

#[test]
fn handler_is_installed_once_per_process() {
    let flag = ShutdownFlag::new();
    assert_eq!(flag.install(), Ok(()));
    assert!(!flag.is_set());
    assert_eq!(flag.install(), Err(HandlerError::MultipleHandlers));
    let other = ShutdownFlag::new();
    assert_eq!(other.install(), Err(HandlerError::MultipleHandlers));
    assert!(!flag.is_set());
}
