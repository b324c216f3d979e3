use bili::live::supervisor::{FailureAction, SessionState};

#[test]
fn failover_debounce_scenario() {
    let mut s = SessionState::new(3);
    assert!(s.active);
    assert_eq!(s.host_index, 0);
    assert_eq!(s.on_failure(0), FailureAction::Armed);
    assert_eq!(s.host_index, 0);
    assert_eq!(s.on_failure(50), FailureAction::Ignored);
    assert_eq!(s.host_index, 0);
    assert_eq!(s.on_failure(200), FailureAction::Reconnect);
    assert_eq!(s.host_index, 1);
}

#[test]
fn distinct_failures_advance_by_count_minus_one() {
    let mut s = SessionState::new(3);
    let times: [u64; 4] = [0, 200, 400, 600];
    let mut rotations = 0usize;
    for t in times {
        if s.on_failure(t) == FailureAction::Reconnect {
            rotations += 1;
        }
    }
    assert_eq!(rotations, 3);
    assert_eq!(s.host_index, 3 % 3);
}

#[test]
fn single_host_reconnects_to_itself() {
    let mut s = SessionState::new(1);
    assert_eq!(s.on_failure(0), FailureAction::Armed);
    assert_eq!(s.on_failure(500), FailureAction::Reconnect);
    assert_eq!(s.host_index, 0);
    assert_eq!(s.on_failure(1000), FailureAction::Reconnect);
    assert_eq!(s.host_index, 0);
}

#[test]
fn duplicate_report_updates_the_recorded_instant() {
    let mut s = SessionState::new(2);
    s.on_failure(0);
    assert_eq!(s.on_failure(90), FailureAction::Ignored);
    assert_eq!(s.last_failure_at, Some(90));
    assert_eq!(s.on_failure(180), FailureAction::Ignored);
    assert_eq!(s.on_failure(300), FailureAction::Reconnect);
    assert_eq!(s.host_index, 1);
}

#[test]
fn close_twice_is_a_no_op_the_second_time() {
    let mut s = SessionState::new(2);
    s.on_failure(0);
    s.close();
    let after_first = s;
    s.close();
    assert_eq!(s, after_first);
    assert!(!s.active);
}
