use websocat::options::Options;
use websocat::session::{
    session_policy, Direction, SessionAction, SessionEvent, SessionPolicy, SessionState,
};

fn policy(unif: bool, unir: bool, eeof: bool) -> SessionPolicy {
    let mut o = Options::default();
    o.unidirectional = unif;
    o.unidirectional_reverse = unir;
    o.exit_on_eof = eeof;
    session_policy(&o)
}

#[test]
fn policy_table() {
    assert_eq!(policy(false, false, false), SessionPolicy::Join);
    assert_eq!(policy(false, false, true), SessionPolicy::Select);
    assert_eq!(policy(true, false, false), SessionPolicy::ForwardOnly);
    assert_eq!(policy(true, false, true), SessionPolicy::ForwardOnly);
    assert_eq!(policy(false, true, false), SessionPolicy::ReverseOnly);
    assert_eq!(policy(false, true, true), SessionPolicy::ReverseOnly);
    assert_eq!(policy(true, true, false), SessionPolicy::OpenAndClose);
    assert_eq!(policy(true, true, true), SessionPolicy::OpenAndClose);
}

#[test]
fn join_waits_for_both_directions() {
    let mut s = SessionState::start(SessionPolicy::Join);
    assert!(s.forward_running && s.reverse_running && !s.finished);
    assert_eq!(s.on_event(SessionEvent::Finished(Direction::Reverse)), SessionAction::Wait);
    assert!(!s.finished && s.forward_running && !s.reverse_running);
    assert_eq!(s.on_event(SessionEvent::Finished(Direction::Forward)), SessionAction::Complete);
    assert!(s.finished && s.forward_done && s.reverse_done && !s.failed);
}

#[test]
fn join_fails_on_first_error() {
    let mut s = SessionState::start(SessionPolicy::Join);
    assert_eq!(s.on_event(SessionEvent::Failed(Direction::Forward)), SessionAction::Fail);
    assert!(s.finished && s.failed && !s.reverse_running && !s.reverse_done);
}

#[test]
fn select_completes_on_first_direction() {
    let mut s = SessionState::start(SessionPolicy::Select);
    assert_eq!(s.on_event(SessionEvent::Finished(Direction::Forward)), SessionAction::Complete);
    assert!(s.finished && !s.reverse_running && !s.reverse_done && s.forward_done);
}

#[test]
fn forward_only_runs_forward() {
    let mut s = SessionState::start(SessionPolicy::ForwardOnly);
    assert!(s.forward_running && !s.reverse_running);
    assert_eq!(s.on_event(SessionEvent::Finished(Direction::Forward)), SessionAction::Complete);
    assert!(s.finished);
}

#[test]
fn reverse_only_runs_reverse() {
    let s = SessionState::start(SessionPolicy::ReverseOnly);
    assert!(!s.forward_running && s.reverse_running && !s.finished);
}

#[test]
fn open_and_close_is_finished_at_once() {
    let s = SessionState::start(SessionPolicy::OpenAndClose);
    assert!(s.finished && !s.forward_running && !s.reverse_running && !s.failed);
}
