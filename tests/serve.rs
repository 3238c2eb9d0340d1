use websocat::options::Options;
use websocat::parse::parse_specifier;
use websocat::serve::{serve_mode, AcceptAction, AcceptEvent, Listener, ProgramState, ReuseDecision, ServeMode};

#[test]
fn listener_left_is_served_many_times() {
    let l = parse_specifier(b"ws-listen:tcp-l:127.0.0.1:0").unwrap();
    assert_eq!(serve_mode(&l, &Options::default()), ServeMode::Multiple);
    let mut li = Listener::new(ServeMode::Multiple);
    assert_eq!(li.on_event(AcceptEvent::Accepted), AcceptAction::StartSession);
    assert_eq!(li.on_event(AcceptEvent::Failed), AcceptAction::ReportAndContinue);
    assert_eq!(li.on_event(AcceptEvent::Accepted), AcceptAction::StartSession);
    assert!(li.open);
    assert_eq!(li.sessions_started, 2);
}

#[test]
fn oneshot_serves_first_client_only() {
    let l = parse_specifier(b"ws-listen:tcp-l:127.0.0.1:0").unwrap();
    let mut o = Options::default();
    o.oneshot = true;
    let mode = serve_mode(&l, &o);
    assert_eq!(mode, ServeMode::Once);
    let mut li = Listener::new(mode);
    assert_eq!(li.on_event(AcceptEvent::Accepted), AcceptAction::StartSessionAndClose);
    assert!(!li.open);
    assert_eq!(li.sessions_started, 1);
}

#[test]
fn single_connect_left_is_served_once() {
    let l = parse_specifier(b"tcp:127.0.0.1:9").unwrap();
    assert_eq!(serve_mode(&l, &Options::default()), ServeMode::Once);
    let mut li = Listener::new(ServeMode::Once);
    assert_eq!(li.on_event(AcceptEvent::Failed), AcceptAction::FailAndClose);
    assert!(!li.open);
    assert_eq!(li.sessions_started, 0);
}

#[test]
fn stdio_is_claimed_once() {
    let mut ps = ProgramState::new();
    assert!(!ps.stdio_claimed);
    assert!(ps.claim_stdio());
    assert!(!ps.claim_stdio());
    assert!(ps.stdio_claimed);
}

#[test]
fn reuser_shares_one_inner_connection() {
    let mut ps = ProgramState::default();
    assert_eq!(ps.reuser_attach(), ReuseDecision::ConnectInner);
    assert_eq!(ps.reuser_attach(), ReuseDecision::ShareExisting);
    ps.reuser_detach();
    assert_eq!(ps.reuser_attach(), ReuseDecision::ConnectInner);
}
