use websocat::lints::{check_configuration, ConfigurationConcern};
use websocat::options::Options;
use websocat::parse::parse_specifier;

fn check(l: &str, r: &str, opts: &Options) -> Vec<ConfigurationConcern> {
    let l = parse_specifier(l.as_bytes()).unwrap();
    let r = parse_specifier(r.as_bytes()).unwrap();
    check_configuration(&l, &r, opts)
}

#[test]
fn two_stdio_consumers_are_fatal() {
    let c = check("stdio:", "stdio:", &Options::default());
    assert_eq!(c, vec![ConfigurationConcern::StdioConflict]);
    assert!(c[0].is_fatal());
}

#[test]
fn stdio_and_threaded_stdio_conflict() {
    let c = check("threadedstdio:", "reconnect:stdio:", &Options::default());
    assert_eq!(c, vec![ConfigurationConcern::StdioConflict]);
}

#[test]
fn one_stdio_is_fine() {
    assert!(check("ws-listen:tcp-l:127.0.0.1:0", "stdio:", &Options::default()).is_empty());
}

#[test]
fn reuser_outermost_on_right_is_fine() {
    assert!(check("tcp-l:h:1", "reuse:tcp:h:2", &Options::default()).is_empty());
}

#[test]
fn reuser_inside_right_is_fatal() {
    let c = check("tcp-l:h:1", "ws-c:reuse:tcp:h:2", &Options::default());
    assert_eq!(c, vec![ConfigurationConcern::ReuserMisplaced]);
    assert!(c[0].is_fatal());
}

#[test]
fn reuser_on_left_is_fatal() {
    let c = check("reuse:tcp:h:2", "mirror:", &Options::default());
    assert_eq!(c, vec![ConfigurationConcern::ReuserMisplaced]);
}

#[test]
fn oneshot_with_multiconnect_left_warns() {
    let mut o = Options::default();
    o.oneshot = true;
    let c = check("ws-listen:tcp-l:127.0.0.1:0", "literalreply:PONG", &o);
    assert_eq!(c, vec![ConfigurationConcern::NeedlessMulticonnect]);
    assert!(!c[0].is_fatal());
}

#[test]
fn both_one_way_switches_warn() {
    let mut o = Options::default();
    o.unidirectional = true;
    o.unidirectional_reverse = true;
    let c = check("stdio:", "stdio:", &o);
    assert_eq!(
        c,
        vec![ConfigurationConcern::StdioConflict, ConfigurationConcern::DegenerateUnidirectional]
    );
    assert!(!c[1].is_fatal());
}
