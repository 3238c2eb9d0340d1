use websocat::parse::{parse_specifier, ParseErrorKind};
use websocat::specifier::{Specifier, TerminalKind, WrapperKind};

fn term(k: TerminalKind, a: &str) -> Specifier {
    Specifier::Terminal(k, a.as_bytes().to_vec())
}

#[test]
fn parses_nested_listener() {
    let s = parse_specifier(b"ws-listen:tcp-l:127.0.0.1:8080").unwrap();
    assert_eq!(
        s,
        Specifier::Wrapper(WrapperKind::WsUpgrade, Box::new(term(TerminalKind::TcpListen, "127.0.0.1:8080")))
    );
}

#[test]
fn parses_every_terminal() {
    let cases: Vec<(&str, TerminalKind, &str)> = vec![
        ("tcp:h:1", TerminalKind::Tcp, "h:1"),
        ("tcp-l:h:1", TerminalKind::TcpListen, "h:1"),
        ("udp:h:1", TerminalKind::Udp, "h:1"),
        ("udp-l:h:1", TerminalKind::UdpListen, "h:1"),
        ("ws://h:1/p", TerminalKind::Ws, "h:1/p"),
        ("wss://h/p", TerminalKind::Wss, "h/p"),
        ("stdio:", TerminalKind::Stdio, ""),
        ("exec:ls", TerminalKind::Exec, "ls"),
        ("unix:/s", TerminalKind::Unix, "/s"),
        ("unix-l:/s", TerminalKind::UnixListen, "/s"),
        ("mirror:", TerminalKind::Mirror, ""),
        ("literalreply:PONG", TerminalKind::LiteralReply, "PONG"),
        ("threadedstdio:", TerminalKind::ThreadedStdio, ""),
    ];
    for (text, k, a) in cases {
        assert_eq!(parse_specifier(text.as_bytes()).unwrap(), term(k, a), "{}", text);
    }
}

#[test]
fn parses_wrappers() {
    let s = parse_specifier(b"reuse:reconnect:ws-c:tcp:h:1").unwrap();
    let expected = Specifier::Wrapper(
        WrapperKind::Reuser,
        Box::new(Specifier::Wrapper(
            WrapperKind::AutoReconnect,
            Box::new(Specifier::Wrapper(WrapperKind::WsConnect, Box::new(term(TerminalKind::Tcp, "h:1")))),
        )),
    );
    assert_eq!(s, expected);
}

#[test]
fn missing_colon_is_an_error() {
    let e = parse_specifier(b"stdio").unwrap_err();
    assert_eq!(e.kind, ParseErrorKind::MissingColon);
    assert_eq!(e.offending, b"stdio".to_vec());
}

#[test]
fn unknown_name_is_an_error() {
    let e = parse_specifier(b"ws-listen:tcpx:1").unwrap_err();
    assert_eq!(e.kind, ParseErrorKind::UnknownName);
    assert_eq!(e.offending, b"tcpx".to_vec());
}

#[test]
fn argument_to_argumentless_endpoint_is_an_error() {
    let e = parse_specifier(b"mirror:x").unwrap_err();
    assert_eq!(e.kind, ParseErrorKind::UnexpectedArgument);
    assert_eq!(e.offending, b"x".to_vec());
}

#[test]
fn url_without_slashes_is_an_error() {
    let e = parse_specifier(b"ws:host").unwrap_err();
    assert_eq!(e.kind, ParseErrorKind::MissingSlashes);
    assert_eq!(e.offending, b"host".to_vec());
}

#[test]
fn empty_text_is_an_error() {
    let e = parse_specifier(b"").unwrap_err();
    assert_eq!(e.kind, ParseErrorKind::MissingColon);
}

#[test]
fn print_writes_names_and_arguments() {
    let s = Specifier::Wrapper(WrapperKind::WsUpgrade, Box::new(term(TerminalKind::Ws, "h/x")));
    assert_eq!(s.print(), b"ws-listen:ws://h/x".to_vec());
}

#[test]
fn print_then_parse_gives_the_tree_back() {
    let trees = vec![
        term(TerminalKind::Stdio, ""),
        term(TerminalKind::Exec, "a:b:c"),
        Specifier::Wrapper(WrapperKind::Reuser, Box::new(term(TerminalKind::Wss, "x:1/y"))),
        Specifier::Wrapper(
            WrapperKind::WsUpgrade,
            Box::new(Specifier::Wrapper(WrapperKind::AutoReconnect, Box::new(term(TerminalKind::UnixListen, "")))),
        ),
    ];
    for t in trees {
        assert_eq!(parse_specifier(&t.print()).unwrap(), t);
    }
}
