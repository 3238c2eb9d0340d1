use websocat::parse::parse_specifier;
use websocat::specifier::{
    OneSpecifierInfo, Specifier, SpecifierType, TerminalKind, WrapperKind,
};

fn info(multiconnect: bool, uses_global_state: bool, typ: SpecifierType) -> OneSpecifierInfo {
    OneSpecifierInfo { multiconnect, uses_global_state, typ }
}

#[test]
fn collect_lists_chain_root_first() {
    let s = parse_specifier(b"reuse:ws-c:tcp:127.0.0.1:80").unwrap();
    let v = s.get_info().collect();
    assert_eq!(
        v,
        vec![
            info(false, true, SpecifierType::Reuser),
            info(false, false, SpecifierType::Other),
            info(false, false, SpecifierType::Other),
        ]
    );
}

#[test]
fn ws_listen_over_listener_is_multiconnect() {
    let s = parse_specifier(b"ws-listen:tcp-l:127.0.0.1:8080").unwrap();
    assert!(s.is_multiconnect());
    let v = s.get_info().collect();
    assert_eq!(v.len(), 2);
    assert!(v[0].multiconnect && v[1].multiconnect);
}

#[test]
fn ws_listen_over_one_shot_transport_is_single() {
    let s = Specifier::Wrapper(
        WrapperKind::WsUpgrade,
        Box::new(Specifier::Terminal(TerminalKind::Tcp, b"h:1".to_vec())),
    );
    assert!(!s.is_multiconnect());
}

#[test]
fn stdio_uses_global_state() {
    let s = parse_specifier(b"stdio:").unwrap();
    assert!(s.uses_global_state());
    assert_eq!(s.get_type(), SpecifierType::Stdio);
    let one = s.get_info_without_subspecs();
    assert_eq!(one, info(false, true, SpecifierType::Stdio));
    assert_eq!(s.get_info().collect().len(), 1);
}

#[test]
fn reconnect_is_single_connect() {
    let s = parse_specifier(b"reconnect:tcp-l:0.0.0.0:1").unwrap();
    assert!(!s.is_multiconnect());
    let v = s.get_info().collect();
    assert_eq!(v[1], info(true, false, SpecifierType::Other));
}

#[test]
fn cloned_info_collects_the_same() {
    let s = parse_specifier(b"ws-listen:unix-l:/tmp/s").unwrap();
    let i = s.get_info();
    let j = i.clone();
    assert_eq!(i.collect(), j.collect());
    assert_eq!(s.clone(), s);
}
