use websocat::mirror::Mirror;
use websocat::options::Options;
use websocat::read_debt::ReadDebt;
use websocat::ws::{frame_for_write, handle_ws_message, outgoing_mode, Mode1, WsMessage, WsReadOutcome};

#[test]
fn zero_length_message_ends_reading_by_default() {
    let mut d = ReadDebt(None);
    let mut buf = [0u8; 4];
    let o = Options::default();
    assert_eq!(handle_ws_message(&mut d, &mut buf, WsMessage::Binary(vec![]), &o), WsReadOutcome::Eof);
}

#[test]
fn zero_length_message_skipped_when_ignored() {
    let mut d = ReadDebt(None);
    let mut buf = [0u8; 4];
    let mut o = Options::default();
    o.websocket_ignore_zeromsg = true;
    assert_eq!(handle_ws_message(&mut d, &mut buf, WsMessage::Text(vec![]), &o), WsReadOutcome::Skip);
    let mut o = Options::default();
    o.no_exit_on_zeromsg = true;
    assert_eq!(handle_ws_message(&mut d, &mut buf, WsMessage::Text(vec![]), &o), WsReadOutcome::Skip);
}

#[test]
fn data_message_goes_through_debt() {
    let mut d = ReadDebt(None);
    let mut buf = [0u8; 3];
    let o = Options::default();
    let r = handle_ws_message(&mut d, &mut buf, WsMessage::Text(b"hello".to_vec()), &o);
    assert_eq!(r, WsReadOutcome::Data(3));
    assert_eq!(&buf, b"hel");
    assert_eq!(d.check_debt(&mut buf).unwrap().unwrap(), 2);
    assert_eq!(&buf[..2], b"lo");
}

#[test]
fn control_messages() {
    let mut d = ReadDebt(None);
    let mut buf = [0u8; 3];
    let o = Options::default();
    assert_eq!(
        handle_ws_message(&mut d, &mut buf, WsMessage::Ping(b"p".to_vec()), &o),
        WsReadOutcome::ReplyPong(b"p".to_vec())
    );
    assert_eq!(handle_ws_message(&mut d, &mut buf, WsMessage::Pong(vec![1]), &o), WsReadOutcome::Skip);
    assert_eq!(handle_ws_message(&mut d, &mut buf, WsMessage::Close, &o), WsReadOutcome::Eof);
    assert_eq!(buf, [0u8; 3]);
}

#[test]
fn writes_are_framed_by_mode() {
    let mut o = Options::default();
    assert_eq!(outgoing_mode(&o), Mode1::Binary);
    o.websocket_text_mode = true;
    assert_eq!(outgoing_mode(&o), Mode1::Text);
    assert_eq!(frame_for_write(Mode1::Text, b"hi".to_vec()), WsMessage::Text(b"hi".to_vec()));
    assert_eq!(frame_for_write(Mode1::Binary, b"hi".to_vec()), WsMessage::Binary(b"hi".to_vec()));
}

#[test]
fn mirror_echoes_in_order() {
    let mut m = Mirror::new();
    m.write(b"hello".to_vec());
    m.write(vec![]);
    m.write(b" world".to_vec());
    let mut out = Vec::new();
    let mut buf = [0u8; 4];
    loop {
        let n = m.read(&mut buf);
        if n == 0 {
            break;
        }
        out.extend_from_slice(&buf[..n]);
    }
    assert_eq!(out, b"hello world".to_vec());
}
