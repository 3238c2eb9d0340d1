use websocat::read_debt::ReadDebt;

#[test]
fn process_message_fits_whole_chunk() {
    let mut d = ReadDebt(None);
    let mut buf = [0u8; 8];
    let n = d.process_message(&mut buf, b"hello").unwrap();
    assert_eq!(n, 5);
    assert_eq!(&buf[..5], b"hello");
    assert_eq!(&buf[5..], &[0u8, 0, 0]);
    assert_eq!(d.0, None);
}

#[test]
fn process_message_keeps_remainder_as_debt() {
    let mut d = ReadDebt(None);
    let mut buf = [0u8; 3];
    let n = d.process_message(&mut buf, b"hello").unwrap();
    assert_eq!(n, 3);
    assert_eq!(&buf, b"hel");
    assert_eq!(d.0, Some(b"lo".to_vec()));
}

#[test]
fn check_debt_without_debt_asks_for_source() {
    let mut d = ReadDebt::default();
    let mut buf = [7u8; 4];
    assert!(d.check_debt(&mut buf).is_none());
    assert_eq!(buf, [7u8; 4]);
}

#[test]
fn check_debt_drains_in_pieces() {
    let mut d = ReadDebt(Some(b"abcde".to_vec()));
    let mut buf = [0u8; 2];
    assert_eq!(d.check_debt(&mut buf).unwrap().unwrap(), 2);
    assert_eq!(&buf, b"ab");
    assert_eq!(d.check_debt(&mut buf).unwrap().unwrap(), 2);
    assert_eq!(&buf, b"cd");
    assert_eq!(d.check_debt(&mut buf).unwrap().unwrap(), 1);
    assert_eq!(&buf[..1], b"e");
    assert!(d.check_debt(&mut buf).is_none());
}

#[test]
fn zero_sized_buffer_keeps_whole_chunk() {
    let mut d = ReadDebt(None);
    let mut buf: [u8; 0] = [];
    assert_eq!(d.process_message(&mut buf, b"xy").unwrap(), 0);
    assert_eq!(d.0, Some(b"xy".to_vec()));
}

#[test]
fn chunks_through_varied_buffers_arrive_whole() {
    let chunks: Vec<&[u8]> = vec![b"hello", b"", b"websocket", b"!"];
    let sizes = [1usize, 3, 2, 7, 4, 1, 5, 2];
    let mut d = ReadDebt(None);
    let mut out: Vec<u8> = Vec::new();
    let mut next = 0;
    let mut step = 0;
    while next < chunks.len() || d.0.is_some() {
        let mut buf = vec![0u8; sizes[step % sizes.len()]];
        step += 1;
        let n = match d.check_debt(&mut buf) {
            Some(r) => r.unwrap(),
            None => {
                let c = chunks[next];
                next += 1;
                d.process_message(&mut buf, c).unwrap()
            }
        };
        out.extend_from_slice(&buf[..n]);
    }
    assert_eq!(out, b"hellowebsocket!".to_vec());
}
