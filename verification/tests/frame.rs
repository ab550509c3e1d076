use tcp_tunnel::frame::{close_payload, data_payload, parse_frame, ping_payload, Frame, FrameError};

#[test]
fn ping_payload_exact_bytes() {
    assert_eq!(ping_payload(), vec![0, 0, 0, 0, b'P', b'I', b'N', b'G']);
}

#[test]
fn close_payload_exact_bytes() {
    assert_eq!(close_payload(10), vec![0, 0, 0, 1, 0, 0, 0, 10]);
    assert_eq!(close_payload(0x01020304), vec![0, 0, 0, 1, 1, 2, 3, 4]);
}

#[test]
fn data_payload_exact_bytes() {
    assert_eq!(data_payload(10, b"hi"), vec![0, 0, 0, 10, b'h', b'i']);
    assert_eq!(data_payload(0xdeadbeef, &[9]), vec![0xde, 0xad, 0xbe, 0xef, 9]);
}

#[test]
fn parse_ping_ignores_token() {
    assert!(matches!(parse_frame(&[0, 0, 0, 0]), Ok(Frame::Ping)));
    assert!(matches!(parse_frame(&ping_payload()), Ok(Frame::Ping)));
}

#[test]
fn parse_close_reads_target() {
    match parse_frame(&close_payload(42)) {
        Ok(Frame::Close { target }) => assert_eq!(target, 42),
        other => panic!("expected a close frame, got {:?}", other.is_ok()),
    }
}

#[test]
fn parse_close_ignores_trailing_bytes() {
    match parse_frame(&[0, 0, 0, 1, 0, 0, 0, 7, 0xaa, 0xbb]) {
        Ok(Frame::Close { target }) => assert_eq!(target, 7),
        _ => panic!("expected a close frame"),
    }
}

#[test]
fn parse_data_reads_id_and_body() {
    match parse_frame(&data_payload(11, b"xyz")) {
        Ok(Frame::Data { id, body }) => {
            assert_eq!(id, 11);
            assert_eq!(body, b"xyz".to_vec());
        }
        _ => panic!("expected a data frame"),
    }
}

#[test]
fn parse_rejects_short_payload() {
    assert!(matches!(parse_frame(&[]), Err(FrameError::TooShort)));
    assert!(matches!(parse_frame(&[0, 0, 0]), Err(FrameError::TooShort)));
}

#[test]
fn parse_rejects_close_without_target() {
    assert!(matches!(parse_frame(&[0, 0, 0, 1, 0, 0]), Err(FrameError::TooShort)));
}
