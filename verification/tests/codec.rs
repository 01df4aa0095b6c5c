use sync_hub::codec::decode_framed;
use sync_hub::codec::decode_line;
use sync_hub::codec::encode_line;
use sync_hub::codec::frame_line;
use sync_hub::msg::Message;

#[test]
fn round_trip_increment() {
    let line = encode_line(&Message::IncrementCounter);
    assert_eq!(line, b"IncrementCounter".to_vec());
    let decoded = decode_line(&line).expect("own encoding must decode");
    assert!(matches!(decoded, Message::IncrementCounter));
}

#[test]
fn round_trip_new_value() {
    let payload = b"https://example.com/x.jpg".to_vec();
    let line = encode_line(&Message::NewValue(payload.clone()));
    assert_eq!(line, b"NewValue https://example.com/x.jpg".to_vec());
    match decode_line(&line).expect("own encoding must decode") {
        Message::NewValue(v) => assert_eq!(v, payload),
        other => panic!("wrong variant: {other:?}"),
    }
}

#[test]
fn round_trip_empty_payload() {
    let line = encode_line(&Message::NewValue(Vec::new()));
    assert_eq!(line, b"NewValue ".to_vec());
    match decode_line(&line).expect("own encoding must decode") {
        Message::NewValue(v) => assert!(v.is_empty()),
        other => panic!("wrong variant: {other:?}"),
    }
}

#[test]
fn round_trip_escaped_bytes() {
    let payload = b"a\\b\nc".to_vec();
    let line = encode_line(&Message::NewValue(payload.clone()));
    assert_eq!(line, b"NewValue a\\\\b\\nc".to_vec());
    match decode_line(&line).expect("own encoding must decode") {
        Message::NewValue(v) => assert_eq!(v, payload),
        other => panic!("wrong variant: {other:?}"),
    }
}

#[test]
fn frame_ends_with_single_newline() {
    let frame = frame_line(&Message::NewValue(b"with\nnewline".to_vec()));
    let newlines = frame.iter().filter(|&&b| b == b'\n').count();
    assert_eq!(newlines, 1);
    assert_eq!(*frame.last().unwrap(), b'\n');
}

#[test]
fn decode_framed_strips_trailing_newline() {
    let frame = frame_line(&Message::IncrementCounter);
    assert!(matches!(
        decode_framed(&frame),
        Ok(Message::IncrementCounter)
    ));
    // without a trailing newline the bare record decodes too
    assert!(matches!(
        decode_framed(b"IncrementCounter"),
        Ok(Message::IncrementCounter)
    ));
}

#[test]
fn malformed_records_are_rejected() {
    assert!(decode_line(b"").is_err());
    assert!(decode_line(b"garbage").is_err());
    assert!(decode_line(b"incrementcounter").is_err());
    assert!(decode_line(b"IncrementCounterX").is_err());
    assert!(decode_line(b"NewValue").is_err()); // missing the space
    assert!(decode_line(b"NewValue \\x").is_err()); // unknown escape
    assert!(decode_line(b"NewValue \\").is_err()); // dangling escape
    assert!(decode_framed(b"{\"bogus\":1}\n").is_err());
    assert!(decode_framed(b"\n").is_err()); // an empty record is no message
}
