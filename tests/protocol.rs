use doorbell::protocol::{decode, encode, Frame, Notification, OPCODE_ERROR, OPCODE_TRIGGERED};

fn is_binary(f: &Frame, bytes: &[u8]) -> bool {
    matches!(f, Frame::Binary(b) if b.as_slice() == bytes)
}

#[test]
fn triggered_is_opcode_zero_alone() {
    assert_eq!(OPCODE_TRIGGERED, 0);
    assert!(is_binary(&encode(Notification::Triggered), &[0]));
}

#[test]
fn error_is_opcode_one_alone() {
    assert_eq!(OPCODE_ERROR, 1);
    assert!(is_binary(&encode(Notification::Error), &[1]));
}

#[test]
fn keepalive_is_empty_ping_and_close_is_close() {
    assert!(matches!(encode(Notification::Keepalive), Frame::Ping(ref b) if b.is_empty()));
    assert!(matches!(encode(Notification::Close), Frame::Close));
}

#[test]
fn every_notification_round_trips() {
    for n in [
        Notification::Triggered,
        Notification::Error,
        Notification::Keepalive,
        Notification::Close,
    ] {
        assert_eq!(decode(&encode(n)), Some(n));
    }
}

#[test]
fn undefined_opcodes_are_rejected() {
    for b in [vec![2u8], vec![255u8], vec![], vec![0u8, 0u8], vec![1u8, 0u8]] {
        assert_eq!(decode(&Frame::Binary(b)), None);
    }
}

#[test]
fn text_and_pong_are_rejected_ping_with_payload_is_keepalive() {
    assert_eq!(decode(&Frame::Text("0".to_string())), None);
    assert_eq!(decode(&Frame::Pong(vec![])), None);
    assert_eq!(decode(&Frame::Ping(vec![1, 2, 3])), Some(Notification::Keepalive));
}
