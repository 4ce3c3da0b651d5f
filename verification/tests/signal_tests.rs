use polymarket_mm_bot::types::{Signal, HEARTBEAT_BYTE, KILL_BYTE};

#[test]
fn signal_bytes_are_ascii_letters() {
    assert_eq!(Signal::Kill.to_byte(), b'K');
    assert_eq!(Signal::Heartbeat.to_byte(), b'H');
    assert_eq!(KILL_BYTE, 0x4B);
    assert_eq!(HEARTBEAT_BYTE, 0x48);
}

#[test]
fn signal_roundtrip() {
    for s in [Signal::Kill, Signal::Heartbeat] {
        assert_eq!(Signal::from_byte(s.to_byte()), Some(s));
    }
}

#[test]
fn unknown_byte_is_rejected() {
    assert_eq!(Signal::from_byte(0), None);
    assert_eq!(Signal::from_byte(b'k'), None);
    assert_eq!(Signal::from_byte(0xFF), None);
}
