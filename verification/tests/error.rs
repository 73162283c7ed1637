use fleetos_guest_init::error::GuestInitError;

#[test]
fn messages_carry_their_stage() {
    let cases = vec![
        (GuestInitError::Vsock("a".to_string()), "vsock: a"),
        (GuestInitError::Protocol("b".to_string()), "protocol: b"),
        (GuestInitError::Attest("c".to_string()), "attestation: c"),
        (GuestInitError::Environment("d".to_string()), "environment: d"),
        (GuestInitError::Network("e".to_string()), "network: e"),
        (GuestInitError::Exec("f".to_string()), "exec: f"),
    ];
    for (e, text) in cases {
        assert_eq!(e.describe(), text);
    }
}

#[test]
fn io_errors_convert_and_describe() {
    let io = std::io::Error::new(std::io::ErrorKind::Other, "disk on fire");
    let e: GuestInitError = io.into();
    assert!(matches!(e, GuestInitError::Io(_)));
    assert_eq!(e.describe(), "io: disk on fire");
}
