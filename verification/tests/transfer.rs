use fleetos_guest_init::error::GuestInitError;
use fleetos_guest_init::transfer::{read_progress, write_progress};

#[test]
fn read_progress_advances() {
    assert_eq!(read_progress(0, 10, 4).unwrap(), 4);
    assert_eq!(read_progress(4, 10, 6).unwrap(), 10);
}

#[test]
fn read_of_zero_is_unexpected_eof() {
    match read_progress(3, 10, 0) {
        Err(GuestInitError::Vsock(m)) => assert_eq!(m, "unexpected EOF"),
        other => panic!("unexpected {:?}", other),
    }
}

#[test]
fn negative_read_is_os_error() {
    assert!(matches!(read_progress(0, 1, -1), Err(GuestInitError::Io(_))));
}

#[test]
fn write_progress_advances() {
    assert_eq!(write_progress(0, 8, 8).unwrap(), 8);
    assert_eq!(write_progress(2, 8, 0).unwrap(), 2);
    assert!(matches!(write_progress(2, 8, -1), Err(GuestInitError::Io(_))));
}
