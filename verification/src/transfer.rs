//! The decisions of the blocking read and write loops over the VSOCK
//! socket. The I/O layer makes each `read`/`write` call and hands its return
//! value here.

use vstd::prelude::*;
use vstd::string::*;
use crate::error::GuestInitError;

verus! {

/// Calls `std::io::Error::last_os_error`, which reads the thread's `errno`;
/// nothing is stated of the error it returns.
#[verifier::external_body]
fn last_os_error() -> std::io::Error {
    std::io::Error::last_os_error()
}

/// The text that reports that the peer closed the channel early.
pub open spec fn eof_text() -> Seq<char> {
    "unexpected EOF"@
}

/// Progress of a loop that fills a buffer of `total` bytes, of which
/// `filled` are done, after `read` returned `n`: a negative `n` is the OS
/// error in `errno`, zero is an early end of stream, otherwise `n` more bytes
/// are done.
pub fn read_progress(filled: usize, total: usize, n: isize) -> (r: Result<usize, GuestInitError>)
    requires
        filled < total <= isize::MAX,
    ensures
        n < 0 ==> r matches Err(GuestInitError::Io(_)),
        n == 0 ==> (r matches Err(GuestInitError::Vsock(m)) && m@ == eof_text()),
        n > 0 ==> r == Ok::<usize, GuestInitError>((filled + n) as usize),
{
    if n < 0 {
        Err(GuestInitError::Io(last_os_error()))
    } else if n == 0 {
        Err(GuestInitError::Vsock(String::from_str("unexpected EOF")))
    } else {
        Ok(filled + n as usize)
    }
}

/// Progress of a loop that writes a buffer of `total` bytes, of which
/// `written` are done, after `write` returned `n`: a negative `n` is the OS
/// error in `errno`, otherwise `n` more bytes are done.
pub fn write_progress(written: usize, total: usize, n: isize) -> (r: Result<
    usize,
    GuestInitError,
>)
    requires
        written < total <= isize::MAX,
    ensures
        n < 0 ==> r matches Err(GuestInitError::Io(_)),
        n >= 0 ==> r == Ok::<usize, GuestInitError>((written + n) as usize),
{
    if n < 0 {
        Err(GuestInitError::Io(last_os_error()))
    } else {
        Ok(written + n as usize)
    }
}

} // verus!
