//! The error type shared by every stage of guest initialisation.

use vstd::prelude::*;
use crate::text::join;

verus! {

#[verifier::external_type_specification]
#[verifier::external_body]
pub struct ExIoError(std::io::Error);

/// Everything that can stop the guest from initialising. Each stage reports
/// its own kind; the text says what went wrong.
#[derive(Debug)]
pub enum GuestInitError {
    Vsock(String),
    Io(std::io::Error),
    Protocol(String),
    Attest(String),
    Environment(String),
    Network(String),
    Exec(String),
}

/// Calls `ToString::to_string` on an `std::io::Error`. Its text comes from
/// the operating system, so nothing is stated of it.
#[verifier::external_body]
fn io_error_text(e: &std::io::Error) -> String {
    e.to_string()
}

impl GuestInitError {
    /// The error's message: the stage's label, a colon and a space, then the
    /// detail.
    pub fn describe(&self) -> (s: String)
        ensures
            match self {
                GuestInitError::Vsock(m) => s@ == "vsock: "@ + m@,
                GuestInitError::Io(_) => s@.len() >= 4 && s@.subrange(0, 4) == "io: "@,
                GuestInitError::Protocol(m) => s@ == "protocol: "@ + m@,
                GuestInitError::Attest(m) => s@ == "attestation: "@ + m@,
                GuestInitError::Environment(m) => s@ == "environment: "@ + m@,
                GuestInitError::Network(m) => s@ == "network: "@ + m@,
                GuestInitError::Exec(m) => s@ == "exec: "@ + m@,
            },
    {
        match self {
            GuestInitError::Vsock(m) => join("vsock: ", m.as_str()),
            GuestInitError::Io(e) => {
                let detail = io_error_text(e);
                let s = join("io: ", detail.as_str());
                proof {
                    reveal_strlit("io: ");
                    assert(s@.subrange(0, 4) =~= "io: "@);
                }
                s
            },
            GuestInitError::Protocol(m) => join("protocol: ", m.as_str()),
            GuestInitError::Attest(m) => join("attestation: ", m.as_str()),
            GuestInitError::Environment(m) => join("environment: ", m.as_str()),
            GuestInitError::Network(m) => join("network: ", m.as_str()),
            GuestInitError::Exec(m) => join("exec: ", m.as_str()),
        }
    }
}

impl From<std::io::Error> for GuestInitError {
    fn from(e: std::io::Error) -> (r: Self) {
        GuestInitError::Io(e)
    }
}

impl vstd::std_specs::convert::FromSpecImpl<std::io::Error> for GuestInitError {
    open spec fn obeys_from_spec() -> bool {
        true
    }

    open spec fn from_spec(e: std::io::Error) -> Self {
        GuestInitError::Io(e)
    }
}

} // verus!
