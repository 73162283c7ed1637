//! Guest-side logic of the FleetOS MicroVM init process: the VSOCK
//! attestation/configuration wire format, the handshake decisions, the
//! quote-generator seam and the plans that the I/O layer carries out.

pub mod wire;
pub mod codec;
pub mod text;
pub mod error;
pub mod protocol;
pub mod attest;
pub mod handshake;
pub mod exec_plan;
pub mod network_plan;
pub mod transfer;
