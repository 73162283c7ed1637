//! The attestation quote generation seam.
//!
//! Production needs a hardware-backed generator (vTPM, SEV-SNP or TDX). Until
//! one exists, selection fails closed unless this build enables the
//! development software generator.

use vstd::prelude::*;
use vstd::string::*;
use crate::error::GuestInitError;
use crate::protocol::QUOTE_TYPE_DEV_SOFTWARE;

verus! {

/// Whether this build may fall back to [`DevSoftwareQuoteGenerator`]. Kept
/// off: without a hardware-backed generator the handshake aborts.
pub const DEV_ATTEST: bool = false;

/// Generates a hardware attestation quote bound to a fresh nonce.
pub trait QuoteGenerator {
    /// The `quote_type` value of the quotes this generator produces.
    spec fn spec_quote_type(&self) -> u8;

    /// `quote` is a quote of this generator bound to `nonce`; what that means
    /// is each generator's own definition. A generator that defines nothing
    /// here promises nothing.
    open spec fn binds(&self, nonce: Seq<u8>, quote: Seq<u8>) -> bool {
        true
    }

    /// The `quote_type` value of the quotes this generator produces.
    fn quote_type(&self) -> (t: u8)
        ensures
            t == self.spec_quote_type(),
    ;

    /// A quote that binds `nonce`.
    fn generate_quote(&self, nonce: &[u8; 32]) -> (r: Result<Vec<u8>, GuestInitError>)
        ensures
            r matches Ok(q) ==> self.binds(nonce@, q@),
    ;
}

/// Development software quote generator: not a real attestation, and a
/// production verifier refuses its quote type.
pub struct DevSoftwareQuoteGenerator;

/// The tag that opens a development quote: the ASCII text
/// `FLEETOS-DEV-QUOTE-V1` and a NUL byte.
pub open spec fn dev_quote_tag() -> Seq<u8> {
    seq![
        0x46u8, 0x4C, 0x45, 0x45, 0x54, 0x4F, 0x53, 0x2D, 0x44, 0x45, 0x56, 0x2D, 0x51, 0x55,
        0x4F, 0x54, 0x45, 0x2D, 0x56, 0x31, 0x00,
    ]
}

/// The development quote for `nonce`: the tag, then the nonce.
pub open spec fn dev_quote(nonce: Seq<u8>) -> Seq<u8> {
    dev_quote_tag() + nonce
}

impl QuoteGenerator for DevSoftwareQuoteGenerator {
    open spec fn spec_quote_type(&self) -> u8 {
        QUOTE_TYPE_DEV_SOFTWARE
    }

    open spec fn binds(&self, nonce: Seq<u8>, quote: Seq<u8>) -> bool {
        quote == dev_quote(nonce)
    }

    fn quote_type(&self) -> (t: u8)
        ensures
            t == QUOTE_TYPE_DEV_SOFTWARE,
    {
        QUOTE_TYPE_DEV_SOFTWARE
    }

    fn generate_quote(&self, nonce: &[u8; 32]) -> (r: Result<Vec<u8>, GuestInitError>)
        ensures
            r matches Ok(q) && q@ == dev_quote(nonce@),
    {
        let mut quote: Vec<u8> = vec![
            0x46u8, 0x4C, 0x45, 0x45, 0x54, 0x4F, 0x53, 0x2D, 0x44, 0x45, 0x56, 0x2D, 0x51, 0x55,
            0x4F, 0x54, 0x45, 0x2D, 0x56, 0x31, 0x00,
        ];
        assert(quote@ =~= dev_quote_tag());
        let mut i: usize = 0;
        while i < 32
            invariant
                i <= 32,
                quote@ == dev_quote_tag() + nonce@.subrange(0, i as int),
            decreases 32 - i,
        {
            quote.push(nonce[i]);
            i += 1;
            assert(quote@ =~= dev_quote_tag() + nonce@.subrange(0, i as int));
        }
        assert(nonce@.subrange(0, 32) =~= nonce@);
        Ok(quote)
    }
}

/// The text that reports that no generator is available.
pub open spec fn no_generator_text() -> Seq<char> {
    "no attestation quote generator available (hardware backend not present, dev-attest not enabled)"@
}

/// Selects the quote generator for this environment: a hardware-backed one
/// when present, else the development one when this build allows it, else
/// an attestation error (fail-closed).
pub fn select_quote_generator() -> (r: Result<Box<dyn QuoteGenerator>, GuestInitError>)
    ensures
        DEV_ATTEST ==> r is Ok,
        DEV_ATTEST ==> r->Ok_0.spec_quote_type() == QUOTE_TYPE_DEV_SOFTWARE,
        DEV_ATTEST ==> forall|nonce: Seq<u8>, quote: Seq<u8>|
            #[trigger] r->Ok_0.binds(nonce, quote) <==> quote == dev_quote(nonce),
        !DEV_ATTEST ==> (r matches Err(GuestInitError::Attest(m)) && m@ == no_generator_text()),
{
    if let Some(generation) = hardware_generator() {
        return Ok(generation);
    }
    dev_generator().ok_or(
        GuestInitError::Attest(
            String::from_str(
                "no attestation quote generator available (hardware backend not present, dev-attest not enabled)",
            ),
        ),
    )
}

/// The hardware-backed generator of this machine. No backend exists yet.
fn hardware_generator() -> (r: Option<Box<dyn QuoteGenerator>>)
    ensures
        r is None,
{
    None
}

/// The development generator, where this build allows it.
fn dev_generator() -> (r: Option<Box<dyn QuoteGenerator>>)
    ensures
        r is Some <==> DEV_ATTEST,
        r is Some ==> r->0.spec_quote_type() == QUOTE_TYPE_DEV_SOFTWARE,
        r is Some ==> forall|nonce: Seq<u8>, quote: Seq<u8>|
            #[trigger] r->0.binds(nonce, quote) <==> quote == dev_quote(nonce),
{
    if DEV_ATTEST {
        let r: Option<Box<dyn QuoteGenerator>> = Some(Box::new(DevSoftwareQuoteGenerator));
        assert(r->0.spec_quote_type() == QUOTE_TYPE_DEV_SOFTWARE);
        assert forall|nonce: Seq<u8>, quote: Seq<u8>|
            #[trigger] r->0.binds(nonce, quote) <==> quote == dev_quote(nonce) by {}
        r
    } else {
        None
    }
}

} // verus!
