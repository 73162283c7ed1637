use fleetos_guest_init::attest::{
    select_quote_generator, DevSoftwareQuoteGenerator, QuoteGenerator, DEV_ATTEST,
};
use fleetos_guest_init::error::GuestInitError;
use fleetos_guest_init::handshake::{build_proof, proof_from_quote};
use fleetos_guest_init::protocol::QUOTE_TYPE_DEV_SOFTWARE;

#[test]
fn dev_quote_is_tag_then_nonce() {
    let nonce = [0x5Au8; 32];
    let quote = DevSoftwareQuoteGenerator.generate_quote(&nonce).unwrap();
    let mut expected = b"FLEETOS-DEV-QUOTE-V1\0".to_vec();
    expected.extend_from_slice(&nonce);
    assert_eq!(quote, expected);
    assert_eq!(quote.len(), 21 + 32);
}

#[test]
fn dev_quote_binds_the_nonce() {
    let a = DevSoftwareQuoteGenerator.generate_quote(&[1; 32]).unwrap();
    let b = DevSoftwareQuoteGenerator.generate_quote(&[2; 32]).unwrap();
    assert_ne!(a, b);
    assert_eq!(&a[21..], &[1u8; 32][..]);
}

#[test]
fn dev_quote_type_is_dev_software() {
    assert_eq!(DevSoftwareQuoteGenerator.quote_type(), QUOTE_TYPE_DEV_SOFTWARE);
    assert_eq!(DevSoftwareQuoteGenerator.quote_type(), 0xFF);
}

#[test]
fn selection_fails_closed_without_hardware() {
    assert!(!DEV_ATTEST);
    match select_quote_generator() {
        Err(GuestInitError::Attest(m)) => assert_eq!(
            m,
            "no attestation quote generator available (hardware backend not present, \
             dev-attest not enabled)"
        ),
        Err(other) => panic!("unexpected error {:?}", other),
        Ok(_) => panic!("a generator was selected"),
    }
}

#[test]
fn proof_from_dev_generator() {
    let nonce = [9u8; 32];
    let proof = build_proof(&DevSoftwareQuoteGenerator, &nonce, [0x42; 32]).unwrap();
    assert_eq!(proof.quote_type, QUOTE_TYPE_DEV_SOFTWARE);
    assert_eq!(proof.guest_x25519_pubkey, [0x42; 32]);
    assert_eq!(proof.raw_quote, DevSoftwareQuoteGenerator.generate_quote(&nonce).unwrap());
}

struct FailingGenerator;

impl QuoteGenerator for FailingGenerator {
    fn spec_quote_type(&self) -> u8 {
        2
    }

    fn quote_type(&self) -> u8 {
        2
    }

    fn generate_quote(&self, _nonce: &[u8; 32]) -> Result<Vec<u8>, GuestInitError> {
        Err(GuestInitError::Attest("tdx module busy".to_string()))
    }
}

#[test]
fn generator_error_aborts_the_proof() {
    match build_proof(&FailingGenerator, &[0; 32], [0; 32]) {
        Err(GuestInitError::Attest(m)) => assert_eq!(m, "tdx module busy"),
        other => panic!("unexpected {:?}", other.map(|p| p.quote_type)),
    }
}

#[test]
fn proof_from_quote_outcomes() {
    let p = proof_from_quote(Ok(vec![1, 2]), 1, [7; 32]).unwrap();
    assert_eq!(p.quote_type, 1);
    assert_eq!(p.raw_quote, vec![1, 2]);
    assert_eq!(p.guest_x25519_pubkey, [7; 32]);
    match proof_from_quote(Err(GuestInitError::Attest("no tpm".to_string())), 0, [0; 32]) {
        Err(GuestInitError::Attest(m)) => assert_eq!(m, "no tpm"),
        other => panic!("unexpected {:?}", other.map(|p| p.quote_type)),
    }
}
