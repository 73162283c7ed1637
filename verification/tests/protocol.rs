use fleetos_guest_init::codec::WireFormat;
use fleetos_guest_init::error::GuestInitError;
use fleetos_guest_init::protocol::{
    decode_msg, frame_msg, payload_length, AgentAttestResult, DummyIpRouteConfig,
    VolumeMountConfig, VsockAttestationChallenge, VsockAttestationProof, WorkloadConfig,
    MAX_MESSAGE_BYTES, PROTOCOL_VERSION, QUOTE_TYPE_DEV_SOFTWARE, QUOTE_TYPE_SEV_SNP,
    QUOTE_TYPE_TDX, QUOTE_TYPE_TPM2,
};

/// Round-trips a message through the framing that the socket layer uses.
fn round_trip<T: WireFormat>(msg: &T) -> T {
    let framed = frame_msg(msg).unwrap();
    let len = u32::from_le_bytes(framed[..4].try_into().unwrap()) as usize;
    assert_eq!(framed.len(), 4 + len);
    assert_eq!(payload_length([framed[0], framed[1], framed[2], framed[3]]).unwrap(), len);
    decode_msg(&framed[4..]).unwrap()
}

fn payload_of<T: WireFormat>(msg: &T) -> Vec<u8> {
    let framed = frame_msg(msg).unwrap();
    framed[4..].to_vec()
}

fn protocol_text(e: GuestInitError) -> String {
    match e {
        GuestInitError::Protocol(m) => m,
        other => panic!("expected a protocol error, got {:?}", other),
    }
}

fn sample_config() -> WorkloadConfig {
    WorkloadConfig {
        svid_cert_chain_der: vec![vec![0x30, 0x82]],
        svid_private_key_der: vec![0x04, 0x20],
        env_vars: vec![("FOO".to_string(), "bar".to_string())],
        volume_mounts: vec![VolumeMountConfig {
            name: "scratch".to_string(),
            mount_path: "/scratch".to_string(),
            read_only: false,
        }],
        dummy_ip_routes: vec![DummyIpRouteConfig {
            dummy_ip: [240, 0, 0, 45],
            service: "db".to_string(),
            role: "replica".to_string(),
            tenant: "acme".to_string(),
        }],
        workload_binary_path: "/usr/bin/app".to_string(),
        workload_args: vec!["--serve".to_string()],
        trust_domain: "fleet.example.internal".to_string(),
        tenant_id: "acme".to_string(),
        service_name: "db".to_string(),
        role: "replica".to_string(),
        guest_ip: [10, 0, 0, 2],
        netmask: [255, 255, 255, 0],
        gateway: [10, 0, 0, 1],
    }
}

#[test]
fn challenge_round_trip() {
    let c = VsockAttestationChallenge { protocol_version: PROTOCOL_VERSION, nonce: [0xAB; 32] };
    let back: VsockAttestationChallenge = round_trip(&c);
    assert_eq!(back.nonce, c.nonce);
    assert_eq!(back.protocol_version, c.protocol_version);
}

#[test]
fn proof_round_trip() {
    let p = VsockAttestationProof {
        quote_type: QUOTE_TYPE_TPM2,
        raw_quote: vec![1, 2, 3, 4],
        guest_x25519_pubkey: [0x11; 32],
    };
    let back: VsockAttestationProof = round_trip(&p);
    assert_eq!(back.quote_type, p.quote_type);
    assert_eq!(back.raw_quote, p.raw_quote);
    assert_eq!(back.guest_x25519_pubkey, p.guest_x25519_pubkey);
}

#[test]
fn config_round_trip() {
    let c = sample_config();
    let back: WorkloadConfig = round_trip(&c);
    assert_eq!(back.workload_binary_path, c.workload_binary_path);
    assert_eq!(back.dummy_ip_routes[0].dummy_ip, [240, 0, 0, 45]);
    assert_eq!(back.guest_ip, [10, 0, 0, 2]);
}

#[test]
fn config_round_trip_is_whole() {
    let c = sample_config();
    let back: WorkloadConfig = round_trip(&c);
    assert_eq!(back, c);
}

#[test]
fn attest_result_round_trip() {
    let r = AgentAttestResult { accepted: false, reason: "nonce mismatch ✗".to_string() };
    let back: AgentAttestResult = round_trip(&r);
    assert_eq!(back, r);
}

#[test]
fn protocol_constants() {
    assert_eq!(PROTOCOL_VERSION, 1);
    assert_eq!(QUOTE_TYPE_TPM2, 0);
    assert_eq!(QUOTE_TYPE_SEV_SNP, 1);
    assert_eq!(QUOTE_TYPE_TDX, 2);
    assert_eq!(QUOTE_TYPE_DEV_SOFTWARE, 0xFF);
    assert_eq!(MAX_MESSAGE_BYTES, 16 * 1024 * 1024);
    assert_eq!(fleetos_guest_init::protocol::HOST_CID, 2);
    assert_eq!(fleetos_guest_init::protocol::VSOCK_PORT, 0x4649);
}

#[test]
fn frame_layout_is_little_endian_length_then_payload() {
    let c = VsockAttestationChallenge { protocol_version: 1, nonce: [7; 32] };
    let framed = frame_msg(&c).unwrap();
    assert_eq!(&framed[..4], &[33, 0, 0, 0]);
    assert_eq!(framed[4], 1);
    assert_eq!(&framed[5..], &[7u8; 32][..]);
}

#[test]
fn challenge_matches_postcard_layout() {
    let c = VsockAttestationChallenge { protocol_version: 300, nonce: [0xAB; 32] };
    let expected = postcard::to_allocvec(&(300u32, [0xABu8; 32])).unwrap();
    assert_eq!(payload_of(&c), expected);
    // 300 is a two-byte varint: 0xAC 0x02.
    assert_eq!(&expected[..2], &[0xAC, 0x02]);
}

#[test]
fn proof_matches_postcard_layout() {
    let p = VsockAttestationProof {
        quote_type: QUOTE_TYPE_SEV_SNP,
        raw_quote: (0..200u32).map(|i| i as u8).collect(),
        guest_x25519_pubkey: [0x11; 32],
    };
    let expected = postcard::to_allocvec(&(p.quote_type, p.raw_quote.clone(), p.guest_x25519_pubkey))
        .unwrap();
    assert_eq!(payload_of(&p), expected);
}

#[test]
fn config_matches_postcard_layout() {
    let c = sample_config();
    let mounts: Vec<(String, String, bool)> = c
        .volume_mounts
        .iter()
        .map(|m| (m.name.clone(), m.mount_path.clone(), m.read_only))
        .collect();
    let routes: Vec<([u8; 4], String, String, String)> = c
        .dummy_ip_routes
        .iter()
        .map(|r| (r.dummy_ip, r.service.clone(), r.role.clone(), r.tenant.clone()))
        .collect();
    let expected = postcard::to_allocvec(&(
        c.svid_cert_chain_der.clone(),
        c.svid_private_key_der.clone(),
        c.env_vars.clone(),
        mounts,
        routes,
        c.workload_binary_path.clone(),
        c.workload_args.clone(),
        c.trust_domain.clone(),
        c.tenant_id.clone(),
        c.service_name.clone(),
        c.role.clone(),
        c.guest_ip,
        c.netmask,
        c.gateway,
    ))
    .unwrap();
    assert_eq!(payload_of(&c), expected);
}

#[test]
fn decodes_postcard_output() {
    let bytes = postcard::to_allocvec(&(true, "welcome".to_string())).unwrap();
    let r: AgentAttestResult = decode_msg(&bytes).unwrap();
    assert!(r.accepted);
    assert_eq!(r.reason, "welcome");
}

#[test]
fn trailing_bytes_are_ignored() {
    let mut bytes = payload_of(&AgentAttestResult { accepted: true, reason: "ok".to_string() });
    bytes.extend_from_slice(&[9, 9, 9]);
    let r: AgentAttestResult = decode_msg(&bytes).unwrap();
    assert_eq!(r.reason, "ok");
}

#[test]
fn non_minimal_varint_is_accepted() {
    // 1 written on two bytes; the reader takes it as postcard does.
    let mut bytes = vec![0x81, 0x00];
    bytes.extend_from_slice(&[5u8; 32]);
    let c: VsockAttestationChallenge = decode_msg(&bytes).unwrap();
    assert_eq!(c.protocol_version, 1);
    assert_eq!(c.nonce, [5u8; 32]);
}

#[test]
fn truncated_payload_is_unexpected_end() {
    let payload = payload_of(&sample_config());
    let cut = &payload[..payload.len() - 1];
    let e = decode_msg::<WorkloadConfig>(cut).unwrap_err();
    assert_eq!(protocol_text(e), "Hit the end of buffer, expected more data");
    let pe = postcard::from_bytes::<(u32, [u8; 32])>(&[1, 2, 3]).unwrap_err();
    let e = decode_msg::<VsockAttestationChallenge>(&[1, 2, 3]).unwrap_err();
    assert_eq!(protocol_text(e), pe.to_string());
}

#[test]
fn empty_payload_is_unexpected_end() {
    let e = decode_msg::<AgentAttestResult>(&[]).unwrap_err();
    assert_eq!(protocol_text(e), "Hit the end of buffer, expected more data");
}

#[test]
fn bad_bool_is_refused() {
    let bytes = [2u8, 0];
    let e = decode_msg::<AgentAttestResult>(&bytes).unwrap_err();
    let pe = postcard::from_bytes::<(bool, String)>(&bytes).unwrap_err();
    assert_eq!(protocol_text(e), "Found a bool that wasn't 0 or 1");
    assert_eq!(pe.to_string(), "Found a bool that wasn't 0 or 1");
}

#[test]
fn bad_utf8_is_refused() {
    let bytes = [1u8, 2, 0xC3, 0x28];
    let e = decode_msg::<AgentAttestResult>(&bytes).unwrap_err();
    let pe = postcard::from_bytes::<(bool, String)>(&bytes).unwrap_err();
    assert_eq!(protocol_text(e), "Tried to parse invalid utf-8");
    assert_eq!(pe.to_string(), "Tried to parse invalid utf-8");
}

#[test]
fn overlong_u32_varint_is_refused() {
    // Five bytes whose last one carries more than the 4 bits left of a u32.
    let mut bytes = vec![0xFF, 0xFF, 0xFF, 0xFF, 0x1F];
    bytes.extend_from_slice(&[0u8; 32]);
    let e = decode_msg::<VsockAttestationChallenge>(&bytes).unwrap_err();
    let pe = postcard::from_bytes::<(u32, [u8; 32])>(&bytes).unwrap_err();
    assert_eq!(protocol_text(e), pe.to_string());
    assert!(pe.to_string().starts_with("Found a varint that didn't terminate"));
    // Five continuation bytes never terminate.
    let mut bytes = vec![0x80, 0x80, 0x80, 0x80, 0x80, 0x00];
    bytes.extend_from_slice(&[0u8; 32]);
    let e = decode_msg::<VsockAttestationChallenge>(&bytes).unwrap_err();
    assert!(protocol_text(e).starts_with("Found a varint that didn't terminate"));
    // The largest u32 is accepted.
    let mut bytes = vec![0xFF, 0xFF, 0xFF, 0xFF, 0x0F];
    bytes.extend_from_slice(&[0u8; 32]);
    let c: VsockAttestationChallenge = decode_msg(&bytes).unwrap();
    assert_eq!(c.protocol_version, u32::MAX);
}

#[test]
fn length_past_end_is_unexpected_end() {
    // quote type, then a byte string that claims 5 bytes but has 2.
    let bytes = [0u8, 5, 1, 2];
    let e = decode_msg::<VsockAttestationProof>(&bytes).unwrap_err();
    assert_eq!(protocol_text(e), "Hit the end of buffer, expected more data");
}

#[test]
fn payload_length_enforces_the_cap() {
    assert_eq!(payload_length([0, 0, 0, 1]).unwrap(), MAX_MESSAGE_BYTES);
    assert_eq!(payload_length([0x10, 0x27, 0, 0]).unwrap(), 10_000);
    assert_eq!(payload_length([0, 0, 0, 0]).unwrap(), 0);
    let e = payload_length([1, 0, 0, 1]).unwrap_err();
    assert_eq!(protocol_text(e), "message too large: 16777217 bytes (max 16777216)");
    let e = payload_length([0x00, 0x00, 0x0A, 0x01]).unwrap_err();
    assert_eq!(protocol_text(e), "message too large: 17432576 bytes (max 16777216)");
    let e = payload_length([0xFF, 0xFF, 0xFF, 0xFF]).unwrap_err();
    assert_eq!(protocol_text(e), "message too large: 4294967295 bytes (max 16777216)");
}

#[test]
fn oversized_message_is_not_framed() {
    let p = VsockAttestationProof {
        quote_type: QUOTE_TYPE_TDX,
        raw_quote: vec![0; MAX_MESSAGE_BYTES],
        guest_x25519_pubkey: [0; 32],
    };
    // 1 byte of quote type, 4 bytes of length, the quote and the key.
    let e = frame_msg(&p).unwrap_err();
    assert_eq!(
        protocol_text(e),
        format!("message too large: {} bytes (max 16777216)", MAX_MESSAGE_BYTES + 1 + 4 + 32)
    );
}

#[test]
fn largest_message_is_framed() {
    let p = VsockAttestationProof {
        quote_type: QUOTE_TYPE_TDX,
        raw_quote: vec![3; MAX_MESSAGE_BYTES - 1 - 4 - 32],
        guest_x25519_pubkey: [0; 32],
    };
    let framed = frame_msg(&p).unwrap();
    assert_eq!(&framed[..4], &[0, 0, 0, 1]);
    let back: VsockAttestationProof = round_trip(&p);
    assert_eq!(back.raw_quote.len(), MAX_MESSAGE_BYTES - 37);
}
