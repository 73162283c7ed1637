use fleetos_guest_init::error::GuestInitError;
use fleetos_guest_init::handshake::{
    handshake_step, provision_step, GuestAction, HandshakePhase, HostMessage, ProvisionStep,
};
use fleetos_guest_init::protocol::{
    AgentAttestResult, VsockAttestationChallenge, WorkloadConfig, PROTOCOL_VERSION,
};

fn config() -> WorkloadConfig {
    WorkloadConfig {
        svid_cert_chain_der: vec![],
        svid_private_key_der: vec![],
        env_vars: vec![],
        volume_mounts: vec![],
        dummy_ip_routes: vec![],
        workload_binary_path: "/bin/true".to_string(),
        workload_args: vec![],
        trust_domain: "td".to_string(),
        tenant_id: "t".to_string(),
        service_name: "s".to_string(),
        role: "r".to_string(),
        guest_ip: [0, 0, 0, 0],
        netmask: [0, 0, 0, 0],
        gateway: [0, 0, 0, 0],
    }
}

#[test]
fn full_handshake_provisions() {
    let challenge = VsockAttestationChallenge { protocol_version: PROTOCOL_VERSION, nonce: [3; 32] };
    let (phase, action) =
        handshake_step(HandshakePhase::AwaitChallenge, HostMessage::Challenge(challenge)).unwrap();
    assert_eq!(phase, HandshakePhase::AwaitVerdict);
    match action {
        GuestAction::Attest { nonce } => assert_eq!(nonce, [3; 32]),
        _ => panic!("expected an attest action"),
    }
    let verdict = AgentAttestResult { accepted: true, reason: String::new() };
    let (phase, action) = handshake_step(phase, HostMessage::Verdict(verdict)).unwrap();
    assert_eq!(phase, HandshakePhase::AwaitConfig);
    assert!(matches!(action, GuestAction::ReceiveConfig));
    let (phase, action) = handshake_step(phase, HostMessage::Config(config())).unwrap();
    assert_eq!(phase, HandshakePhase::Provisioned);
    match action {
        GuestAction::Provision(c) => assert_eq!(c, config()),
        _ => panic!("expected a provision action"),
    }
}

#[test]
fn version_mismatch_is_refused() {
    let challenge = VsockAttestationChallenge { protocol_version: 7, nonce: [0; 32] };
    match handshake_step(HandshakePhase::AwaitChallenge, HostMessage::Challenge(challenge)) {
        Err(GuestInitError::Protocol(m)) => {
            assert_eq!(m, "protocol version mismatch: agent=7, guest=1")
        }
        _ => panic!("expected a protocol error"),
    }
}

#[test]
fn rejected_quote_is_refused() {
    let verdict = AgentAttestResult { accepted: false, reason: "nonce mismatch".to_string() };
    match handshake_step(HandshakePhase::AwaitVerdict, HostMessage::Verdict(verdict)) {
        Err(e @ GuestInitError::Attest(_)) => {
            assert_eq!(e.describe(), "attestation: agent rejected quote: nonce mismatch")
        }
        _ => panic!("expected an attestation error"),
    }
}

#[test]
fn provisioning_runs_in_order() {
    let mut steps = Vec::new();
    let mut done = 0usize;
    while let Some(step) = provision_step(done) {
        steps.push(step);
        done += 1;
    }
    assert_eq!(
        steps,
        vec![
            ProvisionStep::CloseChannel,
            ProvisionStep::SetupEnvironment,
            ProvisionStep::BringUpNetwork,
            ProvisionStep::ExecWorkload,
        ]
    );
    assert_eq!(provision_step(4), None);
    assert_eq!(provision_step(usize::MAX), None);
}
