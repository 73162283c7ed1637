use fleetos_guest_init::error::GuestInitError;
use fleetos_guest_init::network_plan::{
    ifreq_name, plan_network, raise_up_flag, AddressKind, Interface, NetworkStep, IFNAMSIZ,
};
use fleetos_guest_init::protocol::WorkloadConfig;

fn config(guest_ip: [u8; 4], netmask: [u8; 4], gateway: [u8; 4]) -> WorkloadConfig {
    WorkloadConfig {
        svid_cert_chain_der: vec![],
        svid_private_key_der: vec![],
        env_vars: vec![],
        volume_mounts: vec![],
        dummy_ip_routes: vec![],
        workload_binary_path: String::new(),
        workload_args: vec![],
        trust_domain: String::new(),
        tenant_id: String::new(),
        service_name: String::new(),
        role: String::new(),
        guest_ip,
        netmask,
        gateway,
    }
}

fn describe(step: &NetworkStep) -> String {
    match step {
        NetworkStep::SetAddress { iface, ip, kind } => {
            format!("{} {:?} {:?}", iface.name(), kind, ip)
        }
        NetworkStep::BringUp { iface } => format!("{} up", iface.name()),
        NetworkStep::AddDefaultRoute { gateway, iface } => {
            format!("route {:?} dev {}", gateway, iface.name())
        }
    }
}

#[test]
fn full_configuration_plan() {
    let steps = plan_network(&config([10, 0, 0, 2], [255, 255, 255, 0], [10, 0, 0, 1]));
    let text: Vec<String> = steps.iter().map(describe).collect();
    assert_eq!(
        text,
        vec![
            "lo Address [127, 0, 0, 1]",
            "lo up",
            "eth0 Address [10, 0, 0, 2]",
            "eth0 Netmask [255, 255, 255, 0]",
            "eth0 up",
            "route [10, 0, 0, 1] dev eth0",
        ]
    );
    assert_eq!(steps.iter().filter(|s| !s.is_fatal()).count(), 1);
    assert!(!steps[5].is_fatal());
}

#[test]
fn unset_addresses_skip_their_steps() {
    let steps = plan_network(&config([0, 0, 0, 0], [255, 0, 0, 0], [0, 0, 0, 0]));
    let text: Vec<String> = steps.iter().map(describe).collect();
    assert_eq!(text, vec!["lo Address [127, 0, 0, 1]", "lo up", "eth0 up"]);
    assert!(steps.iter().all(|s| s.is_fatal()));
}

#[test]
fn gateway_without_address() {
    let steps = plan_network(&config([0, 0, 0, 0], [0, 0, 0, 0], [192, 168, 0, 1]));
    assert_eq!(steps.len(), 4);
    assert!(matches!(
        steps[3],
        NetworkStep::AddDefaultRoute { gateway: [192, 168, 0, 1], iface: Interface::Eth0 }
    ));
    assert!(matches!(
        steps[0],
        NetworkStep::SetAddress { iface: Interface::Loopback, kind: AddressKind::Address, .. }
    ));
}

#[test]
fn ifreq_name_pads_with_zeros() {
    let field = ifreq_name("eth0").unwrap();
    let mut expected = [0u8; 16];
    expected[..4].copy_from_slice(b"eth0");
    assert_eq!(field, expected);
    assert_eq!(ifreq_name("").unwrap(), [0u8; 16]);
    let longest = "a".repeat(IFNAMSIZ - 1);
    assert_eq!(&ifreq_name(&longest).unwrap()[..15], longest.as_bytes());
}

#[test]
fn ifreq_name_too_long() {
    match ifreq_name(&"x".repeat(IFNAMSIZ)) {
        Err(GuestInitError::Network(m)) => assert_eq!(m, "interface name too long"),
        other => panic!("unexpected {:?}", other),
    }
}

#[test]
fn up_flag_is_raised() {
    assert_eq!(raise_up_flag(0), 1);
    assert_eq!(raise_up_flag(0x1042), 0x1043);
    assert_eq!(raise_up_flag(1), 1);
    assert_eq!(raise_up_flag(-2), -1);
}
