//! Network bring-up, decided here and carried out by the I/O layer:
//! loopback first, then `eth0` with its address, netmask and default route.
//!
//! The I/O layer runs these steps only once the handshake has provisioned
//! the guest (see [`crate::handshake`]), so the NIC never goes live before
//! the host has armed its policy.

use vstd::prelude::*;
use vstd::string::*;
use crate::error::GuestInitError;
use crate::protocol::WorkloadConfig;

verus! {

/// Size of the interface name field of `struct ifreq`, its NUL included.
pub const IFNAMSIZ: usize = 16;

/// The `IFF_UP` interface flag.
pub const IFF_UP: i16 = 0x1;

/// An interface the guest configures.
#[derive(Clone, Copy, Debug, PartialEq, Eq, Structural)]
pub enum Interface {
    /// `lo`
    Loopback,
    /// `eth0`
    Eth0,
}

/// Which IPv4 setting an address step writes.
#[derive(Clone, Copy, Debug, PartialEq, Eq, Structural)]
pub enum AddressKind {
    /// The interface address (`SIOCSIFADDR`).
    Address,
    /// The interface netmask (`SIOCSIFNETMASK`).
    Netmask,
}

/// One step of network bring-up.
#[derive(Clone, Copy, Debug)]
pub enum NetworkStep {
    /// Write `ip` as the `kind` setting of `iface`.
    SetAddress { iface: Interface, ip: [u8; 4], kind: AddressKind },
    /// Raise `IFF_UP` on `iface`.
    BringUp { iface: Interface },
    /// Add the default route through `gateway` on `iface`.
    AddDefaultRoute { gateway: [u8; 4], iface: Interface },
}

impl Interface {
    /// The kernel name of the interface.
    pub fn name(&self) -> (s: &'static str)
        ensures
            s@ == match self {
                Interface::Loopback => "lo"@,
                Interface::Eth0 => "eth0"@,
            },
    {
        match self {
            Interface::Loopback => "lo",
            Interface::Eth0 => "eth0",
        }
    }
}

impl NetworkStep {
    /// Whether a failure of this step aborts initialisation. Only the
    /// default route may fail: the interface is up by then and the agent can
    /// repair routing.
    pub fn is_fatal(&self) -> (r: bool)
        ensures
            r == !(self is AddDefaultRoute),
    {
        match self {
            NetworkStep::AddDefaultRoute { .. } => false,
            _ => true,
        }
    }
}

/// `ip` is `0.0.0.0`, which means "not configured".
pub open spec fn unspecified(ip: Seq<u8>) -> bool {
    ip == seq![0u8, 0, 0, 0]
}

/// The steps that bring up the network for a configuration with these
/// addresses, in order: loopback gets 127.0.0.1 and comes up; `eth0` gets
/// the guest address and netmask when the address is set, and comes up;
/// the default route goes through the gateway when the gateway is set.
pub open spec fn network_steps(guest_ip: [u8; 4], netmask: [u8; 4], gateway: [u8; 4]) -> Seq<
    NetworkStep,
> {
    let lo = seq![
        NetworkStep::SetAddress {
            iface: Interface::Loopback,
            ip: [127u8, 0, 0, 1],
            kind: AddressKind::Address,
        },
        NetworkStep::BringUp { iface: Interface::Loopback },
    ];
    let addr = if unspecified(guest_ip@) {
        seq![]
    } else {
        seq![
            NetworkStep::SetAddress { iface: Interface::Eth0, ip: guest_ip, kind: AddressKind::Address },
            NetworkStep::SetAddress { iface: Interface::Eth0, ip: netmask, kind: AddressKind::Netmask },
        ]
    };
    let route = if unspecified(gateway@) {
        seq![]
    } else {
        seq![NetworkStep::AddDefaultRoute { gateway, iface: Interface::Eth0 }]
    };
    lo + addr + seq![NetworkStep::BringUp { iface: Interface::Eth0 }] + route
}

fn is_unspecified(ip: &[u8; 4]) -> (r: bool)
    ensures
        r == unspecified(ip@),
{
    let r = ip[0] == 0 && ip[1] == 0 && ip[2] == 0 && ip[3] == 0;
    assert(r ==> ip@ =~= seq![0u8, 0, 0, 0]);
    r
}

/// The steps that bring up the network for `config`.
pub fn plan_network(config: &WorkloadConfig) -> (steps: Vec<NetworkStep>)
    ensures
        steps@ == network_steps(config.guest_ip, config.netmask, config.gateway),
{
    let mut steps: Vec<NetworkStep> = Vec::new();
    steps.push(
        NetworkStep::SetAddress {
            iface: Interface::Loopback,
            ip: [127u8, 0, 0, 1],
            kind: AddressKind::Address,
        },
    );
    steps.push(NetworkStep::BringUp { iface: Interface::Loopback });
    if !is_unspecified(&config.guest_ip) {
        steps.push(
            NetworkStep::SetAddress {
                iface: Interface::Eth0,
                ip: config.guest_ip,
                kind: AddressKind::Address,
            },
        );
        steps.push(
            NetworkStep::SetAddress {
                iface: Interface::Eth0,
                ip: config.netmask,
                kind: AddressKind::Netmask,
            },
        );
    }
    steps.push(NetworkStep::BringUp { iface: Interface::Eth0 });
    if !is_unspecified(&config.gateway) {
        steps.push(NetworkStep::AddDefaultRoute { gateway: config.gateway, iface: Interface::Eth0 });
    }
    assert(steps@ =~= network_steps(config.guest_ip, config.netmask, config.gateway));
    steps
}

/// The text that refuses an interface name that does not fit `struct ifreq`.
pub open spec fn name_too_long_text() -> Seq<char> {
    "interface name too long"@
}

/// The name field of `struct ifreq` for interface `name`: its bytes, then
/// zeros. A name of [`IFNAMSIZ`] bytes or more leaves no room for the NUL
/// and is refused with a network error.
pub fn ifreq_name(name: &str) -> (r: Result<[u8; 16], GuestInitError>)
    ensures
        match r {
            Ok(field) => {
                &&& name.spec_bytes().len() < IFNAMSIZ
                &&& field@ == name.spec_bytes() + Seq::new(
                    (16 - name.spec_bytes().len()) as nat,
                    |i: int| 0u8,
                )
            },
            Err(e) => {
                &&& name.spec_bytes().len() >= IFNAMSIZ
                &&& e matches GuestInitError::Network(m) && m@ == name_too_long_text()
            },
        },
{
    let bytes = name.as_bytes();
    if bytes.len() >= IFNAMSIZ {
        return Err(GuestInitError::Network(String::from_str("interface name too long")));
    }
    let mut field = [0u8; 16];
    let mut i: usize = 0;
    while i < bytes.len()
        invariant
            i <= bytes@.len() < 16,
            forall|j: int| 0 <= j < i ==> field@[j] == bytes@[j],
            forall|j: int| bytes@.len() <= j < 16 ==> field@[j] == 0,
        decreases bytes@.len() - i,
    {
        field[i] = bytes[i];
        i += 1;
    }
    assert(field@ =~= bytes@ + Seq::new((16 - bytes@.len()) as nat, |i: int| 0u8));
    Ok(field)
}

/// The interface flags with `IFF_UP` raised.
pub fn raise_up_flag(flags: i16) -> (r: i16)
    ensures
        r == flags | IFF_UP,
{
    flags | IFF_UP
}

/// Addressing law: `eth0` gets the guest address and then the netmask, just
/// before it comes up, exactly when the guest address is not 0.0.0.0,
/// whatever the gateway; loopback always comes first; and the default route
/// is added, last, exactly when the gateway is not 0.0.0.0.
pub proof fn lemma_eth0_addressing(guest_ip: [u8; 4], netmask: [u8; 4], gateway: [u8; 4], other_gateway: [u8; 4])
    ensures
        ({
            let steps = network_steps(guest_ip, netmask, gateway);
            let eth0_up = if guest_ip@ == seq![0u8, 0, 0, 0] { 2int } else { 4int };
            &&& steps[0] == NetworkStep::SetAddress {
                iface: Interface::Loopback,
                ip: [127u8, 0, 0, 1],
                kind: AddressKind::Address,
            }
            &&& steps[1] == NetworkStep::BringUp { iface: Interface::Loopback }
            &&& guest_ip@ != seq![0u8, 0, 0, 0] ==> {
                &&& steps[2] == NetworkStep::SetAddress {
                    iface: Interface::Eth0,
                    ip: guest_ip,
                    kind: AddressKind::Address,
                }
                &&& steps[3] == NetworkStep::SetAddress {
                    iface: Interface::Eth0,
                    ip: netmask,
                    kind: AddressKind::Netmask,
                }
            }
            &&& steps[eth0_up] == NetworkStep::BringUp { iface: Interface::Eth0 }
            &&& steps.len() == eth0_up + 1 + if gateway@ == seq![0u8, 0, 0, 0] { 0int } else { 1int }
            &&& gateway@ != seq![0u8, 0, 0, 0] ==> steps[eth0_up + 1]
                == NetworkStep::AddDefaultRoute { gateway, iface: Interface::Eth0 }
            &&& steps.take(eth0_up + 1) == network_steps(guest_ip, netmask, other_gateway).take(
                eth0_up + 1,
            )
        }),
{
    let steps = network_steps(guest_ip, netmask, gateway);
    let other = network_steps(guest_ip, netmask, other_gateway);
    let eth0_up = if guest_ip@ == seq![0u8, 0, 0, 0] { 2int } else { 4int };
    assert(steps.take(eth0_up + 1) =~= other.take(eth0_up + 1));
}

} // verus!
