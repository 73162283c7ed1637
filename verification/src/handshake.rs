//! The guest's side of the attestation handshake, as a state machine.
//!
//! The I/O layer reads each host message, hands it to [`handshake_step`],
//! and carries out the action it gets back: answer a challenge with a proof,
//! wait for the configuration, or provision the workload. Provisioning
//! (environment, then network, then the workload) is only ever asked for
//! after an accepted verdict and a received configuration.

use vstd::prelude::*;
use vstd::string::*;
use crate::attest::QuoteGenerator;
use crate::error::GuestInitError;
use crate::protocol::{
    AgentAttestResult, PROTOCOL_VERSION, VsockAttestationChallenge, VsockAttestationProof,
    WorkloadConfig,
};
use crate::text::{decimal, decimal_string};

verus! {

/// Where the guest stands in the handshake.
#[derive(Clone, Copy, Debug, PartialEq, Eq, Structural)]
pub enum HandshakePhase {
    /// Waiting for the agent's challenge.
    AwaitChallenge,
    /// The proof was sent; waiting for the agent's verdict.
    AwaitVerdict,
    /// The proof was accepted; waiting for the workload configuration.
    AwaitConfig,
    /// The configuration arrived; the handshake is over.
    Provisioned,
}

/// A message from the host agent.
pub enum HostMessage {
    Challenge(VsockAttestationChallenge),
    Verdict(AgentAttestResult),
    Config(WorkloadConfig),
}

/// What the I/O layer does next.
pub enum GuestAction {
    /// Generate a quote bound to `nonce`, send the proof, then read the verdict.
    Attest { nonce: [u8; 32] },
    /// Read the workload configuration.
    ReceiveConfig,
    /// Provision the workload of this configuration, step by step as
    /// [`provision_step`] gives them.
    Provision(WorkloadConfig),
}

/// The message that `phase` waits for.
pub open spec fn awaits(phase: HandshakePhase, msg: HostMessage) -> bool {
    match phase {
        HandshakePhase::AwaitChallenge => msg is Challenge,
        HandshakePhase::AwaitVerdict => msg is Verdict,
        HandshakePhase::AwaitConfig => msg is Config,
        HandshakePhase::Provisioned => false,
    }
}

/// The phase after `msg`, or `None` when the guest must abort.
pub open spec fn next_phase(phase: HandshakePhase, msg: HostMessage) -> Option<HandshakePhase> {
    match (phase, msg) {
        (HandshakePhase::AwaitChallenge, HostMessage::Challenge(c)) => {
            if c.protocol_version == PROTOCOL_VERSION {
                Some(HandshakePhase::AwaitVerdict)
            } else {
                None
            }
        },
        (HandshakePhase::AwaitVerdict, HostMessage::Verdict(v)) => {
            if v.accepted {
                Some(HandshakePhase::AwaitConfig)
            } else {
                None
            }
        },
        (HandshakePhase::AwaitConfig, HostMessage::Config(_)) => Some(HandshakePhase::Provisioned),
        _ => None,
    }
}

/// The phase reached from `phase` after `msgs`, in order; `None` once the
/// guest aborts.
pub open spec fn phase_after(phase: HandshakePhase, msgs: Seq<HostMessage>) -> Option<
    HandshakePhase,
>
    decreases msgs.len(),
{
    if msgs.len() == 0 {
        Some(phase)
    } else {
        match next_phase(phase, msgs[0]) {
            Some(p) => phase_after(p, msgs.drop_first()),
            None => None,
        }
    }
}

/// The text that refuses a challenge of another protocol version.
pub open spec fn version_mismatch_text(agent: u32) -> Seq<char> {
    "protocol version mismatch: agent="@ + decimal(agent as nat) + ", guest="@ + decimal(
        PROTOCOL_VERSION as nat,
    )
}

/// The text that reports a rejected quote.
pub open spec fn rejected_text(reason: Seq<char>) -> Seq<char> {
    "agent rejected quote: "@ + reason
}

/// Decides what follows the host message `msg` in `phase`.
///
/// A challenge of another protocol version is a protocol error and a
/// rejected verdict an attestation error; both abort the handshake.
pub fn handshake_step(phase: HandshakePhase, msg: HostMessage) -> (r: Result<
    (HandshakePhase, GuestAction),
    GuestInitError,
>)
    requires
        awaits(phase, msg),
    ensures
        match r {
            Ok((p, _)) => next_phase(phase, msg) == Some(p),
            Err(_) => next_phase(phase, msg) is None,
        },
        match (msg, r) {
            (HostMessage::Challenge(c), Ok((_, a))) => a matches GuestAction::Attest { nonce } && nonce
                == c.nonce,
            (HostMessage::Challenge(c), Err(e)) => e matches GuestInitError::Protocol(m) && m@
                == version_mismatch_text(c.protocol_version),
            (HostMessage::Verdict(_), Ok((_, a))) => a is ReceiveConfig,
            (HostMessage::Verdict(v), Err(e)) => e matches GuestInitError::Attest(m) && m@
                == rejected_text(v.reason@),
            (HostMessage::Config(c), Ok((_, a))) => a == GuestAction::Provision(c),
            (HostMessage::Config(_), Err(_)) => false,
        },
{
    match msg {
        HostMessage::Challenge(c) => {
            if c.protocol_version != PROTOCOL_VERSION {
                let agent = decimal_string(c.protocol_version as u64);
                let guest = decimal_string(PROTOCOL_VERSION as u64);
                let m = String::from_str("protocol version mismatch: agent=").concat(
                    agent.as_str(),
                ).concat(", guest=").concat(guest.as_str());
                return Err(GuestInitError::Protocol(m));
            }
            Ok((HandshakePhase::AwaitVerdict, GuestAction::Attest { nonce: c.nonce }))
        },
        HostMessage::Verdict(v) => {
            if !v.accepted {
                let m = String::from_str("agent rejected quote: ").concat(v.reason.as_str());
                return Err(GuestInitError::Attest(m));
            }
            Ok((HandshakePhase::AwaitConfig, GuestAction::ReceiveConfig))
        },
        HostMessage::Config(c) => Ok((HandshakePhase::Provisioned, GuestAction::Provision(c))),
    }
}

/// The proof made of a generator's outcome: its quote, tagged with
/// `quote_type`, and the guest's sealing public key; a generator error is
/// passed on unchanged.
pub fn proof_from_quote(
    quote: Result<Vec<u8>, GuestInitError>,
    quote_type: u8,
    sealing_pubkey: [u8; 32],
) -> (r: Result<VsockAttestationProof, GuestInitError>)
    ensures
        match quote {
            Ok(q) => r == Ok::<VsockAttestationProof, GuestInitError>(
                VsockAttestationProof {
                    quote_type,
                    raw_quote: q,
                    guest_x25519_pubkey: sealing_pubkey,
                },
            ),
            Err(e) => r == Err::<VsockAttestationProof, GuestInitError>(e),
        },
{
    match quote {
        Ok(raw_quote) => Ok(
            VsockAttestationProof { quote_type, raw_quote, guest_x25519_pubkey: sealing_pubkey },
        ),
        Err(e) => Err(e),
    }
}

/// Builds the proof that answers a challenge: a quote over `nonce` from
/// `generator`, tagged with the generator's quote type, and the guest's
/// sealing public key. An error of the generator aborts the handshake.
pub fn build_proof(
    generator: &dyn QuoteGenerator,
    nonce: &[u8; 32],
    sealing_pubkey: [u8; 32],
) -> (r: Result<VsockAttestationProof, GuestInitError>)
    ensures
        r matches Ok(p) ==> {
            &&& p.quote_type == generator.spec_quote_type()
            &&& generator.binds(nonce@, p.raw_quote@)
            &&& p.guest_x25519_pubkey == sealing_pubkey
        },
{
    proof_from_quote(generator.generate_quote(nonce), generator.quote_type(), sealing_pubkey)
}

/// Boot-race law: the guest is provisioned (and so its network comes up)
/// only after exactly a challenge of this protocol version, an accepted
/// verdict and a configuration, in that order; and those three always
/// provision it.
pub proof fn lemma_provisioned_only_after_attestation(msgs: Seq<HostMessage>)
    ensures
        phase_after(HandshakePhase::AwaitChallenge, msgs) == Some(HandshakePhase::Provisioned)
            <==> {
            &&& msgs.len() == 3
            &&& msgs[0] matches HostMessage::Challenge(c) && c.protocol_version == PROTOCOL_VERSION
            &&& msgs[1] matches HostMessage::Verdict(v) && v.accepted
            &&& msgs[2] is Config
        },
{
    reveal_with_fuel(phase_after, 5);
    if msgs.len() >= 1 {
        let m1 = msgs.drop_first();
        if m1.len() >= 1 {
            let m2 = m1.drop_first();
            assert(m1[0] == msgs[1]);
            if m2.len() >= 1 {
                let m3 = m2.drop_first();
                assert(m2[0] == msgs[2]);
                if m3.len() >= 1 {
                    assert(phase_after(HandshakePhase::Provisioned, m3) is None);
                }
            }
        }
    }
}

/// One operation of the guest on the VSOCK channel.
#[derive(Clone, Copy, Debug, PartialEq, Eq, Structural)]
pub enum ChannelOp {
    ReadChallenge,
    WriteProof,
    ReadVerdict,
    ReadConfig,
    Close,
}

/// The read that `phase` calls for.
pub open spec fn read_op(phase: HandshakePhase) -> Option<ChannelOp> {
    match phase {
        HandshakePhase::AwaitChallenge => Some(ChannelOp::ReadChallenge),
        HandshakePhase::AwaitVerdict => Some(ChannelOp::ReadVerdict),
        HandshakePhase::AwaitConfig => Some(ChannelOp::ReadConfig),
        HandshakePhase::Provisioned => None,
    }
}

/// What the guest does on the channel on entering `phase`: after the
/// challenge it writes the proof (the `Attest` action); once provisioned it
/// closes the channel before anything else (the `Provision` action).
pub open spec fn entry_ops(phase: HandshakePhase) -> Seq<ChannelOp> {
    match phase {
        HandshakePhase::AwaitVerdict => seq![ChannelOp::WriteProof],
        HandshakePhase::Provisioned => seq![ChannelOp::Close],
        _ => seq![],
    }
}

/// The operations on the channel from `phase` when the host's messages are
/// `msgs`: for each message, the read that the phase calls for, then what
/// the step asks for; nothing more once the guest aborts.
pub open spec fn channel_ops(phase: HandshakePhase, msgs: Seq<HostMessage>) -> Seq<ChannelOp>
    decreases msgs.len(),
{
    if msgs.len() == 0 {
        seq![]
    } else {
        match read_op(phase) {
            None => seq![],
            Some(op) => match next_phase(phase, msgs[0]) {
                None => seq![op],
                Some(p) => seq![op] + entry_ops(p) + channel_ops(p, msgs.drop_first()),
            },
        }
    }
}

/// The whole exchange of the protocol, from the guest's side.
pub open spec fn handshake_ops() -> Seq<ChannelOp> {
    seq![
        ChannelOp::ReadChallenge,
        ChannelOp::WriteProof,
        ChannelOp::ReadVerdict,
        ChannelOp::ReadConfig,
        ChannelOp::Close,
    ]
}

/// Message-sequence law: whatever the host sends, the guest's operations on
/// the channel are a prefix of: read the challenge, write the proof, read the
/// verdict, read the configuration, close. It reads the configuration only
/// after an accepted verdict that followed a challenge of this protocol
/// version.
pub proof fn lemma_channel_ops_follow_protocol(msgs: Seq<HostMessage>)
    ensures
        ({
            let ops = channel_ops(HandshakePhase::AwaitChallenge, msgs);
            &&& ops.len() <= 5
            &&& ops == handshake_ops().take(ops.len() as int)
            &&& ops.len() >= 4 ==> {
                &&& msgs[0] matches HostMessage::Challenge(c) && c.protocol_version
                    == PROTOCOL_VERSION
                &&& msgs[1] matches HostMessage::Verdict(v) && v.accepted
            }
        }),
{
    reveal_with_fuel(channel_ops, 5);
    let ops = channel_ops(HandshakePhase::AwaitChallenge, msgs);
    if msgs.len() >= 1 {
        let m1 = msgs.drop_first();
        if m1.len() >= 1 {
            let m2 = m1.drop_first();
            assert(m1[0] == msgs[1]);
            if m2.len() >= 1 {
                let m3 = m2.drop_first();
                assert(m2[0] == msgs[2]);
                assert(channel_ops(HandshakePhase::Provisioned, m3) == Seq::<ChannelOp>::empty());
            }
        }
    }
    assert(ops =~= handshake_ops().take(ops.len() as int));
}

/// A step of provisioning, once the handshake is over.
#[derive(Clone, Copy, Debug, PartialEq, Eq, Structural)]
pub enum ProvisionStep {
    /// Close the VSOCK channel.
    CloseChannel,
    /// Set up the workload environment; the network is still down.
    SetupEnvironment,
    /// Bring up the network.
    BringUpNetwork,
    /// Replace this process with the workload.
    ExecWorkload,
}

/// The provisioning steps, in the order they run.
pub open spec fn provision_order() -> Seq<ProvisionStep> {
    seq![
        ProvisionStep::CloseChannel,
        ProvisionStep::SetupEnvironment,
        ProvisionStep::BringUpNetwork,
        ProvisionStep::ExecWorkload,
    ]
}

/// The provisioning step to run once `done` steps have succeeded; `None`
/// once all have.
pub fn provision_step(done: usize) -> (r: Option<ProvisionStep>)
    ensures
        done < 4 ==> r == Some(provision_order()[done as int]),
        done >= 4 ==> r is None,
{
    match done {
        0 => Some(ProvisionStep::CloseChannel),
        1 => Some(ProvisionStep::SetupEnvironment),
        2 => Some(ProvisionStep::BringUpNetwork),
        3 => Some(ProvisionStep::ExecWorkload),
        _ => None,
    }
}

/// The steps run from step `i` on when the outcome of step `k` is
/// `outcomes[k]` (true for success): each step in [`provision_order`],
/// asked for by [`provision_step`], stopping after the first that fails.
pub open spec fn steps_run(outcomes: Seq<bool>, i: nat) -> Seq<ProvisionStep>
    decreases 4 - i,
{
    if i >= 4 {
        seq![]
    } else if i < outcomes.len() && outcomes[i as int] {
        seq![provision_order()[i as int]] + steps_run(outcomes, i + 1)
    } else {
        seq![provision_order()[i as int]]
    }
}

/// Provisioning-order law: the steps run are a prefix of close, environment,
/// network, workload; each runs at most once, and only after every earlier
/// step succeeded. So the network comes up only after the channel is closed
/// and the environment is set up, and the workload runs only after that.
pub proof fn lemma_provisioning_in_order(outcomes: Seq<bool>)
    ensures
        ({
            let run = steps_run(outcomes, 0);
            &&& 1 <= run.len() <= 4
            &&& run == provision_order().take(run.len() as int)
            &&& forall|k: int| 0 <= k < run.len() - 1 ==> #[trigger] outcomes[k]
        }),
{
    reveal_with_fuel(steps_run, 5);
    let run = steps_run(outcomes, 0);
    assert(run =~= provision_order().take(run.len() as int));
}

} // verus!
