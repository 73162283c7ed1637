//! The VSOCK attestation and configuration messages (protocol v1), their
//! constants, and the framing `[u32 little-endian length][payload]`.
//!
//! Message sequence: the agent sends a [`VsockAttestationChallenge`], the
//! guest answers with a [`VsockAttestationProof`], the agent always answers
//! with an [`AgentAttestResult`], and, if it accepted, sends the
//! [`WorkloadConfig`]. Each payload is the fields' encodings in declaration
//! order (see [`crate::codec`]).

use vstd::prelude::*;
use crate::codec::{lemma_byte_items, WireFormat};
use crate::wire::{two_pow_64, varint_bytes, wire_error_text, WireError};
use vstd::utf8::encode_utf8;
use crate::error::GuestInitError;
use crate::text::{decimal, decimal_string};
use vstd::string::*;
use vstd::seq_lib::lemma_concat_associative;

verus! {

/// Version of this protocol; a challenge of any other version is refused.
pub const PROTOCOL_VERSION: u32 = 1;

/// Quote produced by a TPM2 (vTPM).
pub const QUOTE_TYPE_TPM2: u8 = 0;

/// Quote produced by AMD SEV-SNP.
pub const QUOTE_TYPE_SEV_SNP: u8 = 1;

/// Quote produced by Intel TDX.
pub const QUOTE_TYPE_TDX: u8 = 2;

/// Development software quote; a production verifier refuses it.
pub const QUOTE_TYPE_DEV_SOFTWARE: u8 = 0xFF;

/// Context ID of the host on the VSOCK transport.
pub const HOST_CID: u32 = 2;

/// Port on which the host agent listens.
pub const VSOCK_PORT: u32 = 0x4649;

/// Largest payload a frame may carry: 16 MiB.
pub const MAX_MESSAGE_BYTES: usize = 16 * 1024 * 1024;

/// Agent -> guest: the attestation challenge.
#[derive(Clone, Debug, PartialEq, Eq)]
pub struct VsockAttestationChallenge {
    pub protocol_version: u32,
    pub nonce: [u8; 32],
}

/// Guest -> agent: the attestation proof, bound to the challenge nonce.
#[derive(Clone, Debug, PartialEq, Eq)]
pub struct VsockAttestationProof {
    pub quote_type: u8,
    pub raw_quote: Vec<u8>,
    /// Sealing target for the workload secrets.
    pub guest_x25519_pubkey: [u8; 32],
}

/// Agent -> guest: the verdict on the proof.
#[derive(Clone, Debug, PartialEq, Eq)]
pub struct AgentAttestResult {
    pub accepted: bool,
    pub reason: String,
}

/// A volume to mount in the guest.
#[derive(Clone, Debug, PartialEq, Eq)]
pub struct VolumeMountConfig {
    pub name: String,
    pub mount_path: String,
    pub read_only: bool,
}

/// A dummy IP that stands for a service route.
#[derive(Clone, Debug, PartialEq, Eq)]
pub struct DummyIpRouteConfig {
    pub dummy_ip: [u8; 4],
    pub service: String,
    pub role: String,
    pub tenant: String,
}

/// Agent -> guest: everything the guest needs to run its workload.
#[derive(Clone, Debug, PartialEq, Eq)]
pub struct WorkloadConfig {
    pub svid_cert_chain_der: Vec<Vec<u8>>,
    pub svid_private_key_der: Vec<u8>,
    pub env_vars: Vec<(String, String)>,
    pub volume_mounts: Vec<VolumeMountConfig>,
    pub dummy_ip_routes: Vec<DummyIpRouteConfig>,
    pub workload_binary_path: String,
    pub workload_args: Vec<String>,
    pub trust_domain: String,
    pub tenant_id: String,
    pub service_name: String,
    pub role: String,
    pub guest_ip: [u8; 4],
    pub netmask: [u8; 4],
    pub gateway: [u8; 4],
}

/// Mathematical value of a [`VsockAttestationChallenge`].
pub struct ChallengeModel {
    pub protocol_version: u32,
    pub nonce: Seq<u8>,
}

/// Mathematical value of a [`VsockAttestationProof`].
pub struct ProofModel {
    pub quote_type: u8,
    pub raw_quote: Seq<u8>,
    pub guest_x25519_pubkey: Seq<u8>,
}

/// Mathematical value of an [`AgentAttestResult`].
pub struct AttestResultModel {
    pub accepted: bool,
    pub reason: Seq<char>,
}

/// Mathematical value of a [`VolumeMountConfig`].
pub struct VolumeMountModel {
    pub name: Seq<char>,
    pub mount_path: Seq<char>,
    pub read_only: bool,
}

/// Mathematical value of a [`DummyIpRouteConfig`].
pub struct DummyIpRouteModel {
    pub dummy_ip: Seq<u8>,
    pub service: Seq<char>,
    pub role: Seq<char>,
    pub tenant: Seq<char>,
}

/// Mathematical value of a [`WorkloadConfig`].
pub struct WorkloadConfigModel {
    pub svid_cert_chain_der: Seq<Seq<u8>>,
    pub svid_private_key_der: Seq<u8>,
    pub env_vars: Seq<(Seq<char>, Seq<char>)>,
    pub volume_mounts: Seq<VolumeMountModel>,
    pub dummy_ip_routes: Seq<DummyIpRouteModel>,
    pub workload_binary_path: Seq<char>,
    pub workload_args: Seq<Seq<char>>,
    pub trust_domain: Seq<char>,
    pub tenant_id: Seq<char>,
    pub service_name: Seq<char>,
    pub role: Seq<char>,
    pub guest_ip: Seq<u8>,
    pub netmask: Seq<u8>,
    pub gateway: Seq<u8>,
}

impl DeepView for VsockAttestationChallenge {
    type V = ChallengeModel;

    open spec fn deep_view(&self) -> ChallengeModel {
        ChallengeModel { protocol_version: self.protocol_version, nonce: self.nonce.deep_view() }
    }
}

impl DeepView for VsockAttestationProof {
    type V = ProofModel;

    open spec fn deep_view(&self) -> ProofModel {
        ProofModel {
            quote_type: self.quote_type,
            raw_quote: self.raw_quote.deep_view(),
            guest_x25519_pubkey: self.guest_x25519_pubkey.deep_view(),
        }
    }
}

impl DeepView for AgentAttestResult {
    type V = AttestResultModel;

    open spec fn deep_view(&self) -> AttestResultModel {
        AttestResultModel { accepted: self.accepted, reason: self.reason@ }
    }
}

impl DeepView for VolumeMountConfig {
    type V = VolumeMountModel;

    open spec fn deep_view(&self) -> VolumeMountModel {
        VolumeMountModel {
            name: self.name@,
            mount_path: self.mount_path@,
            read_only: self.read_only,
        }
    }
}

impl DeepView for DummyIpRouteConfig {
    type V = DummyIpRouteModel;

    open spec fn deep_view(&self) -> DummyIpRouteModel {
        DummyIpRouteModel {
            dummy_ip: self.dummy_ip.deep_view(),
            service: self.service@,
            role: self.role@,
            tenant: self.tenant@,
        }
    }
}

impl DeepView for WorkloadConfig {
    type V = WorkloadConfigModel;

    open spec fn deep_view(&self) -> WorkloadConfigModel {
        WorkloadConfigModel {
            svid_cert_chain_der: self.svid_cert_chain_der.deep_view(),
            svid_private_key_der: self.svid_private_key_der.deep_view(),
            env_vars: self.env_vars.deep_view(),
            volume_mounts: self.volume_mounts.deep_view(),
            dummy_ip_routes: self.dummy_ip_routes.deep_view(),
            workload_binary_path: self.workload_binary_path@,
            workload_args: self.workload_args.deep_view(),
            trust_domain: self.trust_domain@,
            tenant_id: self.tenant_id@,
            service_name: self.service_name@,
            role: self.role@,
            guest_ip: self.guest_ip.deep_view(),
            netmask: self.netmask.deep_view(),
            gateway: self.gateway.deep_view(),
        }
    }
}

impl WireFormat for VsockAttestationChallenge {
    open spec fn spec_wf(v: ChallengeModel) -> bool {
        <(u32, [u8; 32])>::spec_wf((v.protocol_version, v.nonce))
    }

    open spec fn spec_encode(v: ChallengeModel) -> Seq<u8> {
        u32::spec_encode(v.protocol_version) + <[u8; 32]>::spec_encode(v.nonce)
    }

    open spec fn spec_parse(s: Seq<u8>, pos: int) -> Result<(ChallengeModel, int), WireError> {
        match <(u32, [u8; 32])>::spec_parse(s, pos) {
            Ok(((protocol_version, nonce), end)) => Ok(
                (ChallengeModel { protocol_version, nonce }, end),
            ),
            Err(e) => Err(e),
        }
    }

    proof fn lemma_roundtrip(v: ChallengeModel, s: Seq<u8>, pos: int) {
        <(u32, [u8; 32])>::lemma_roundtrip((v.protocol_version, v.nonce), s, pos);
    }

    proof fn lemma_parse_bounds(s: Seq<u8>, pos: int) {
        <(u32, [u8; 32])>::lemma_parse_bounds(s, pos);
    }

    proof fn lemma_value_wf(&self) {
        self.protocol_version.lemma_value_wf();
        self.nonce.lemma_value_wf();
    }

    fn encode(&self, out: &mut Vec<u8>) {
        self.protocol_version.encode(out);
        self.nonce.encode(out);
        assert(final(out)@ =~= old(out)@ + Self::spec_encode(self.deep_view()));
    }

    fn decode(buf: &[u8], pos: usize) -> (r: Result<(Self, usize), WireError>) {
        match <(u32, [u8; 32])>::decode(buf, pos) {
            Ok(((protocol_version, nonce), end)) => Ok(
                (VsockAttestationChallenge { protocol_version, nonce }, end),
            ),
            Err(e) => Err(e),
        }
    }
}

impl WireFormat for VsockAttestationProof {
    open spec fn spec_wf(v: ProofModel) -> bool {
        <(u8, (Vec<u8>, [u8; 32]))>::spec_wf((v.quote_type, (v.raw_quote, v.guest_x25519_pubkey)))
    }

    open spec fn spec_encode(v: ProofModel) -> Seq<u8> {
        u8::spec_encode(v.quote_type) + Vec::<u8>::spec_encode(v.raw_quote) + <[u8; 32]>::spec_encode(
            v.guest_x25519_pubkey,
        )
    }

    open spec fn spec_parse(s: Seq<u8>, pos: int) -> Result<(ProofModel, int), WireError> {
        match <(u8, (Vec<u8>, [u8; 32]))>::spec_parse(s, pos) {
            Ok(((quote_type, (raw_quote, guest_x25519_pubkey)), end)) => Ok(
                (ProofModel { quote_type, raw_quote, guest_x25519_pubkey }, end),
            ),
            Err(e) => Err(e),
        }
    }

    proof fn lemma_roundtrip(v: ProofModel, s: Seq<u8>, pos: int) {
        let t = (v.quote_type, (v.raw_quote, v.guest_x25519_pubkey));
        assert(Self::spec_encode(v) =~= <(u8, (Vec<u8>, [u8; 32]))>::spec_encode(t));
        <(u8, (Vec<u8>, [u8; 32]))>::lemma_roundtrip(t, s, pos);
    }

    proof fn lemma_parse_bounds(s: Seq<u8>, pos: int) {
        <(u8, (Vec<u8>, [u8; 32]))>::lemma_parse_bounds(s, pos);
    }

    proof fn lemma_value_wf(&self) {
        self.quote_type.lemma_value_wf();
        self.raw_quote.lemma_value_wf();
        self.guest_x25519_pubkey.lemma_value_wf();
    }

    fn encode(&self, out: &mut Vec<u8>) {
        self.quote_type.encode(out);
        self.raw_quote.encode(out);
        self.guest_x25519_pubkey.encode(out);
        assert(final(out)@ =~= old(out)@ + Self::spec_encode(self.deep_view()));
    }

    fn decode(buf: &[u8], pos: usize) -> (r: Result<(Self, usize), WireError>) {
        match <(u8, (Vec<u8>, [u8; 32]))>::decode(buf, pos) {
            Ok(((quote_type, (raw_quote, guest_x25519_pubkey)), end)) => Ok(
                (VsockAttestationProof { quote_type, raw_quote, guest_x25519_pubkey }, end),
            ),
            Err(e) => Err(e),
        }
    }
}

impl WireFormat for AgentAttestResult {
    open spec fn spec_wf(v: AttestResultModel) -> bool {
        <(bool, String)>::spec_wf((v.accepted, v.reason))
    }

    open spec fn spec_encode(v: AttestResultModel) -> Seq<u8> {
        bool::spec_encode(v.accepted) + String::spec_encode(v.reason)
    }

    open spec fn spec_parse(s: Seq<u8>, pos: int) -> Result<(AttestResultModel, int), WireError> {
        match <(bool, String)>::spec_parse(s, pos) {
            Ok(((accepted, reason), end)) => Ok((AttestResultModel { accepted, reason }, end)),
            Err(e) => Err(e),
        }
    }

    proof fn lemma_roundtrip(v: AttestResultModel, s: Seq<u8>, pos: int) {
        <(bool, String)>::lemma_roundtrip((v.accepted, v.reason), s, pos);
    }

    proof fn lemma_parse_bounds(s: Seq<u8>, pos: int) {
        <(bool, String)>::lemma_parse_bounds(s, pos);
    }

    proof fn lemma_value_wf(&self) {
        self.accepted.lemma_value_wf();
        self.reason.lemma_value_wf();
    }

    fn encode(&self, out: &mut Vec<u8>) {
        self.accepted.encode(out);
        self.reason.encode(out);
        assert(final(out)@ =~= old(out)@ + Self::spec_encode(self.deep_view()));
    }

    fn decode(buf: &[u8], pos: usize) -> (r: Result<(Self, usize), WireError>) {
        match <(bool, String)>::decode(buf, pos) {
            Ok(((accepted, reason), end)) => Ok((AgentAttestResult { accepted, reason }, end)),
            Err(e) => Err(e),
        }
    }
}

impl WireFormat for VolumeMountConfig {
    open spec fn spec_wf(v: VolumeMountModel) -> bool {
        <(String, (String, bool))>::spec_wf((v.name, (v.mount_path, v.read_only)))
    }

    open spec fn spec_encode(v: VolumeMountModel) -> Seq<u8> {
        String::spec_encode(v.name) + String::spec_encode(v.mount_path) + bool::spec_encode(
            v.read_only,
        )
    }

    open spec fn spec_parse(s: Seq<u8>, pos: int) -> Result<(VolumeMountModel, int), WireError> {
        match <(String, (String, bool))>::spec_parse(s, pos) {
            Ok(((name, (mount_path, read_only)), end)) => Ok(
                (VolumeMountModel { name, mount_path, read_only }, end),
            ),
            Err(e) => Err(e),
        }
    }

    proof fn lemma_roundtrip(v: VolumeMountModel, s: Seq<u8>, pos: int) {
        let t = (v.name, (v.mount_path, v.read_only));
        assert(Self::spec_encode(v) =~= <(String, (String, bool))>::spec_encode(t));
        <(String, (String, bool))>::lemma_roundtrip(t, s, pos);
    }

    proof fn lemma_parse_bounds(s: Seq<u8>, pos: int) {
        <(String, (String, bool))>::lemma_parse_bounds(s, pos);
    }

    proof fn lemma_value_wf(&self) {
        self.name.lemma_value_wf();
        self.mount_path.lemma_value_wf();
        self.read_only.lemma_value_wf();
    }

    fn encode(&self, out: &mut Vec<u8>) {
        self.name.encode(out);
        self.mount_path.encode(out);
        self.read_only.encode(out);
        assert(final(out)@ =~= old(out)@ + Self::spec_encode(self.deep_view()));
    }

    fn decode(buf: &[u8], pos: usize) -> (r: Result<(Self, usize), WireError>) {
        match <(String, (String, bool))>::decode(buf, pos) {
            Ok(((name, (mount_path, read_only)), end)) => Ok(
                (VolumeMountConfig { name, mount_path, read_only }, end),
            ),
            Err(e) => Err(e),
        }
    }
}

impl WireFormat for DummyIpRouteConfig {
    open spec fn spec_wf(v: DummyIpRouteModel) -> bool {
        <([u8; 4], (String, (String, String)))>::spec_wf(
            (v.dummy_ip, (v.service, (v.role, v.tenant))),
        )
    }

    open spec fn spec_encode(v: DummyIpRouteModel) -> Seq<u8> {
        <[u8; 4]>::spec_encode(v.dummy_ip) + String::spec_encode(v.service) + String::spec_encode(
            v.role,
        ) + String::spec_encode(v.tenant)
    }

    open spec fn spec_parse(s: Seq<u8>, pos: int) -> Result<(DummyIpRouteModel, int), WireError> {
        match <([u8; 4], (String, (String, String)))>::spec_parse(s, pos) {
            Ok(((dummy_ip, (service, (role, tenant))), end)) => Ok(
                (DummyIpRouteModel { dummy_ip, service, role, tenant }, end),
            ),
            Err(e) => Err(e),
        }
    }

    proof fn lemma_roundtrip(v: DummyIpRouteModel, s: Seq<u8>, pos: int) {
        let t = (v.dummy_ip, (v.service, (v.role, v.tenant)));
        assert(Self::spec_encode(v) =~= <([u8; 4], (String, (String, String)))>::spec_encode(t));
        <([u8; 4], (String, (String, String)))>::lemma_roundtrip(t, s, pos);
    }

    proof fn lemma_parse_bounds(s: Seq<u8>, pos: int) {
        <([u8; 4], (String, (String, String)))>::lemma_parse_bounds(s, pos);
    }

    proof fn lemma_value_wf(&self) {
        self.dummy_ip.lemma_value_wf();
        self.service.lemma_value_wf();
        self.role.lemma_value_wf();
        self.tenant.lemma_value_wf();
    }

    fn encode(&self, out: &mut Vec<u8>) {
        self.dummy_ip.encode(out);
        self.service.encode(out);
        self.role.encode(out);
        self.tenant.encode(out);
        assert(final(out)@ =~= old(out)@ + Self::spec_encode(self.deep_view()));
    }

    fn decode(buf: &[u8], pos: usize) -> (r: Result<(Self, usize), WireError>) {
        match <([u8; 4], (String, (String, String)))>::decode(buf, pos) {
            Ok(((dummy_ip, (service, (role, tenant))), end)) => Ok(
                (DummyIpRouteConfig { dummy_ip, service, role, tenant }, end),
            ),
            Err(e) => Err(e),
        }
    }
}

/// The fields of a [`WorkloadConfig`] in wire order, as nested pairs.
pub type WorkloadConfigFields = (
    Vec<Vec<u8>>,
    (
        Vec<u8>,
        (
            Vec<(String, String)>,
            (
                Vec<VolumeMountConfig>,
                (
                    Vec<DummyIpRouteConfig>,
                    (
                        String,
                        (
                            Vec<String>,
                            (String, (String, (String, (String, ([u8; 4], ([u8; 4], [u8; 4])))))),
                        ),
                    ),
                ),
            ),
        ),
    ),
);

/// The model of a [`WorkloadConfig`]'s fields in wire order.
pub open spec fn config_fields(v: WorkloadConfigModel) -> <WorkloadConfigFields as DeepView>::V {
    (
        v.svid_cert_chain_der,
        (
            v.svid_private_key_der,
            (
                v.env_vars,
                (
                    v.volume_mounts,
                    (
                        v.dummy_ip_routes,
                        (
                            v.workload_binary_path,
                            (
                                v.workload_args,
                                (
                                    v.trust_domain,
                                    (
                                        v.tenant_id,
                                        (
                                            v.service_name,
                                            (v.role, (v.guest_ip, (v.netmask, v.gateway))),
                                        ),
                                    ),
                                ),
                            ),
                        ),
                    ),
                ),
            ),
        ),
    )
}

impl WireFormat for WorkloadConfig {
    open spec fn spec_wf(v: WorkloadConfigModel) -> bool {
        WorkloadConfigFields::spec_wf(config_fields(v))
    }

    open spec fn spec_encode(v: WorkloadConfigModel) -> Seq<u8> {
        Vec::<Vec<u8>>::spec_encode(v.svid_cert_chain_der) + Vec::<u8>::spec_encode(
            v.svid_private_key_der,
        ) + Vec::<(String, String)>::spec_encode(v.env_vars) + Vec::<
            VolumeMountConfig,
        >::spec_encode(v.volume_mounts) + Vec::<DummyIpRouteConfig>::spec_encode(v.dummy_ip_routes)
            + String::spec_encode(v.workload_binary_path) + Vec::<String>::spec_encode(
            v.workload_args,
        ) + String::spec_encode(v.trust_domain) + String::spec_encode(v.tenant_id)
            + String::spec_encode(v.service_name) + String::spec_encode(v.role) + <[u8; 4]>::spec_encode(
            v.guest_ip,
        ) + <[u8; 4]>::spec_encode(v.netmask) + <[u8; 4]>::spec_encode(v.gateway)
    }

    open spec fn spec_parse(s: Seq<u8>, pos: int) -> Result<(WorkloadConfigModel, int), WireError> {
        match WorkloadConfigFields::spec_parse(s, pos) {
            Ok(
                (
                    (
                        svid_cert_chain_der,
                        (
                            svid_private_key_der,
                            (
                                env_vars,
                                (
                                    volume_mounts,
                                    (
                                        dummy_ip_routes,
                                        (
                                            workload_binary_path,
                                            (
                                                workload_args,
                                                (
                                                    trust_domain,
                                                    (
                                                        tenant_id,
                                                        (
                                                            service_name,
                                                            (role, (guest_ip, (netmask, gateway))),
                                                        ),
                                                    ),
                                                ),
                                            ),
                                        ),
                                    ),
                                ),
                            ),
                        ),
                    ),
                    end,
                ),
            ) => Ok(
                (
                    WorkloadConfigModel {
                        svid_cert_chain_der,
                        svid_private_key_der,
                        env_vars,
                        volume_mounts,
                        dummy_ip_routes,
                        workload_binary_path,
                        workload_args,
                        trust_domain,
                        tenant_id,
                        service_name,
                        role,
                        guest_ip,
                        netmask,
                        gateway,
                    },
                    end,
                ),
            ),
            Err(e) => Err(e),
        }
    }

    proof fn lemma_roundtrip(v: WorkloadConfigModel, s: Seq<u8>, pos: int) {
        let e1 = Vec::<Vec<u8>>::spec_encode(v.svid_cert_chain_der);
        let e2 = Vec::<u8>::spec_encode(v.svid_private_key_der);
        let e3 = Vec::<(String, String)>::spec_encode(v.env_vars);
        let e4 = Vec::<VolumeMountConfig>::spec_encode(v.volume_mounts);
        let e5 = Vec::<DummyIpRouteConfig>::spec_encode(v.dummy_ip_routes);
        let e6 = String::spec_encode(v.workload_binary_path);
        let e7 = Vec::<String>::spec_encode(v.workload_args);
        let e8 = String::spec_encode(v.trust_domain);
        let e9 = String::spec_encode(v.tenant_id);
        let e10 = String::spec_encode(v.service_name);
        let e11 = String::spec_encode(v.role);
        let e12 = <[u8; 4]>::spec_encode(v.guest_ip);
        let e13 = <[u8; 4]>::spec_encode(v.netmask);
        let e14 = <[u8; 4]>::spec_encode(v.gateway);
        let l1 = e1;
        let l2 = l1 + e2;
        let l3 = l2 + e3;
        let l4 = l3 + e4;
        let l5 = l4 + e5;
        let l6 = l5 + e6;
        let l7 = l6 + e7;
        let l8 = l7 + e8;
        let l9 = l8 + e9;
        let l10 = l9 + e10;
        let l11 = l10 + e11;
        let l12 = l11 + e12;
        let l13 = l12 + e13;
        let l14 = l13 + e14;
        let a14 = e14;
        let a13 = e13 + a14;
        let a12 = e12 + a13;
        let a11 = e11 + a12;
        let a10 = e10 + a11;
        let a9 = e9 + a10;
        let a8 = e8 + a9;
        let a7 = e7 + a8;
        let a6 = e6 + a7;
        let a5 = e5 + a6;
        let a4 = e4 + a5;
        let a3 = e3 + a4;
        let a2 = e2 + a3;
        let a1 = e1 + a2;
        assert(Self::spec_encode(v) == l14);
        assert(l14 == l13 + a14);
        lemma_concat_associative(l12, e13, a14);
        assert(l13 + a14 == l12 + a13);
        lemma_concat_associative(l11, e12, a13);
        assert(l12 + a13 == l11 + a12);
        lemma_concat_associative(l10, e11, a12);
        assert(l11 + a12 == l10 + a11);
        lemma_concat_associative(l9, e10, a11);
        assert(l10 + a11 == l9 + a10);
        lemma_concat_associative(l8, e9, a10);
        assert(l9 + a10 == l8 + a9);
        lemma_concat_associative(l7, e8, a9);
        assert(l8 + a9 == l7 + a8);
        lemma_concat_associative(l6, e7, a8);
        assert(l7 + a8 == l6 + a7);
        lemma_concat_associative(l5, e6, a7);
        assert(l6 + a7 == l5 + a6);
        lemma_concat_associative(l4, e5, a6);
        assert(l5 + a6 == l4 + a5);
        lemma_concat_associative(l3, e4, a5);
        assert(l4 + a5 == l3 + a4);
        lemma_concat_associative(l2, e3, a4);
        assert(l3 + a4 == l2 + a3);
        lemma_concat_associative(l1, e2, a3);
        assert(l2 + a3 == l1 + a2);
        assert(l1 + a2 == a1);
        assert(a1 == WorkloadConfigFields::spec_encode(config_fields(v)));
        WorkloadConfigFields::lemma_roundtrip(config_fields(v), s, pos);
    }

    proof fn lemma_parse_bounds(s: Seq<u8>, pos: int) {
        WorkloadConfigFields::lemma_parse_bounds(s, pos);
    }

    proof fn lemma_value_wf(&self) {
        self.svid_cert_chain_der.lemma_value_wf();
        self.svid_private_key_der.lemma_value_wf();
        self.env_vars.lemma_value_wf();
        self.volume_mounts.lemma_value_wf();
        self.dummy_ip_routes.lemma_value_wf();
        self.workload_binary_path.lemma_value_wf();
        self.workload_args.lemma_value_wf();
        self.trust_domain.lemma_value_wf();
        self.tenant_id.lemma_value_wf();
        self.service_name.lemma_value_wf();
        self.role.lemma_value_wf();
        self.guest_ip.lemma_value_wf();
        self.netmask.lemma_value_wf();
        self.gateway.lemma_value_wf();
    }

    fn encode(&self, out: &mut Vec<u8>) {
        self.svid_cert_chain_der.encode(out);
        self.svid_private_key_der.encode(out);
        self.env_vars.encode(out);
        self.volume_mounts.encode(out);
        self.dummy_ip_routes.encode(out);
        self.workload_binary_path.encode(out);
        self.workload_args.encode(out);
        self.trust_domain.encode(out);
        self.tenant_id.encode(out);
        self.service_name.encode(out);
        self.role.encode(out);
        self.guest_ip.encode(out);
        self.netmask.encode(out);
        self.gateway.encode(out);
        assert(final(out)@ =~= old(out)@ + Self::spec_encode(self.deep_view()));
    }

    fn decode(buf: &[u8], pos: usize) -> (r: Result<(Self, usize), WireError>) {
        match WorkloadConfigFields::decode(buf, pos) {
            Ok(
                (
                    (
                        svid_cert_chain_der,
                        (
                            svid_private_key_der,
                            (
                                env_vars,
                                (
                                    volume_mounts,
                                    (
                                        dummy_ip_routes,
                                        (
                                            workload_binary_path,
                                            (
                                                workload_args,
                                                (
                                                    trust_domain,
                                                    (
                                                        tenant_id,
                                                        (
                                                            service_name,
                                                            (role, (guest_ip, (netmask, gateway))),
                                                        ),
                                                    ),
                                                ),
                                            ),
                                        ),
                                    ),
                                ),
                            ),
                        ),
                    ),
                    end,
                ),
            ) => Ok(
                (
                    WorkloadConfig {
                        svid_cert_chain_der,
                        svid_private_key_der,
                        env_vars,
                        volume_mounts,
                        dummy_ip_routes,
                        workload_binary_path,
                        workload_args,
                        trust_domain,
                        tenant_id,
                        service_name,
                        role,
                        guest_ip,
                        netmask,
                        gateway,
                    },
                    end,
                ),
            ),
            Err(e) => Err(e),
        }
    }
}

/// The four little-endian bytes of a 32-bit length `n`.
pub open spec fn le_u32_bytes(n: nat) -> Seq<u8> {
    seq![
        (n % 256) as u8,
        ((n / 256) % 256) as u8,
        ((n / 65536) % 256) as u8,
        ((n / 16777216) % 256) as u8,
    ]
}

/// The number that four little-endian bytes stand for.
pub open spec fn le_u32_value(b: Seq<u8>) -> nat {
    (b[0] + 256 * b[1] + 65536 * b[2] + 16777216 * b[3]) as nat
}

/// A frame: the payload's length as a little-endian `u32`, then the payload.
pub open spec fn frame_bytes(payload: Seq<u8>) -> Seq<u8> {
    le_u32_bytes(payload.len()) + payload
}

/// The text that refuses a payload of `n` bytes.
pub open spec fn too_large_text(n: nat) -> Seq<char> {
    "message too large: "@ + decimal(n) + " bytes (max "@ + decimal(MAX_MESSAGE_BYTES as nat)
        + ")"@
}

/// The message a payload holds; bytes after the message are ignored.
pub open spec fn spec_decode_msg<T: WireFormat>(payload: Seq<u8>) -> Result<T::V, WireError> {
    match T::spec_parse(payload, 0) {
        Ok((v, _)) => Ok(v),
        Err(e) => Err(e),
    }
}

fn too_large_error(n: u64) -> (e: GuestInitError)
    ensures
        e matches GuestInitError::Protocol(m) && m@ == too_large_text(n as nat),
{
    let got = decimal_string(n);
    let max = decimal_string(MAX_MESSAGE_BYTES as u64);
    let m = String::from_str("message too large: ").concat(got.as_str()).concat(
        " bytes (max ",
    ).concat(max.as_str()).concat(")");
    GuestInitError::Protocol(m)
}

/// Encodes `msg` and frames it as `[u32 little-endian length][payload]`.
/// A payload over [`MAX_MESSAGE_BYTES`] is refused, as the peer would refuse it.
pub fn frame_msg<T: WireFormat>(msg: &T) -> (r: Result<Vec<u8>, GuestInitError>)
    ensures
        match r {
            Ok(frame) => {
                &&& T::spec_encode(msg.deep_view()).len() <= MAX_MESSAGE_BYTES
                &&& frame@ == frame_bytes(T::spec_encode(msg.deep_view()))
            },
            Err(e) => {
                &&& T::spec_encode(msg.deep_view()).len() > MAX_MESSAGE_BYTES
                &&& e matches GuestInitError::Protocol(m) && m@ == too_large_text(
                    T::spec_encode(msg.deep_view()).len(),
                )
            },
        },
{
    let mut payload: Vec<u8> = Vec::new();
    msg.encode(&mut payload);
    assert(payload@ =~= T::spec_encode(msg.deep_view()));
    let len = payload.len();
    if len > MAX_MESSAGE_BYTES {
        return Err(too_large_error(len as u64));
    }
    let mut frame: Vec<u8> = Vec::new();
    frame.push((len % 256) as u8);
    frame.push(((len / 256) % 256) as u8);
    frame.push(((len / 65536) % 256) as u8);
    frame.push(((len / 16777216) % 256) as u8);
    assert(frame@ =~= le_u32_bytes(len as nat));
    frame.append(&mut payload);
    Ok(frame)
}

/// Reads the length prefix of a frame and enforces the
/// [`MAX_MESSAGE_BYTES`] cap.
pub fn payload_length(header: [u8; 4]) -> (r: Result<usize, GuestInitError>)
    ensures
        match r {
            Ok(n) => n == le_u32_value(header@) && n <= MAX_MESSAGE_BYTES,
            Err(e) => {
                &&& le_u32_value(header@) > MAX_MESSAGE_BYTES
                &&& e matches GuestInitError::Protocol(m) && m@ == too_large_text(
                    le_u32_value(header@),
                )
            },
        },
{
    let n: u64 = header[0] as u64 + 256 * header[1] as u64 + 65536 * header[2] as u64 + 16777216
        * header[3] as u64;
    if n > MAX_MESSAGE_BYTES as u64 {
        Err(too_large_error(n))
    } else {
        Ok(n as usize)
    }
}

/// Decodes the message held by a payload; bytes after the message are
/// ignored. A payload that does not hold one is a protocol error that names
/// the cause.
pub fn decode_msg<T: WireFormat>(payload: &[u8]) -> (r: Result<T, GuestInitError>)
    ensures
        match r {
            Ok(m) => spec_decode_msg::<T>(payload@) == Ok::<T::V, WireError>(m.deep_view()),
            Err(e) => exists|we: WireError|
                {
                    &&& spec_decode_msg::<T>(payload@) == Err::<T::V, WireError>(we)
                    &&& e matches GuestInitError::Protocol(m) && m@ == wire_error_text(we)
                },
        },
{
    match T::decode(payload, 0) {
        Ok((m, _)) => Ok(m),
        Err(we) => Err(GuestInitError::Protocol(we.message())),
    }
}

/// The length prefix of a frame gives back the length it was made from.
pub proof fn lemma_le_u32_roundtrip(n: nat)
    requires
        n < 0x1_0000_0000,
    ensures
        le_u32_bytes(n).len() == 4,
        le_u32_value(le_u32_bytes(n)) == n,
{
}

/// Framing law: a message that fits the cap, once framed, is recovered from
/// its frame: the prefix gives the payload's length, and the payload after
/// the prefix decodes to the message.
pub proof fn lemma_frame_roundtrip<T: WireFormat>(v: T::V)
    requires
        T::spec_wf(v),
        T::spec_encode(v).len() <= MAX_MESSAGE_BYTES,
    ensures
        ({
            let payload = T::spec_encode(v);
            let frame = frame_bytes(payload);
            &&& le_u32_value(frame.subrange(0, 4)) == payload.len()
            &&& frame.subrange(4, frame.len() as int) == payload
            &&& spec_decode_msg::<T>(frame.subrange(4, frame.len() as int)) == Ok::<
                T::V,
                WireError,
            >(v)
        }),
{
    let payload = T::spec_encode(v);
    let frame = frame_bytes(payload);
    lemma_le_u32_roundtrip(payload.len());
    assert(frame.subrange(0, 4) =~= le_u32_bytes(payload.len()));
    assert(frame.subrange(4, frame.len() as int) =~= payload);
    assert(payload.subrange(0, payload.len() as int) =~= payload);
    T::lemma_roundtrip(v, payload, 0);
}

/// Transport law: the receiving side reads back, from any frame that
/// [`frame_msg`] produces, the message that was framed. The length prefix
/// gives the payload's length, within the cap, and the payload decodes to
/// the message.
pub proof fn lemma_framed_message_reads_back<T: WireFormat>(msg: &T)
    requires
        T::spec_encode(msg.deep_view()).len() <= MAX_MESSAGE_BYTES,
    ensures
        ({
            let payload = T::spec_encode(msg.deep_view());
            let frame = frame_bytes(payload);
            &&& le_u32_value(frame.subrange(0, 4)) == payload.len()
            &&& spec_decode_msg::<T>(frame.subrange(4, frame.len() as int)) == Ok::<
                T::V,
                WireError,
            >(msg.deep_view())
        }),
{
    msg.lemma_value_wf();
    lemma_frame_roundtrip::<T>(msg.deep_view());
}

/// Layout of a verdict on the wire: one byte that is 1 when the agent
/// accepted and 0 when it refused, then the reason as a varint byte length
/// followed by its UTF-8 bytes.
pub proof fn lemma_attest_result_layout(v: AttestResultModel)
    ensures
        AgentAttestResult::spec_encode(v) == seq![if v.accepted { 1u8 } else { 0u8 }]
            + varint_bytes(encode_utf8(v.reason).len()) + encode_utf8(v.reason),
{
    assert(AgentAttestResult::spec_encode(v) =~= seq![if v.accepted { 1u8 } else { 0u8 }]
        + varint_bytes(encode_utf8(v.reason).len()) + encode_utf8(v.reason));
}

/// Decoding law for a verdict. It decodes only from a leading byte of 0 or
/// 1; it is an acceptance exactly when that byte is 1; its reason is the
/// string right after that byte. Any other leading byte gives `BadBool`.
pub proof fn lemma_attest_result_verdict_byte(s: Seq<u8>, pos: int)
    ensures
        AgentAttestResult::spec_parse(s, pos) matches Ok((v, end)) ==> {
            &&& 0 <= pos < s.len()
            &&& (s[pos] == 0 || s[pos] == 1)
            &&& v.accepted <==> s[pos] == 1
            &&& String::spec_parse(s, pos + 1) == Ok::<(Seq<char>, int), WireError>(
                (v.reason, end),
            )
        },
        0 <= pos < s.len() && s[pos] != 0 && s[pos] != 1 ==> AgentAttestResult::spec_parse(s, pos)
            == Err::<(AttestResultModel, int), WireError>(WireError::BadBool),
{
}

/// Layout of an attestation proof on the wire: the quote type as its own
/// byte, the quote as a varint length followed by its bytes, then the 32
/// bytes of the sealing public key.
pub proof fn lemma_proof_layout(p: ProofModel)
    ensures
        VsockAttestationProof::spec_encode(p) == seq![p.quote_type] + varint_bytes(
            p.raw_quote.len(),
        ) + p.raw_quote + p.guest_x25519_pubkey,
        frame_bytes(VsockAttestationProof::spec_encode(p))[4] == p.quote_type,
{
    lemma_byte_items(p.raw_quote);
    assert(VsockAttestationProof::spec_encode(p) =~= seq![p.quote_type] + varint_bytes(
        p.raw_quote.len(),
    ) + p.raw_quote + p.guest_x25519_pubkey);
}

/// Reading an attestation proof: the quote type is the first byte as it
/// stands, the quote is the byte vector that follows it, and the public key
/// is the last 32 bytes read.
pub proof fn lemma_proof_quote_type_byte(s: Seq<u8>, pos: int)
    ensures
        VsockAttestationProof::spec_parse(s, pos) matches Ok((p, end)) ==> {
            &&& 0 <= pos < s.len()
            &&& p.quote_type == s[pos]
            &&& 32 <= end <= s.len()
            &&& Vec::<u8>::spec_parse(s, pos + 1) == Ok::<(Seq<u8>, int), WireError>(
                (p.raw_quote, end - 32),
            )
            &&& p.guest_x25519_pubkey == s.subrange(end - 32, end)
        },
{
}

/// Layout of a volume mount on the wire: the name, then the mount path, each
/// as a varint byte length followed by its UTF-8 bytes, then one byte that
/// is 1 for a read-only mount and 0 for a writable one.
pub proof fn lemma_volume_mount_layout(m: VolumeMountModel)
    ensures
        VolumeMountConfig::spec_encode(m) == varint_bytes(encode_utf8(m.name).len()) + encode_utf8(
            m.name,
        ) + varint_bytes(encode_utf8(m.mount_path).len()) + encode_utf8(m.mount_path) + seq![
            if m.read_only { 1u8 } else { 0u8 },
        ],
{
    assert(VolumeMountConfig::spec_encode(m) =~= varint_bytes(encode_utf8(m.name).len())
        + encode_utf8(m.name) + varint_bytes(encode_utf8(m.mount_path).len()) + encode_utf8(
        m.mount_path,
    ) + seq![if m.read_only { 1u8 } else { 0u8 }]);
}

/// Reading a volume mount: the name, then the mount path, then a last byte
/// that must be 0 or 1; the mount is read-only exactly when that byte is 1.
pub proof fn lemma_volume_mount_read_only_byte(s: Seq<u8>, pos: int)
    ensures
        VolumeMountConfig::spec_parse(s, pos) matches Ok((m, end)) ==> {
            &&& pos < end <= s.len()
            &&& (s[end - 1] == 0 || s[end - 1] == 1)
            &&& m.read_only <==> s[end - 1] == 1
            &&& String::spec_parse(s, pos) matches Ok((name, p)) && name == m.name
                && String::spec_parse(s, p) == Ok::<(Seq<char>, int), WireError>(
                (m.mount_path, end - 1),
            )
        },
{
    String::lemma_parse_bounds(s, pos);
    if let Ok((_, p)) = String::spec_parse(s, pos) {
        String::lemma_parse_bounds(s, p);
    }
}

/// Layout of a challenge on the wire: the protocol version as a varint,
/// then the 32 nonce bytes.
pub proof fn lemma_challenge_layout(c: ChallengeModel)
    ensures
        VsockAttestationChallenge::spec_encode(c) == varint_bytes(c.protocol_version as nat)
            + c.nonce,
{
}

/// Reading a challenge: the protocol version is the varint it opens with,
/// and the nonce is the 32 bytes that follow.
pub proof fn lemma_challenge_fields(s: Seq<u8>, pos: int)
    ensures
        VsockAttestationChallenge::spec_parse(s, pos) matches Ok((c, end)) ==> {
            &&& u32::spec_parse(s, pos) == Ok::<(u32, int), WireError>(
                (c.protocol_version, end - 32),
            )
            &&& 32 <= end <= s.len()
            &&& c.nonce == s.subrange(end - 32, end)
        },
{
}

/// Layout of a dummy-IP route on the wire: the four address bytes, then the
/// service, role and tenant, each as a varint byte length followed by its
/// UTF-8 bytes.
pub proof fn lemma_dummy_ip_route_layout(d: DummyIpRouteModel)
    ensures
        DummyIpRouteConfig::spec_encode(d) == d.dummy_ip + varint_bytes(
            encode_utf8(d.service).len(),
        ) + encode_utf8(d.service) + varint_bytes(encode_utf8(d.role).len()) + encode_utf8(d.role)
            + varint_bytes(encode_utf8(d.tenant).len()) + encode_utf8(d.tenant),
{
    assert(DummyIpRouteConfig::spec_encode(d) =~= d.dummy_ip + varint_bytes(
        encode_utf8(d.service).len(),
    ) + encode_utf8(d.service) + varint_bytes(encode_utf8(d.role).len()) + encode_utf8(d.role)
        + varint_bytes(encode_utf8(d.tenant).len()) + encode_utf8(d.tenant));
}

/// Layout of a workload configuration on the wire: it ends with the guest
/// address, the netmask and the gateway, four bytes each, in that order.
pub proof fn lemma_config_addresses_layout(v: WorkloadConfigModel)
    requires
        v.guest_ip.len() == 4,
        v.netmask.len() == 4,
        v.gateway.len() == 4,
    ensures
        ({
            let e = WorkloadConfig::spec_encode(v);
            &&& e.len() >= 12
            &&& e.subrange(e.len() - 12, e.len() as int) == v.guest_ip + v.netmask + v.gateway
        }),
{
    let e = WorkloadConfig::spec_encode(v);
    let head = e.subrange(0, e.len() - 12);
    assert(e =~= head + (v.guest_ip + v.netmask + v.gateway));
}

/// Reading a workload configuration: the guest address, the netmask and the
/// gateway are the last twelve bytes read, four each, in that order.
pub proof fn lemma_config_addresses_read(s: Seq<u8>, pos: int)
    ensures
        WorkloadConfig::spec_parse(s, pos) matches Ok((v, end)) ==> {
            &&& 12 <= end <= s.len()
            &&& v.guest_ip == s.subrange(end - 12, end - 8)
            &&& v.netmask == s.subrange(end - 8, end - 4)
            &&& v.gateway == s.subrange(end - 4, end)
        },
{
    WorkloadConfig::lemma_parse_bounds(s, pos);
}

} // verus!
