//! AI-specific capability descriptors with hardware isolation and BFT
//! consensus: the isolation domain of an NPU queue, the real-time class of
//! a latency target, and the HotStuff quorum rules (a 2f+1 supermajority of
//! 3f+1 replicas, round-robin leaders, quorum certificates built from the
//! first replicas that vote).
//!
//! Votes are network replies; the caller collects them and hands the
//! outcome of each request to the functions here.

use vstd::prelude::*;

verus! {

/// Memory-mapped I/O window of an isolation domain.
#[derive(Clone, Copy, Debug, PartialEq, Eq, Structural)]
pub struct MMIOWindow {
    pub base: u64,
    pub size: usize,
    pub access_mask: u32,
}

/// Hardware isolation domain of an NPU queue: a private scratchpad, a bit
/// of the network-on-chip isolation mask and an MMIO window.
#[derive(Clone, Copy, Debug, PartialEq, Eq, Structural)]
pub struct HardwareIsolationDomain {
    pub domain_id: u32,
    pub scratchpad_base: u64,
    pub scratchpad_size: usize,
    pub noc_isolation_mask: u64,
    pub mmio_window: MMIOWindow,
}

/// Priority class of NPU work.
#[derive(Clone, Copy, Debug, PartialEq, Eq, Structural)]
pub enum PriorityClass {
    /// Inference within 40 µs.
    Critical,
    /// Context switch within 500 ns.
    RealTime,
    /// Best effort.
    Batch,
}

/// RDMA endpoint of a node.
#[derive(Clone, Copy, Debug, PartialEq, Eq)]
pub struct RDMAEndpoint {
    pub qp_num: u32,
    pub lid: u16,
    pub gid: [u8; 16],
}

/// Network address of a node.
#[derive(Clone, Copy, Debug, PartialEq, Eq)]
pub enum NetworkAddress {
    IPv6([u8; 16]),
    InfiniBand(u64),
    RDMA(RDMAEndpoint),
}

/// Interconnect between nodes.
#[derive(Clone, Copy, Debug, PartialEq, Eq, Structural)]
pub enum InterconnectType {
    PCIe4x16,
    PCIe5x16,
    InfiniBand,
    CustomFabric,
}

/// How far a node is trusted.
#[derive(Clone, Copy, Debug, PartialEq, Eq, Structural)]
pub enum TrustLevel {
    Untrusted,
    SelfAttestation,
    HardwareAttestation,
    FormallyVerified,
}

/// Consistency model of distributed state.
#[derive(Clone, Copy, Debug, PartialEq, Eq, Structural)]
pub enum ConsistencyModel {
    StrongConsistency,
    EventualConsistency,
    CausalConsistency,
}

/// BFT consensus protocols.
#[derive(Clone, Copy, Debug, PartialEq, Eq, Structural)]
pub enum BftProtocol {
    HotStuff,
    PBFT,
    Tendermint,
}

/// Verification demanded of distributed operations.
#[derive(Clone, Copy, Debug, PartialEq, Eq, Structural)]
pub enum VerificationLevel {
    CryptographicOnly,
    ZkSnarkProofs,
    FormalVerification,
}

/// BFT requirements for distributed operations.
#[derive(Clone, Copy, Debug, PartialEq, Eq, Structural)]
pub struct BftRequirements {
    pub min_replicas: u8,
    /// `f` in `3f + 1`.
    pub fault_tolerance_threshold: u8,
    pub consensus_protocol: BftProtocol,
    pub verification_requirements: VerificationLevel,
}

/// What a TEE seals its data to.
#[derive(Clone, Copy, Debug, PartialEq, Eq, Structural)]
pub enum SealingPolicy {
    MREnclave,
    MRSigner,
    ProductID,
}

/// TEE enclave specification.
#[derive(Clone, Copy, Debug, PartialEq, Eq)]
pub struct TEEEnclave {
    pub enclave_id: u64,
    pub attestation_key: [u8; 32],
    pub measurement: [u8; 32],
    pub sealing_policy: SealingPolicy,
}

/// What confidential execution hides.
#[derive(Clone, Copy, Debug, PartialEq, Eq, Structural)]
pub enum ConfidentialityLevel {
    /// Nothing is hidden.
    Unprotected,
    ModelWeights,
    InputOutput,
    Full,
}

/// Element type of a tensor.
#[derive(Clone, Copy, Debug, PartialEq, Eq, Structural)]
pub enum TensorElementType {
    F32,
    F16,
    BF16,
    I8,
    U8,
}

/// Memory layout of a tensor.
#[derive(Clone, Copy, Debug, PartialEq, Eq, Structural)]
pub enum TensorLayout {
    RowMajor,
    ColMajor,
    NHWC,
    NCHW,
}

/// Tensor shape for memory layout verification.
#[derive(Clone, Debug)]
pub struct TensorShape {
    pub dimensions: Vec<usize>,
    pub element_type: TensorElementType,
    pub layout: TensorLayout,
}

/// Lifetime of a linear token.
#[derive(Clone, Copy, Debug, PartialEq, Eq, Structural)]
pub enum LifetimeBound {
    Static,
    Scoped(u64),
    Inference(u64),
}

/// Access a linear token grants.
#[derive(Clone, Copy, Debug, PartialEq, Eq, Structural)]
pub struct LinearAccessPermissions {
    pub exclusive_read: bool,
    pub exclusive_write: bool,
    pub zero_copy_slice: bool,
    pub dma_coherent: bool,
}

/// Linear ownership token of tensor memory.
#[derive(Clone, Copy, Debug, PartialEq, Eq, Structural)]
pub struct LinearTypeToken {
    pub ownership_id: u64,
    pub lifetime_bound: LifetimeBound,
    pub access_permissions: LinearAccessPermissions,
}

/// Commit evidence at a height.
#[derive(Clone, Copy, Debug)]
pub struct SafetyProof {
    pub height: u64,
    pub hash: [u8; 32],
    pub signature: [u8; 64],
    pub timestamp: u64,
}

/// Isolation provided by the hardware.
#[derive(Clone, Copy, Debug, PartialEq, Eq, Structural)]
pub enum HardwareIsolationLevel {
    ProcessLevel,
    ContainerLevel,
    VMLevel,
    TEELevel,
    NPUDomainLevel,
}

/// Deadline guarantee of a time slice.
#[derive(Clone, Copy, Debug, PartialEq, Eq, Structural)]
pub enum DeadlineGuarantee {
    BestEffort,
    SoftRealTime,
    HardRealTime,
}

/// Temporal isolation of a capability's work.
#[derive(Clone, Copy, Debug, PartialEq, Eq, Structural)]
pub struct TemporalIsolationSpec {
    pub time_slice_us: u64,
    pub preemption_latency_ns: u64,
    pub deadline_guarantee: DeadlineGuarantee,
}

/// Side-channel countermeasures.
#[derive(Clone, Copy, Debug, PartialEq, Eq, Structural)]
pub struct SideChannelProtection {
    pub cache_partitioning: bool,
    pub memory_encryption: bool,
    pub timing_randomization: bool,
    pub power_analysis_protection: bool,
}

/// Isolation guarantees of an AI capability.
#[derive(Clone, Copy, Debug, PartialEq, Eq, Structural)]
pub struct IsolationGuarantees {
    pub hardware_isolation: HardwareIsolationLevel,
    pub temporal_isolation: TemporalIsolationSpec,
    pub side_channel_protection: SideChannelProtection,
}

/// A consensus replica.
#[derive(Clone, Copy, Debug, PartialEq, Eq)]
pub struct ReplicaNode {
    pub id: u64,
    pub public_key: [u8; 32],
    pub network_address: NetworkAddress,
    pub voting_power: u64,
}

/// Timing rules that keep consensus live.
#[derive(Clone, Copy, Debug, PartialEq, Eq, Structural)]
pub struct LivenessRules {
    pub round_timeout_ms: u64,
    pub leader_rotation_interval: u64,
    pub sync_timeout_ms: u64,
}

/// Ledger state a quorum signed.
#[derive(Clone, Copy, Debug, PartialEq, Eq)]
pub struct LedgerInfo {
    pub version: u64,
    pub transaction_accumulator_hash: [u8; 32],
    pub consensus_data_hash: [u8; 32],
    pub timestamp: u64,
}

/// Ledger state with the replicas' signatures, by replica.
#[derive(Clone, Debug)]
pub struct SignedLedgerInfo {
    pub ledger_info: LedgerInfo,
    pub signatures: Vec<(u64, [u8; 64])>,
}

/// A piece of distributed tensor memory.
#[derive(Clone, Copy, Debug, PartialEq, Eq, Structural)]
pub struct MemorySegment {
    pub node_id: u64,
    pub address: u64,
    pub size: usize,
}

/// Where a tensor lives.
#[derive(Clone, Debug)]
pub enum MemoryLocation {
    Local(u64),
    Remote { node_id: u64, address: u64 },
    Distributed(Vec<MemorySegment>),
}

/// A tensor named in a consensus operation.
#[derive(Clone, Debug)]
pub struct TensorDescriptor {
    pub shape: TensorShape,
    pub data_hash: [u8; 32],
    pub memory_location: MemoryLocation,
}

/// Kind of validation proof.
#[derive(Clone, Copy, Debug, PartialEq, Eq, Structural)]
pub enum ProofType {
    ZkSnark,
    BulletProof,
    Stark,
    ClassicalSignature,
}

/// Proof that a model update is valid.
#[derive(Clone, Debug)]
pub struct ValidationProof {
    pub proof_type: ProofType,
    pub proof_data: Vec<u8>,
    pub verification_key: [u8; 32],
}

/// Phases of a HotStuff round.
#[derive(Clone, Copy, Debug, PartialEq, Eq, Structural)]
pub enum ConsensusPhase {
    Prepare,
    PreCommit,
    Commit,
}

/// Property a domain verification proof establishes.
#[derive(Clone, Copy, Debug, PartialEq, Eq, Structural)]
pub enum VerificationProofType {
    MemorySafety,
    IsolationProperty,
    LatencyBound,
    SecurityProperty,
}

/// A verification proof of an isolation domain.
#[derive(Clone, Debug)]
pub struct VerificationProof {
    pub proof_type: VerificationProofType,
    pub proof_data: Vec<u8>,
    pub verification_timestamp: u64,
}

/// Boot, kernel and runtime measurements of the platform.
#[derive(Clone, Debug)]
pub struct PlatformMeasurements {
    pub boot_measurements: [u8; 32],
    pub kernel_measurement: [u8; 32],
    pub runtime_measurements: Vec<[u8; 32]>,
}

/// Attestation root and platform measurements.
#[derive(Clone, Debug)]
pub struct AttestationService {
    pub root_ca_cert: [u8; 1024],
    pub platform_measurements: PlatformMeasurements,
}

/// Master sealing key and the keys derived from it, by identifier.
#[derive(Clone, Debug)]
pub struct SealingKeyManager {
    pub master_key: [u8; 32],
    pub derived_keys: Vec<(u64, [u8; 32])>,
}

/// Enclaves by model, attestation and sealing.
#[derive(Clone, Debug)]
pub struct TrustedExecutionManager {
    pub active_enclaves: Vec<(u64, TEEEnclave)>,
    pub attestation_service: AttestationService,
    pub sealing_keys: SealingKeyManager,
}

/// AI capability system errors.
#[derive(Clone, Debug, PartialEq, Eq)]
pub enum AICapabilityError {
    InvalidCapability,
    PermissionDenied,
    IsolationConfigurationFailed,
    ConsensusFailed(String),
    ConsensusNotRequired,
    TEEConfigurationFailed,
    TEENotSupported,
    LatencyViolation,
    ResourceExhausted,
}

/// BFT consensus errors.
#[derive(Clone, Copy, Debug, PartialEq, Eq, Structural)]
pub enum BftError {
    InsufficientVotes,
    ViewChangeRequired,
    NetworkPartition,
    InvalidProposal,
    CryptographicFailure,
    TimeoutExpired,
}

impl BftError {
    /// Description of the error.
    pub fn message(&self) -> (r: &'static str)
        ensures
            r == (match *self {
                BftError::InsufficientVotes => "Insufficient votes for consensus",
                BftError::ViewChangeRequired => "View change required",
                BftError::NetworkPartition => "Network partition detected",
                BftError::InvalidProposal => "Invalid proposal received",
                BftError::CryptographicFailure => "Cryptographic operation failed",
                BftError::TimeoutExpired => "Consensus timeout expired",
            }),
    {
        match self {
            BftError::InsufficientVotes => "Insufficient votes for consensus",
            BftError::ViewChangeRequired => "View change required",
            BftError::NetworkPartition => "Network partition detected",
            BftError::InvalidProposal => "Invalid proposal received",
            BftError::CryptographicFailure => "Cryptographic operation failed",
            BftError::TimeoutExpired => "Consensus timeout expired",
        }
    }
}

// ---------------------------------------------------------------------
// Hardware isolation of NPU queues
// ---------------------------------------------------------------------

impl HardwareIsolationDomain {
    /// A domain with a network-on-chip isolation bit is isolated at NPU
    /// domain level; without one only process isolation applies.
    pub fn isolation_level(&self) -> (r: HardwareIsolationLevel)
        ensures
            r == (if self.noc_isolation_mask != 0 {
                HardwareIsolationLevel::NPUDomainLevel
            } else {
                HardwareIsolationLevel::ProcessLevel
            }),
    {
        if self.noc_isolation_mask != 0 {
            HardwareIsolationLevel::NPUDomainLevel
        } else {
            HardwareIsolationLevel::ProcessLevel
        }
    }
}

/// The isolation domain of NPU queue `queue_id`: a 1 MiB scratchpad and a
/// 64 KiB read-write-execute MMIO window of its own, and its bit of the
/// network-on-chip mask.
pub open spec fn queue_domain(queue_id: u64) -> HardwareIsolationDomain {
    HardwareIsolationDomain {
        domain_id: queue_id as u32,
        scratchpad_base: (0x1000_0000 + queue_id * 0x10_0000) as u64,
        scratchpad_size: 0x10_0000,
        noc_isolation_mask: (1u64 << queue_id),
        mmio_window: MMIOWindow { base: (0x2000_0000 + queue_id * 0x1_0000) as u64, size: 0x1_0000, access_mask: 7 },
    }
}

/// The isolation domain given to NPU queue `queue_id` (below 64, so that
/// its isolation bit exists).
pub fn npu_queue_domain(queue_id: u64) -> (r: HardwareIsolationDomain)
    requires
        queue_id < 64,
    ensures
        r == queue_domain(queue_id),
        r.noc_isolation_mask != 0,
{
    proof {
        assert(queue_id < 64 ==> (1u64 << queue_id) != 0) by (bit_vector);
    }
    HardwareIsolationDomain {
        domain_id: queue_id as u32,
        scratchpad_base: 0x1000_0000 + queue_id * 0x10_0000,
        scratchpad_size: 1024 * 1024,
        noc_isolation_mask: 1u64 << queue_id,
        mmio_window: MMIOWindow { base: 0x2000_0000 + queue_id * 0x1_0000, size: 64 * 1024, access_mask: 0x7 },
    }
}

/// Distinct NPU queues get disjoint scratchpads, disjoint MMIO windows and
/// different isolation bits.
pub proof fn lemma_queue_domains_disjoint(a: u64, b: u64)
    requires
        a < 64,
        b < 64,
        a != b,
    ensures
        queue_domain(a).scratchpad_base + 0x10_0000 <= queue_domain(b).scratchpad_base
            || queue_domain(b).scratchpad_base + 0x10_0000 <= queue_domain(a).scratchpad_base,
        queue_domain(a).mmio_window.base + 0x1_0000 <= queue_domain(b).mmio_window.base
            || queue_domain(b).mmio_window.base + 0x1_0000 <= queue_domain(a).mmio_window.base,
        queue_domain(a).noc_isolation_mask & queue_domain(b).noc_isolation_mask == 0,
{
    assert(a < 64 && b < 64 && a != b ==> (1u64 << a) & (1u64 << b) == 0) by (bit_vector);
}

/// Priority class of a latency target: critical up to 40 µs, real-time up
/// to 500 µs, batch beyond.
pub fn priority_class_for(latency_target_us: u64) -> (r: PriorityClass)
    ensures
        r == (if latency_target_us <= 40 {
            PriorityClass::Critical
        } else if latency_target_us <= 500 {
            PriorityClass::RealTime
        } else {
            PriorityClass::Batch
        }),
{
    if latency_target_us <= 40 {
        PriorityClass::Critical
    } else if latency_target_us <= 500 {
        PriorityClass::RealTime
    } else {
        PriorityClass::Batch
    }
}

/// Temporal isolation of an NPU capability with the given latency target:
/// 1 ms slices, and for targets up to 40 µs hard real time with 500 ns
/// preemption (else soft real time with 2 µs).
pub fn npu_temporal_spec(latency_target_us: u64) -> (r: TemporalIsolationSpec)
    ensures
        r.time_slice_us == 1000,
        r.preemption_latency_ns == (if latency_target_us <= 40 { 500u64 } else { 2000u64 }),
        r.deadline_guarantee == (if latency_target_us <= 40 {
            DeadlineGuarantee::HardRealTime
        } else {
            DeadlineGuarantee::SoftRealTime
        }),
{
    TemporalIsolationSpec {
        time_slice_us: 1000,
        preemption_latency_ns: if latency_target_us <= 40 {
            500
        } else {
            2000
        },
        deadline_guarantee: if latency_target_us <= 40 {
            DeadlineGuarantee::HardRealTime
        } else {
            DeadlineGuarantee::SoftRealTime
        },
    }
}

// ---------------------------------------------------------------------
// HotStuff quorum rules
// ---------------------------------------------------------------------

/// Byzantine faults tolerated among `n` replicas: `f` with `3f + 1 <= n`.
pub open spec fn faults_tolerated(n: int) -> int {
    (n - 1) / 3
}

/// Votes that make a supermajority of `n` replicas: `2f + 1`.
pub open spec fn quorum_size(n: int) -> int {
    2 * faults_tolerated(n) + 1
}

/// The supermajority threshold of `n` replicas (at least one).
pub fn supermajority_threshold(n: usize) -> (r: usize)
    requires
        n >= 1,
    ensures
        r == quorum_size(n as int),
        1 <= r <= n,
{
    let f = (n - 1) / 3;
    2 * f + 1
}

/// The honest replicas of `n` (all but `f`) can always form a quorum on
/// their own.
pub proof fn lemma_quorum_reachable(n: int)
    requires
        n >= 1,
    ensures
        n - faults_tolerated(n) >= quorum_size(n),
{
}

/// With `3f + 1` replicas, any two quorums share at least `f + 1`
/// replicas, so at least one honest replica is in both.
pub proof fn lemma_quorums_intersect(n: int)
    requires
        n >= 1,
        n % 3 == 1,
    ensures
        2 * quorum_size(n) - n >= faults_tolerated(n) + 1,
{
}

/// Leader of view `view`: the replicas take turns.
pub fn current_leader(view_number: u64, replicas: &[ReplicaNode]) -> (r: u64)
    requires
        replicas@.len() > 0,
    ensures
        r == replicas@[(view_number % (replicas@.len() as u64)) as int].id,
{
    let idx = (view_number % (replicas.len() as u64)) as usize;
    replicas[idx].id
}

/// Number of granted votes among `responses`.
pub open spec fn granted(responses: Seq<Option<[u8; 64]>>) -> nat
    decreases responses.len(),
{
    if responses.len() == 0 {
        0
    } else {
        granted(responses.drop_last()) + (if responses.last() is Some { 1nat } else { 0nat })
    }
}

proof fn lemma_granted_bound(responses: Seq<Option<[u8; 64]>>)
    ensures
        granted(responses) <= responses.len(),
    decreases responses.len(),
{
    if responses.len() > 0 {
        lemma_granted_bound(responses.drop_last());
    }
}

/// The signatures of the first `threshold` replicas that voted, in replica
/// order: replica `i` voted when `responses[i]` holds its signature.
pub open spec fn quorum_of(replicas: Seq<ReplicaNode>, responses: Seq<Option<[u8; 64]>>, threshold: nat) -> Seq<
    (u64, [u8; 64]),
>
    decreases responses.len(),
{
    if responses.len() == 0 || granted(responses.drop_last()) >= threshold {
        if responses.len() == 0 {
            Seq::empty()
        } else {
            quorum_of(replicas, responses.drop_last(), threshold)
        }
    } else {
        let i = responses.len() - 1;
        let prev = quorum_of(replicas, responses.drop_last(), threshold);
        match responses.last() {
            Some(sig) => prev.push((replicas[i].id, sig)),
            None => prev,
        }
    }
}

/// Collects a quorum from the replies to a vote request: `responses[i]` is
/// what replica `i` answered (its signature, or nothing when the request
/// failed). Replicas are asked in order until `threshold` have voted; with
/// fewer votes in all there is no quorum.
pub fn collect_quorum(replicas: &[ReplicaNode], responses: &[Option<[u8; 64]>], threshold: usize) -> (r: Result<
    Vec<(u64, [u8; 64])>,
    BftError,
>)
    requires
        responses@.len() == replicas@.len(),
    ensures
        granted(responses@) < threshold ==> r == Err::<Vec<(u64, [u8; 64])>, BftError>(BftError::InsufficientVotes),
        granted(responses@) >= threshold ==> (r matches Ok(votes) && votes@ == quorum_of(
            replicas@,
            responses@,
            threshold as nat,
        ) && votes@.len() == threshold),
{
    let mut votes: Vec<(u64, [u8; 64])> = Vec::new();
    let mut i: usize = 0;
    let n = replicas.len();
    while i < n
        invariant
            n == replicas@.len(),
            n == responses@.len(),
            i <= n,
            votes@ == quorum_of(replicas@, responses@.take(i as int), threshold as nat),
            votes@.len() == (if granted(responses@.take(i as int)) < threshold {
                granted(responses@.take(i as int))
            } else {
                threshold as nat
            }),
            votes@.len() < threshold ==> granted(responses@.take(i as int)) < threshold,
        ensures
            i <= n,
            i < n ==> votes@.len() >= threshold,
            votes@ == quorum_of(replicas@, responses@.take(i as int), threshold as nat),
            votes@.len() == (if granted(responses@.take(i as int)) < threshold {
                granted(responses@.take(i as int))
            } else {
                threshold as nat
            }),
        decreases n - i,
    {
        if votes.len() >= threshold {
            break;
        }
        let ghost pre = responses@.take(i as int);
        let ghost post = responses@.take(i + 1);
        proof {
            assert(post.drop_last() =~= pre);
            assert(post.last() == responses@[i as int]);
        }
        match responses[i] {
            Some(sig) => {
                votes.push((replicas[i].id, sig));
            },
            None => {},
        }
        i = i + 1;
    }
    proof {
        lemma_quorum_settles(replicas@, responses@, threshold as nat, i as int);
    }
    if votes.len() >= threshold {
        Ok(votes)
    } else {
        Err(BftError::InsufficientVotes)
    }
}

/// Once a prefix of the replies holds a quorum, later replies change
/// neither the quorum nor the count past the threshold.
proof fn lemma_quorum_settles(replicas: Seq<ReplicaNode>, responses: Seq<Option<[u8; 64]>>, threshold: nat, i: int)
    requires
        0 <= i <= responses.len(),
        i < responses.len() ==> granted(responses.take(i)) >= threshold,
    ensures
        quorum_of(replicas, responses, threshold) == quorum_of(replicas, responses.take(i), threshold),
        granted(responses.take(i)) >= threshold ==> granted(responses) >= threshold,
        granted(responses.take(i)) < threshold ==> granted(responses) == granted(responses.take(i)),
    decreases responses.len() - i,
{
    if i == responses.len() {
        assert(responses.take(i) =~= responses);
    } else {
        let next = responses.take(i + 1);
        assert(next.drop_last() =~= responses.take(i));
        lemma_quorum_settles(replicas, responses, threshold, i + 1);
    }
}

} // verus!
