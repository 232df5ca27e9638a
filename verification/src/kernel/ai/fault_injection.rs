//! Fault injection bookkeeping and recovery validation: a circuit breaker
//! that opens after repeated failed recoveries, the table of active faults
//! and the accounting of recovery attempts.
//!
//! The engine under test is driven by the caller; what it reports after a
//! recovery attempt comes in as plain values.

use vstd::prelude::*;

verus! {

/// Circuit breaker state codes.
pub const BREAKER_CLOSED: u32 = 0;
pub const BREAKER_OPEN: u32 = 1;
pub const BREAKER_HALF_OPEN: u32 = 2;

/// Circuit breaker states.
#[derive(Clone, Copy, PartialEq, Eq, Structural, Debug)]
pub enum CircuitBreakerState {
    Closed,
    Open,
    HalfOpen,
}

/// State named by a raw state code; unknown codes read as closed.
pub open spec fn breaker_state_of(code: u32) -> CircuitBreakerState {
    if code == 1 {
        CircuitBreakerState::Open
    } else if code == 2 {
        CircuitBreakerState::HalfOpen
    } else {
        CircuitBreakerState::Closed
    }
}

/// Circuit breaker for fault tolerance: opens after `failure_threshold`
/// failures, half-opens once the recovery timeout has passed since the last
/// failure, and closes again on a success while half-open.
pub struct CircuitBreaker {
    state: u32,
    failure_count: u32,
    success_count: u32,
    last_failure_time: u64,
    failure_threshold: u32,
    recovery_timeout_us: u64,
}

impl CircuitBreaker {
    pub closed spec fn state_code(&self) -> u32 {
        self.state
    }

    pub closed spec fn failures(&self) -> u32 {
        self.failure_count
    }

    pub closed spec fn successes(&self) -> u32 {
        self.success_count
    }

    pub closed spec fn last_failure(&self) -> u64 {
        self.last_failure_time
    }

    pub closed spec fn threshold(&self) -> u32 {
        self.failure_threshold
    }

    pub closed spec fn timeout_us(&self) -> u64 {
        self.recovery_timeout_us
    }

    /// The timeout in timer cycles fits in 64 bits.
    pub open spec fn wf(&self) -> bool {
        self.timeout_us() * 1000 <= u64::MAX
    }

    /// A closed breaker: threshold 5 failures, recovery timeout 30 s.
    pub fn new() -> (r: Self)
        ensures
            r.wf(),
            r.state_code() == BREAKER_CLOSED,
            r.failures() == 0,
            r.successes() == 0,
            r.last_failure() == 0,
            r.threshold() == 5,
            r.timeout_us() == 30_000_000,
    {
        CircuitBreaker {
            state: 0,
            failure_count: 0,
            success_count: 0,
            last_failure_time: 0,
            failure_threshold: 5,
            recovery_timeout_us: 30_000_000,
        }
    }

    /// Whether the breaker refuses work at time `now` (in timer cycles). An
    /// open breaker whose timeout has passed since the last failure moves to
    /// half-open and lets work through.
    pub fn is_open(&mut self, now: u64) -> (open: bool)
        requires
            old(self).wf(),
            old(self).state_code() == BREAKER_OPEN ==> now >= old(self).last_failure(),
        ensures
            final(self).wf(),
            final(self).failures() == old(self).failures(),
            final(self).successes() == old(self).successes(),
            final(self).last_failure() == old(self).last_failure(),
            final(self).threshold() == old(self).threshold(),
            final(self).timeout_us() == old(self).timeout_us(),
            open <==> (old(self).state_code() == BREAKER_OPEN && now - old(self).last_failure()
                <= old(self).timeout_us() * 1000),
            (old(self).state_code() == BREAKER_OPEN && !open) ==> final(self).state_code()
                == BREAKER_HALF_OPEN,
            (old(self).state_code() != BREAKER_OPEN || open) ==> final(self).state_code() == old(self).state_code(),
    {
        if self.state == 1 {
            let last_failure = self.last_failure_time;
            if now - last_failure > self.recovery_timeout_us * 1000 {
                self.state = 2;
                false
            } else {
                true
            }
        } else {
            false
        }
    }

    /// Records a successful recovery; a half-open breaker closes and forgets
    /// its failures.
    pub fn record_success(&mut self)
        ensures
            final(self).successes() == old(self).successes().wrapping_add(1),
            old(self).state_code() == BREAKER_HALF_OPEN ==> final(self).state_code() == BREAKER_CLOSED
                && final(self).failures() == 0,
            old(self).state_code() != BREAKER_HALF_OPEN ==> final(self).state_code() == old(self).state_code() && final(self).failures() == old(self).failures(),
            final(self).last_failure() == old(self).last_failure(),
            final(self).threshold() == old(self).threshold(),
            final(self).timeout_us() == old(self).timeout_us(),
    {
        self.success_count = self.success_count.wrapping_add(1);
        if self.state == 2 {
            self.state = 0;
            self.failure_count = 0;
        }
    }

    /// Records a failed recovery at time `now`; reaching the threshold opens
    /// the breaker.
    pub fn record_failure(&mut self, now: u64)
        requires
            old(self).failures() < u32::MAX,
        ensures
            final(self).failures() == old(self).failures() + 1,
            final(self).last_failure() == now,
            final(self).failures() >= old(self).threshold() ==> final(self).state_code() == BREAKER_OPEN,
            final(self).failures() < old(self).threshold() ==> final(self).state_code() == old(self).state_code(),
            final(self).successes() == old(self).successes(),
            final(self).threshold() == old(self).threshold(),
            final(self).timeout_us() == old(self).timeout_us(),
    {
        let failures = self.failure_count + 1;
        self.failure_count = failures;
        self.last_failure_time = now;
        if failures >= self.failure_threshold {
            self.state = 1;
        }
    }

    /// Current state.
    pub fn state(&self) -> (s: CircuitBreakerState)
        ensures
            s == breaker_state_of(self.state_code()),
    {
        match self.state {
            0 => CircuitBreakerState::Closed,
            1 => CircuitBreakerState::Open,
            2 => CircuitBreakerState::HalfOpen,
            _ => CircuitBreakerState::Closed,
        }
    }
}

/// Fault injection types.
#[derive(Clone, Copy, PartialEq, Eq, Structural, Debug)]
pub enum FaultType {
    ComputeUnitFailure,
    DmaCorruption,
    ThermalThrottling,
    MemoryExhaustion,
    NetworkPartition,
    ByzantineFailure,
    TimingViolation,
    PowerLoss,
}

/// Fault injection points.
#[derive(Clone, Copy, PartialEq, Eq, Structural, Debug)]
pub enum InjectionPoint {
    PreModelLoad,
    DuringInference,
    DuringDma,
    DuringWriteback,
    Random,
}

/// Recovery strategies.
#[derive(Clone, Copy, PartialEq, Eq, Structural, Debug)]
pub enum RecoveryStrategy {
    Graceful,
    FastFailover,
    Checkpoint,
    Redundancy,
}

/// Fault configuration.
#[derive(Clone, Copy, Debug)]
pub struct FaultConfig {
    pub deterministic: bool,
    pub random_seed: u64,
    pub max_concurrent_faults: u32,
    pub default_duration_us: u32,
}

impl Default for FaultConfig {
    fn default() -> (r: Self)
        ensures
            r.deterministic,
            r.random_seed == 12345,
            r.max_concurrent_faults == 3,
            r.default_duration_us == 10_000,
    {
        FaultConfig {
            deterministic: true,
            random_seed: 12345,
            max_concurrent_faults: 3,
            default_duration_us: 10_000,
        }
    }
}

/// Unique fault identifier.
#[derive(Clone, Copy, PartialEq, Eq, Structural, Debug)]
pub struct FaultId(pub u32);

/// Active fault descriptor.
#[derive(Clone, Copy, Debug)]
pub struct ActiveFault {
    pub id: FaultId,
    pub fault_type: FaultType,
    pub injection_point: InjectionPoint,
    pub start_time: u64,
    pub duration_us: u32,
    pub recovery_attempted: bool,
    pub recovery_successful: bool,
}

/// State of the engine after a recovery attempt.
#[derive(Clone, Copy, Debug)]
pub struct StateValidation {
    pub is_consistent: bool,
    pub is_responsive: bool,
    pub has_resources: bool,
    pub inference_works: bool,
    pub validation_timestamp: u64,
}

/// Outcome of a recovery test.
#[derive(Clone, Debug)]
pub struct RecoveryResult {
    pub fault_id: FaultId,
    pub recovery_strategy: RecoveryStrategy,
    pub recovery_latency_us: u32,
    pub recovery_successful: bool,
    pub state_validation: StateValidation,
    pub error_details: Option<String>,
}

/// Fault scenario definition.
#[derive(Clone, Debug)]
pub struct FaultScenario {
    pub name: String,
    pub fault_type: FaultType,
    pub injection_point: InjectionPoint,
    pub duration_us: u32,
    pub recovery_strategy: RecoveryStrategy,
}

/// Fault injection campaign.
#[derive(Clone, Debug)]
pub struct FaultCampaign {
    pub name: String,
    pub scenarios: Vec<FaultScenario>,
    pub inter_scenario_delay_us: u32,
}

/// Result of one scenario.
#[derive(Clone, Debug)]
pub struct FaultScenarioResult {
    pub scenario: FaultScenario,
    pub recovery_result: Option<RecoveryResult>,
    pub injection_successful: bool,
    pub error: Option<String>,
}

/// Result of a campaign.
#[derive(Clone, Debug)]
pub struct FaultCampaignResult {
    pub campaign_name: String,
    pub total_scenarios: usize,
    pub successful_injections: usize,
    pub successful_recoveries: usize,
    pub campaign_duration_us: u32,
    pub scenario_results: Vec<FaultScenarioResult>,
}

/// Errors of the fault injector.
#[derive(Clone, Copy, PartialEq, Eq, Structural, Debug)]
pub enum FaultError {
    /// The circuit breaker is open: the system is recovering.
    CircuitBreakerOpen,
    /// No active fault has the given identifier.
    FaultNotFound,
}

/// What the engine reported for one recovery attempt.
#[derive(Clone, Copy, Debug)]
pub struct RecoveryObservation {
    /// Timer value (cycles) when the fault is injected and the recovery judged.
    pub now: u64,
    /// The recovery action itself succeeded.
    pub recovery_ok: bool,
    /// Engine state checked after the recovery.
    pub validation: StateValidation,
    /// Cycles the recovery took.
    pub latency_cycles: u64,
}

/// Counts post-recovery validations and the inconsistent ones.
pub struct RecoveryValidator {
    validation_checkpoints: u32,
    consistency_failures: u32,
}

impl RecoveryValidator {
    pub closed spec fn checkpoints(&self) -> u32 {
        self.validation_checkpoints
    }

    pub closed spec fn inconsistencies(&self) -> u32 {
        self.consistency_failures
    }

    pub fn new() -> (r: Self)
        ensures
            r.checkpoints() == 0,
            r.inconsistencies() == 0,
    {
        RecoveryValidator { validation_checkpoints: 0, consistency_failures: 0 }
    }

    /// Judges the engine state after a recovery from what the engine
    /// reported: it is consistent when it answers, has resources and runs
    /// an inference.
    pub fn validate_post_recovery_state(
        &mut self,
        is_responsive: bool,
        has_resources: bool,
        inference_works: bool,
        now: u64,
    ) -> (v: StateValidation)
        ensures
            v.is_consistent == (is_responsive && has_resources && inference_works),
            v.is_responsive == is_responsive,
            v.has_resources == has_resources,
            v.inference_works == inference_works,
            v.validation_timestamp == now,
            final(self).checkpoints() == old(self).checkpoints().wrapping_add(1),
            final(self).inconsistencies() == if v.is_consistent {
                old(self).inconsistencies()
            } else {
                old(self).inconsistencies().wrapping_add(1)
            },
    {
        self.validation_checkpoints = self.validation_checkpoints.wrapping_add(1);
        let is_consistent = is_responsive && has_resources && inference_works;
        if !is_consistent {
            self.consistency_failures = self.consistency_failures.wrapping_add(1);
        }
        StateValidation {
            is_consistent,
            is_responsive,
            has_resources,
            inference_works,
            validation_timestamp: now,
        }
    }
}

/// Identifiers of the faults in `s` are pairwise distinct.
pub open spec fn fault_ids_unique(s: Seq<ActiveFault>) -> bool {
    forall|i: int, j: int| 0 <= i < j < s.len() ==> (#[trigger] s[i]).id != (#[trigger] s[j]).id
}

/// Position of fault `id` in `s`, if any.
pub open spec fn fault_index(s: Seq<ActiveFault>, id: FaultId) -> Option<int> {
    if exists|i: int| 0 <= i < s.len() && (#[trigger] s[i]).id == id {
        Some(choose|i: int| 0 <= i < s.len() && (#[trigger] s[i]).id == id)
    } else {
        None
    }
}

proof fn lemma_fault_index_at(s: Seq<ActiveFault>, id: FaultId, i: int)
    requires
        fault_ids_unique(s),
        0 <= i < s.len(),
        s[i].id == id,
    ensures
        fault_index(s, id) == Some(i),
{
    assert(exists|k: int| 0 <= k < s.len() && (#[trigger] s[k]).id == id);
    let j = choose|k: int| 0 <= k < s.len() && (#[trigger] s[k]).id == id;
    if j < i {
        assert(s[j].id != s[i].id);
    } else if j > i {
        assert(s[i].id != s[j].id);
    }
}

proof fn lemma_fault_index_absent(s: Seq<ActiveFault>, id: FaultId)
    requires
        forall|k: int| 0 <= k < s.len() ==> (#[trigger] s[k]).id != id,
    ensures
        fault_index(s, id) is None,
{
}

proof fn lemma_unique_update(s: Seq<ActiveFault>, i: int, f: ActiveFault)
    requires
        fault_ids_unique(s),
        0 <= i < s.len(),
        s[i].id == f.id,
    ensures
        fault_ids_unique(s.update(i, f)),
{
    let t = s.update(i, f);
    assert forall|a: int, b: int| 0 <= a < b < t.len() implies (#[trigger] t[a]).id != (#[trigger] t[b]).id by {
        assert(s[a].id != s[b].id);
    }
}

proof fn lemma_unique_push(s: Seq<ActiveFault>, f: ActiveFault)
    requires
        fault_ids_unique(s),
        forall|k: int| 0 <= k < s.len() ==> (#[trigger] s[k]).id != f.id,
    ensures
        fault_ids_unique(s.push(f)),
{
    let t = s.push(f);
    assert forall|a: int, b: int| 0 <= a < b < t.len() implies (#[trigger] t[a]).id != (#[trigger] t[b]).id by {
        if b < s.len() {
            assert(s[a].id != s[b].id);
        } else {
            assert(s[a].id != f.id);
        }
    }
}

proof fn lemma_unique_remove(s: Seq<ActiveFault>, i: int)
    requires
        fault_ids_unique(s),
        0 <= i < s.len(),
    ensures
        fault_ids_unique(s.remove(i)),
{
    let t = s.remove(i);
    assert forall|a: int, b: int| 0 <= a < b < t.len() implies (#[trigger] t[a]).id != (#[trigger] t[b]).id by {
        let a0 = if a < i { a } else { a + 1 };
        let b0 = if b < i { b } else { b + 1 };
        assert(t[a] == s[a0] && t[b] == s[b0]);
        assert(s[a0].id != s[b0].id);
    }
}

/// Table after recording `f`: it replaces an entry with its id, or is added.
pub open spec fn faults_with(s: Seq<ActiveFault>, f: ActiveFault) -> Seq<ActiveFault> {
    match fault_index(s, f.id) {
        Some(i) => s.update(i, f),
        None => s.push(f),
    }
}

/// Table after clearing fault `id`.
pub open spec fn faults_without(s: Seq<ActiveFault>, id: FaultId) -> Seq<ActiveFault> {
    match fault_index(s, id) {
        Some(i) => s.remove(i),
        None => s,
    }
}

/// Every active fault has an identifier already issued: at most `issued`.
pub open spec fn ids_issued(s: Seq<ActiveFault>, issued: u64) -> bool {
    forall|k: int| 0 <= k < s.len() ==> (#[trigger] s[k]).id.0 <= issued
}

proof fn lemma_issued_with(s: Seq<ActiveFault>, f: ActiveFault, bound: u64)
    requires
        ids_issued(s, bound),
        f.id.0 <= bound,
    ensures
        ids_issued(faults_with(s, f), bound),
{
    let t = faults_with(s, f);
    match fault_index(s, f.id) {
        Some(i) => {
            assert forall|k: int| 0 <= k < t.len() implies (#[trigger] t[k]).id.0 <= bound by {
                if k != i {
                    assert(t[k] == s[k]);
                }
            }
        },
        None => {
            assert forall|k: int| 0 <= k < t.len() implies (#[trigger] t[k]).id.0 <= bound by {
                if k < s.len() {
                    assert(t[k] == s[k]);
                }
            }
        },
    }
}

proof fn lemma_issued_without(s: Seq<ActiveFault>, id: FaultId, bound: u64)
    requires
        ids_issued(s, bound),
    ensures
        ids_issued(faults_without(s, id), bound),
{
    let t = faults_without(s, id);
    match fault_index(s, id) {
        Some(i) => {
            assert forall|k: int| 0 <= k < t.len() implies (#[trigger] t[k]).id.0 <= bound by {
                if k < i {
                    assert(t[k] == s[k]);
                } else {
                    assert(t[k] == s[k + 1]);
                }
            }
        },
        None => {},
    }
}

/// Recording a fault with a fresh identifier and then clearing it leaves
/// the table as it was.
proof fn lemma_fresh_round_trip(s: Seq<ActiveFault>, f: ActiveFault, issued: u64)
    requires
        fault_ids_unique(s),
        ids_issued(s, issued),
        f.id.0 > issued,
    ensures
        faults_without(faults_with(s, f), f.id) == s,
{
    if fault_index(s, f.id) is Some {
        let i = fault_index(s, f.id)->Some_0;
        assert(s[i].id.0 <= issued);
    }
    let t = s.push(f);
    assert(t[s.len() as int].id == f.id);
    assert(fault_index(t, f.id) == Some(s.len() as int)) by {
        let j = choose|j: int| 0 <= j < t.len() && (#[trigger] t[j]).id == f.id;
        if j < s.len() {
            assert(t[j] == s[j]);
            assert(s[j].id.0 <= issued);
        }
    }
    assert(t.remove(s.len() as int) =~= s);
}

/// The part of a circuit breaker that decides whether it refuses work:
/// its state code, its failure count and the time of its last failure.
pub open spec fn breaker_key(b: CircuitBreaker) -> (u32, u32, u64) {
    (b.state_code(), b.failures(), b.last_failure())
}

/// A breaker in state `st` refuses an injection at time `now`.
pub open spec fn breaker_refuses(st: (u32, u32, u64), timeout_us: u64, now: u64) -> bool {
    st.0 == BREAKER_OPEN && now - st.2 <= timeout_us * 1000
}

/// The breaker after one scenario at time `now`: unchanged when it refuses
/// the injection; otherwise an open breaker half-opens, and the recovery
/// outcome is recorded (a success closes a half-open breaker and forgets
/// its failures; a failure is counted, stamped, and opens the breaker at
/// the threshold).
pub open spec fn breaker_step(st: (u32, u32, u64), threshold: u32, timeout_us: u64, now: u64, recovered: bool) -> (
    u32,
    u32,
    u64,
) {
    if breaker_refuses(st, timeout_us, now) {
        st
    } else {
        let s1 = if st.0 == BREAKER_OPEN {
            BREAKER_HALF_OPEN
        } else {
            st.0
        };
        if recovered {
            if s1 == BREAKER_HALF_OPEN {
                (BREAKER_CLOSED, 0u32, st.2)
            } else {
                (s1, st.1, st.2)
            }
        } else {
            let f = (st.1 + 1) as u32;
            (if f >= threshold {
                BREAKER_OPEN
            } else {
                s1
            }, f, now)
        }
    }
}

/// The breaker after the first `k` scenarios of a campaign with the given
/// observations.
pub open spec fn breaker_trace(
    st0: (u32, u32, u64),
    threshold: u32,
    timeout_us: u64,
    obs: Seq<RecoveryObservation>,
    k: int,
) -> (u32, u32, u64)
    decreases k,
{
    if k <= 0 {
        st0
    } else {
        breaker_step(
            breaker_trace(st0, threshold, timeout_us, obs, k - 1),
            threshold,
            timeout_us,
            obs[k - 1].now,
            obs[k - 1].recovery_ok && obs[k - 1].validation.is_consistent,
        )
    }
}

/// Fault injection orchestrator.
pub struct FaultInjector {
    config: FaultConfig,
    active_faults: Vec<ActiveFault>,
    total_faults_injected: u64,
    successful_recoveries: u64,
    failed_recoveries: u64,
    circuit_breaker: CircuitBreaker,
    recovery_validator: RecoveryValidator,
}

impl FaultInjector {
    pub closed spec fn faults(&self) -> Seq<ActiveFault> {
        self.active_faults@
    }

    pub closed spec fn injected(&self) -> u64 {
        self.total_faults_injected
    }

    pub closed spec fn recovered(&self) -> u64 {
        self.successful_recoveries
    }

    pub closed spec fn unrecovered(&self) -> u64 {
        self.failed_recoveries
    }

    pub closed spec fn breaker(&self) -> CircuitBreaker {
        self.circuit_breaker
    }

    pub closed spec fn settings(&self) -> FaultConfig {
        self.config
    }

    pub open spec fn wf(&self) -> bool {
        &&& fault_ids_unique(self.faults())
        &&& self.breaker().wf()
        &&& self.injected() < u32::MAX ==> ids_issued(self.faults(), self.injected())
    }

    /// An injector with no active fault and a closed breaker.
    pub fn new(config: FaultConfig) -> (r: Self)
        ensures
            r.wf(),
            r.settings() == config,
            r.faults().len() == 0,
            r.injected() == 0,
            r.recovered() == 0,
            r.unrecovered() == 0,
            r.breaker().state_code() == BREAKER_CLOSED,
            r.breaker().failures() == 0,
            r.breaker().threshold() == 5,
    {
        FaultInjector {
            config,
            active_faults: Vec::new(),
            total_faults_injected: 0,
            successful_recoveries: 0,
            failed_recoveries: 0,
            circuit_breaker: CircuitBreaker::new(),
            recovery_validator: RecoveryValidator::new(),
        }
    }

    /// Identifier the next injected fault gets.
    pub open spec fn next_fault_id(&self) -> FaultId {
        FaultId(((self.injected() as u32) + 1) as u32)
    }

    /// Records `f`, replacing an active fault with the same identifier.
    fn record_fault(&mut self, f: ActiveFault)
        requires
            fault_ids_unique(old(self).faults()),
        ensures
            fault_ids_unique(final(self).faults()),
            final(self).faults() == faults_with(old(self).faults(), f),
            final(self).injected() == old(self).injected(),
            final(self).recovered() == old(self).recovered(),
            final(self).unrecovered() == old(self).unrecovered(),
            final(self).breaker() == old(self).breaker(),
            final(self).settings() == old(self).settings(),
    {
        let ghost s = self.active_faults@;
        let mut i: usize = 0;
        while i < self.active_faults.len()
            invariant
                *self == *old(self),
                self.active_faults@ == s,
                fault_ids_unique(s),
                0 <= i <= s.len(),
                forall|k: int| 0 <= k < i ==> (#[trigger] s[k]).id != f.id,
            decreases s.len() - i,
        {
            if self.active_faults[i].id == f.id {
                proof {
                    assert(s[i as int].id == f.id);
                }
                self.active_faults.set(i, f);
                proof {
                    lemma_fault_index_at(s, f.id, i as int);
                    lemma_unique_update(s, i as int, f);
                }
                return;
            }
            i = i + 1;
        }
        self.active_faults.push(f);
        proof {
            lemma_fault_index_absent(s, f.id);
            lemma_unique_push(s, f);
        }
    }

    /// Removes fault `id` from the active table, if present.
    fn clear_fault(&mut self, id: FaultId)
        requires
            fault_ids_unique(old(self).faults()),
        ensures
            fault_ids_unique(final(self).faults()),
            final(self).faults() == faults_without(old(self).faults(), id),
            final(self).injected() == old(self).injected(),
            final(self).recovered() == old(self).recovered(),
            final(self).unrecovered() == old(self).unrecovered(),
            final(self).breaker() == old(self).breaker(),
            final(self).settings() == old(self).settings(),
    {
        let ghost s = self.active_faults@;
        let mut i: usize = 0;
        while i < self.active_faults.len()
            invariant
                *self == *old(self),
                self.active_faults@ == s,
                fault_ids_unique(s),
                0 <= i <= s.len(),
                forall|k: int| 0 <= k < i ==> (#[trigger] s[k]).id != id,
            decreases s.len() - i,
        {
            if self.active_faults[i].id == id {
                self.active_faults.remove(i);
                proof {
                    lemma_fault_index_at(s, id, i as int);
                    lemma_unique_remove(s, i as int);
                }
                return;
            }
            i = i + 1;
        }
        proof {
            lemma_fault_index_absent(s, id);
        }
    }

    /// Injects a fault at time `now` unless the circuit breaker is open. The
    /// fault gets the next identifier and enters the active table.
    pub fn inject_fault(
        &mut self,
        fault_type: FaultType,
        injection_point: InjectionPoint,
        duration_us: u32,
        now: u64,
    ) -> (res: Result<FaultId, FaultError>)
        requires
            old(self).wf(),
            (old(self).injected() as u32) < u32::MAX,
            old(self).breaker().state_code() == BREAKER_OPEN ==> now >= old(self).breaker().last_failure(),
        ensures
            final(self).wf(),
            res is Err <==> (old(self).breaker().state_code() == BREAKER_OPEN && now - old(self).breaker().last_failure() <= old(self).breaker().timeout_us() * 1000),
            res is Err ==> res == Err::<FaultId, FaultError>(FaultError::CircuitBreakerOpen)
                && final(self).faults() == old(self).faults() && final(self).injected() == old(self).injected(),
            res is Ok ==> {
                &&& res == Ok::<FaultId, FaultError>(old(self).next_fault_id())
                &&& final(self).faults() == faults_with(
                    old(self).faults(),
                    ActiveFault {
                        id: old(self).next_fault_id(),
                        fault_type,
                        injection_point,
                        start_time: now,
                        duration_us,
                        recovery_attempted: false,
                        recovery_successful: false,
                    },
                )
                &&& final(self).injected() == old(self).injected().wrapping_add(1)
            },
            final(self).recovered() == old(self).recovered(),
            final(self).unrecovered() == old(self).unrecovered(),
            final(self).breaker().failures() == old(self).breaker().failures(),
            final(self).breaker().threshold() == old(self).breaker().threshold(),
            final(self).breaker().last_failure() == old(self).breaker().last_failure(),
            final(self).breaker().timeout_us() == old(self).breaker().timeout_us(),
            res is Ok ==> final(self).breaker().state_code() == (if old(self).breaker().state_code() == BREAKER_OPEN {
                BREAKER_HALF_OPEN
            } else {
                old(self).breaker().state_code()
            }),
            res is Err ==> final(self).breaker().state_code() == old(self).breaker().state_code(),
    {
        let id = FaultId((#[verifier::truncate] (self.total_faults_injected as u32)) + 1);
        if self.circuit_breaker.is_open(now) {
            return Err(FaultError::CircuitBreakerOpen);
        }
        let fault = ActiveFault {
            id,
            fault_type,
            injection_point,
            start_time: now,
            duration_us,
            recovery_attempted: false,
            recovery_successful: false,
        };
        let ghost pre = self.faults();
        let ghost issued = self.injected();
        self.record_fault(fault);
        self.total_faults_injected = self.total_faults_injected.wrapping_add(1);
        proof {
            assert(issued == 0xffff_ffff_ffff_ffffu64 ==> (issued as u32) == 0xffff_ffffu32) by (bit_vector);
            if self.injected() < u32::MAX {
                assert(issued + 1 < u32::MAX);
                assert(ids_issued(pre, issued));
                assert(id.0 == issued + 1);
                assert(ids_issued(pre, (issued + 1) as u64));
                lemma_issued_with(pre, fault, (issued + 1) as u64);
            }
        }
        Ok(id)
    }

    /// Concludes the recovery test of fault `fault_id` from what the engine
    /// reported: the recovery counts as successful when the recovery action
    /// succeeded and the state validates. The breaker is told the outcome
    /// and the fault leaves the active table.
    pub fn test_recovery(
        &mut self,
        fault_id: FaultId,
        recovery_strategy: RecoveryStrategy,
        obs: RecoveryObservation,
    ) -> (res: Result<RecoveryResult, FaultError>)
        requires
            old(self).wf(),
            old(self).breaker().failures() < u32::MAX,
        ensures
            final(self).wf(),
            fault_index(old(self).faults(), fault_id) is None <==> res is Err,
            res is Err ==> res == Err::<RecoveryResult, FaultError>(FaultError::FaultNotFound)
                && final(self).faults() == old(self).faults() && final(self).recovered() == old(self).recovered() && final(self).unrecovered() == old(self).unrecovered() && final(self).breaker()
                == old(self).breaker(),
            res matches Ok(r) ==> {
                &&& r.fault_id == fault_id
                &&& r.recovery_strategy == recovery_strategy
                &&& r.recovery_successful == (obs.recovery_ok && obs.validation.is_consistent)
                &&& r.recovery_latency_us == (obs.latency_cycles / 1000) as u32
                &&& r.state_validation == obs.validation
                &&& r.error_details is Some <==> !obs.recovery_ok
                &&& final(self).faults() == faults_without(old(self).faults(), fault_id)
                &&& r.recovery_successful ==> final(self).recovered() == old(self).recovered().wrapping_add(1)
                    && final(self).unrecovered() == old(self).unrecovered()
                &&& !r.recovery_successful ==> final(self).unrecovered() == old(self).unrecovered().wrapping_add(1)
                    && final(self).recovered() == old(self).recovered()
                &&& r.recovery_successful ==> final(self).breaker().last_failure() == old(self).breaker().last_failure()
                &&& r.recovery_successful ==> final(self).breaker().failures() == (if old(self).breaker().state_code()
                    == BREAKER_HALF_OPEN {
                    0
                } else {
                    old(self).breaker().failures()
                })
                &&& !r.recovery_successful ==> final(self).breaker().failures() == old(self).breaker().failures() + 1
                    && final(self).breaker().last_failure() == obs.now
                &&& r.recovery_successful ==> final(self).breaker().state_code() == (if old(self).breaker().state_code()
                    == BREAKER_HALF_OPEN {
                    BREAKER_CLOSED
                } else {
                    old(self).breaker().state_code()
                })
                &&& !r.recovery_successful ==> final(self).breaker().state_code() == (if old(self).breaker().failures()
                    + 1 >= old(self).breaker().threshold() {
                    BREAKER_OPEN
                } else {
                    old(self).breaker().state_code()
                })
            },
            final(self).injected() == old(self).injected(),
            final(self).breaker().threshold() == old(self).breaker().threshold(),
            final(self).breaker().timeout_us() == old(self).breaker().timeout_us(),
    {
        let mut i: usize = 0;
        while i < self.active_faults.len() && self.active_faults[i].id != fault_id
            invariant
                0 <= i <= self.active_faults@.len(),
                fault_ids_unique(self.active_faults@),
                forall|k: int| 0 <= k < i ==> (#[trigger] self.active_faults@[k]).id != fault_id,
            decreases self.active_faults@.len() - i,
        {
            i = i + 1;
        }
        if i == self.active_faults.len() {
            proof {
                lemma_fault_index_absent(self.active_faults@, fault_id);
            }
            return Err(FaultError::FaultNotFound);
        }
        proof {
            lemma_fault_index_at(self.active_faults@, fault_id, i as int);
        }
        let recovery_successful = obs.recovery_ok && obs.validation.is_consistent;
        if recovery_successful {
            self.successful_recoveries = self.successful_recoveries.wrapping_add(1);
            self.circuit_breaker.record_success();
        } else {
            self.failed_recoveries = self.failed_recoveries.wrapping_add(1);
            self.circuit_breaker.record_failure(obs.now);
        }
        self.clear_fault(fault_id);
        let error_details = if obs.recovery_ok {
            None
        } else {
            Some("Recovery error".to_string())
        };
        Ok(
            RecoveryResult {
                fault_id,
                recovery_strategy,
                recovery_latency_us: (#[verifier::truncate] ((obs.latency_cycles / 1000) as u32)),
                recovery_successful,
                state_validation: obs.validation,
                error_details,
            },
        )
    }
}

/// Number of scenario results whose fault was injected.
pub open spec fn count_injected(s: Seq<FaultScenarioResult>) -> nat
    decreases s.len(),
{
    if s.len() == 0 {
        0
    } else {
        count_injected(s.drop_last()) + (if s.last().injection_successful { 1nat } else { 0nat })
    }
}

/// Number of scenario results whose recovery succeeded.
pub open spec fn count_recovered(s: Seq<FaultScenarioResult>) -> nat
    decreases s.len(),
{
    if s.len() == 0 {
        0
    } else {
        count_recovered(s.drop_last()) + (if s.last().recovery_result matches Some(r)
            && r.recovery_successful {
            1nat
        } else {
            0nat
        })
    }
}

proof fn lemma_counts_bounded(s: Seq<FaultScenarioResult>)
    ensures
        count_injected(s) <= s.len(),
        count_recovered(s) <= s.len(),
    decreases s.len(),
{
    if s.len() > 0 {
        lemma_counts_bounded(s.drop_last());
    }
}

proof fn lemma_recorded_is_found(s: Seq<ActiveFault>, f: ActiveFault)
    requires
        fault_ids_unique(s),
    ensures
        fault_index(faults_with(s, f), f.id) is Some,
{
    let t = faults_with(s, f);
    match fault_index(s, f.id) {
        Some(i) => {
            assert(0 <= i < s.len() && s[i].id == f.id);
            assert(t[i].id == f.id);
        },
        None => {
            assert(t[s.len() as int].id == f.id);
        },
    }
}

impl FaultInjector {
    /// Runs every scenario of `campaign` in order: inject its fault, then
    /// judge the recovery from the matching entry of `observations` (what
    /// the engine reported for that scenario). An injection refused by the
    /// open circuit breaker is recorded as failed.
    pub fn run_fault_campaign(
        &mut self,
        campaign: FaultCampaign,
        observations: &Vec<RecoveryObservation>,
        duration_cycles: u64,
    ) -> (r: FaultCampaignResult)
        requires
            old(self).wf(),
            observations@.len() == campaign.scenarios@.len(),
            old(self).injected() + campaign.scenarios@.len() < u32::MAX,
            old(self).breaker().failures() + campaign.scenarios@.len() < u32::MAX,
            forall|i: int|
                0 <= i < observations@.len() ==> (#[trigger] observations@[i]).now >= old(self).breaker().last_failure(),
            forall|i: int, j: int|
                0 <= i <= j < observations@.len() ==> (#[trigger] observations@[i]).now <= (
                #[trigger] observations@[j]).now,
        ensures
            final(self).wf(),
            r.campaign_name == campaign.name,
            r.total_scenarios == campaign.scenarios@.len(),
            r.scenario_results@.len() == campaign.scenarios@.len(),
            r.successful_injections == count_injected(r.scenario_results@),
            r.successful_recoveries == count_recovered(r.scenario_results@),
            r.campaign_duration_us == (duration_cycles / 1000) as u32,
            forall|i: int|
                0 <= i < r.scenario_results@.len() ==> {
                    let sr = #[trigger] r.scenario_results@[i];
                    let obs = observations@[i];
                    &&& sr.scenario == campaign.scenarios@[i]
                    &&& sr.injection_successful == !breaker_refuses(
                        breaker_trace(
                            breaker_key(old(self).breaker()),
                            old(self).breaker().threshold(),
                            old(self).breaker().timeout_us(),
                            observations@,
                            i,
                        ),
                        old(self).breaker().timeout_us(),
                        obs.now,
                    )
                    &&& sr.injection_successful ==> (sr.recovery_result matches Some(rr)
                        && rr.recovery_successful == (obs.recovery_ok && obs.validation.is_consistent)
                        && rr.recovery_strategy == campaign.scenarios@[i].recovery_strategy)
                    &&& !sr.injection_successful ==> sr.recovery_result is None && sr.error is Some
                },
            final(self).faults() == old(self).faults(),
            breaker_key(final(self).breaker()) == breaker_trace(
                breaker_key(old(self).breaker()),
                old(self).breaker().threshold(),
                old(self).breaker().timeout_us(),
                observations@,
                campaign.scenarios@.len() as int,
            ),
            final(self).injected() <= old(self).injected() + campaign.scenarios@.len(),
    {
        let ghost all = campaign.scenarios@;
        let ghost b0 = old(self).breaker();
        let FaultCampaign { name, scenarios, inter_scenario_delay_us: _ } = campaign;
        let mut remaining = scenarios;
        let n = remaining.len();
        let mut results: Vec<FaultScenarioResult> = Vec::new();
        let mut injected_count: usize = 0;
        let mut recovered_count: usize = 0;
        let mut i: usize = 0;
        while i < n
            invariant
                n == all.len(),
                n == observations@.len(),
                0 <= i <= n,
                remaining@ == all.skip(i as int),
                self.wf(),
                results@.len() == i,
                self.injected() <= old(self).injected() + i,
                self.breaker().failures() <= old(self).breaker().failures() + i,
                old(self).injected() + n < u32::MAX,
                old(self).breaker().failures() + n < u32::MAX,
                self.faults() == old(self).faults(),
                self.breaker().threshold() == b0.threshold(),
                self.breaker().timeout_us() == b0.timeout_us(),
                breaker_key(self.breaker()) == breaker_trace(breaker_key(b0), b0.threshold(), b0.timeout_us(), observations@, i as int),
                forall|k: int|
                    i <= k < observations@.len() ==> self.breaker().last_failure() <= (
                    #[trigger] observations@[k]).now,
                forall|k: int|
                    0 <= k < observations@.len() ==> (#[trigger] observations@[k]).now >= old(self).breaker().last_failure(),
                forall|a: int, b: int|
                    0 <= a <= b < observations@.len() ==> (#[trigger] observations@[a]).now <= (
                    #[trigger] observations@[b]).now,
                injected_count == count_injected(results@),
                recovered_count == count_recovered(results@),
                forall|k: int|
                    0 <= k < i ==> {
                        let sr = #[trigger] results@[k];
                        let obs = observations@[k];
                        &&& sr.scenario == all[k]
                        &&& sr.injection_successful == !breaker_refuses(
                            breaker_trace(breaker_key(b0), b0.threshold(), b0.timeout_us(), observations@, k),
                            b0.timeout_us(),
                            obs.now,
                        )
                        &&& sr.injection_successful ==> (sr.recovery_result matches Some(rr)
                            && rr.recovery_successful == (obs.recovery_ok
                            && obs.validation.is_consistent) && rr.recovery_strategy
                            == all[k].recovery_strategy)
                        &&& !sr.injection_successful ==> sr.recovery_result is None && sr.error is Some
                    },
            decreases n - i,
        {
            proof {
                assert(remaining@.len() > 0);
                assert(remaining@[0] == all[i as int]);
            }
            let scenario = remaining.remove(0);
            proof {
                assert(remaining@ =~= all.skip(i as int + 1));
            }
            let fault_type = scenario.fault_type;
            let injection_point = scenario.injection_point;
            let duration_us = scenario.duration_us;
            let strategy = scenario.recovery_strategy;
            let obs = observations[i];
            proof {
                assert(observations@[i as int].now >= self.breaker().last_failure());
            }
            let ghost before = self.faults();
            let ghost bk = breaker_key(self.breaker());
            let ghost issued = self.injected();
            let injected = self.inject_fault(fault_type, injection_point, duration_us, obs.now);
            let result = match injected {
                Ok(fault_id) => {
                    let ghost f = ActiveFault {
                        id: fault_id,
                        fault_type,
                        injection_point,
                        start_time: obs.now,
                        duration_us,
                        recovery_attempted: false,
                        recovery_successful: false,
                    };
                    proof {
                        lemma_recorded_is_found(before, f);
                    }
                    match self.test_recovery(fault_id, strategy, obs) {
                        Ok(rr) => {
                            proof {
                                lemma_fresh_round_trip(before, f, issued);
                            }
                            FaultScenarioResult {
                                scenario,
                                recovery_result: Some(rr),
                                injection_successful: true,
                                error: None,
                            }
                        },
                        Err(_) => FaultScenarioResult {
                            scenario,
                            recovery_result: None,
                            injection_successful: true,
                            error: Some("Recovery failed".to_string()),
                        },
                    }
                },
                Err(_) => FaultScenarioResult {
                    scenario,
                    recovery_result: None,
                    injection_successful: false,
                    error: Some("Injection failed".to_string()),
                },
            };
            let ghost prev = results@;
            proof {
                lemma_counts_bounded(prev);
            }
            if result.injection_successful {
                injected_count = injected_count + 1;
            }
            if let Some(rr) = &result.recovery_result {
                if rr.recovery_successful {
                    recovered_count = recovered_count + 1;
                }
            }
            results.push(result);
            proof {
                assert(results@.drop_last() == prev);
                assert forall|k: int| i + 1 <= k < observations@.len() implies self.breaker().last_failure()
                    <= (#[trigger] observations@[k]).now by {
                    assert(observations@[i as int].now <= observations@[k].now);
                }
            }
            i = i + 1;
        }
        FaultCampaignResult {
            campaign_name: name,
            total_scenarios: n,
            successful_injections: injected_count,
            successful_recoveries: recovered_count,
            campaign_duration_us: (#[verifier::truncate] ((duration_cycles / 1000) as u32)),
            scenario_results: results,
        }
    }
}

/// Sets up fault injection; there is nothing that can fail.
pub fn init_fault_injection() -> (r: Result<(), &'static str>)
    ensures
        r is Ok,
{
    Ok(())
}

} // verus!
