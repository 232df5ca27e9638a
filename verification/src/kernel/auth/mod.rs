//! Behavioral biometric authentication: events are streamed into a ring
//! buffer and, once ten have arrived, scored against the user's behavioral
//! signature.

pub mod encryption;
pub mod fuzzy;
pub mod neural;
pub mod patterns;
pub mod streaming;

use vstd::prelude::*;
use crate::kernel::auth::patterns::{
    BehavioralBaseline, CognitivePatternMap, LinguisticSignature, NgramHash, PatternFrequency, PatternKey,
    detect_anomaly, is_anomaly,
};
use crate::kernel::auth::streaming::BehavioralStreamBuffer;

verus! {

/// Authentication confidence score (0-100).
#[derive(Clone, Copy, PartialEq, Eq, Structural, Debug)]
pub struct AuthScore(pub u8);

/// Score from which a user counts as authenticated.
pub const AUTH_THRESHOLD: u8 = 75;

impl AuthScore {
    /// The score reaches the authentication threshold.
    pub fn is_sufficient(&self) -> (r: bool)
        ensures
            r == (self.0 >= AUTH_THRESHOLD),
    {
        self.0 >= AUTH_THRESHOLD
    }
}

/// Authentication result.
#[derive(Clone, Copy, PartialEq, Eq, Structural, Debug)]
pub enum AuthResult {
    Authenticated(AuthScore),
    Denied,
    ChallengeRequired,
    Provisional,
}

/// Behavioral event types.
#[derive(Clone, Copy, PartialEq, Eq, Structural, Debug)]
pub enum BehavioralEvent {
    KeystrokeTiming { interval_us: u32, pressure: u8 },
    MouseMovement { velocity: u16, acceleration: u16 },
    CommandSequence { cmd_hash: u32, timing_us: u32 },
    LinguisticPattern { ngram_hash: u32, frequency: u16 },
}

/// Authentication state machine.
#[derive(Clone, Copy, PartialEq, Eq, Structural, Debug)]
pub enum AuthState {
    Idle,
    Analyzing,
    Challenging,
    Authenticated,
    DriftAlert,
}

/// Authentication errors.
#[derive(Clone, Copy, PartialEq, Eq, Structural, Debug)]
pub enum AuthError {
    BufferFull,
    AnalysisError,
    CryptoError,
    NetworkError,
}

/// Performance metrics.
#[derive(Clone, Copy, Debug)]
pub struct AuthMetrics {
    pub total_attempts: u64,
    pub successful_auths: u64,
    pub avg_latency_us: u64,
    pub sub_40us_count: u64,
}

/// A user's behavioral signature.
pub struct BehavioralSignature {
    pub cognitive_patterns: CognitivePatternMap,
    pub linguistic_fingerprint: LinguisticSignature,
    pub baseline: BehavioralBaseline,
    pub version: u64,
}

impl BehavioralSignature {
    /// No patterns yet, default baseline.
    pub fn empty() -> (r: Self)
        ensures
            r.cognitive_patterns.wf(),
            r.cognitive_patterns@ == Map::<PatternKey, PatternFrequency>::empty(),
            r.linguistic_fingerprint.wf(),
            r.linguistic_fingerprint@ == Map::<NgramHash, u32>::empty(),
            r.linguistic_fingerprint.vocabulary() == 0,
            r.linguistic_fingerprint.sentence_length() == 0,
            r.cognitive_patterns.total() == 0,
            r.baseline == BehavioralBaseline::new_spec(),
            r.version == 0,
    {
        BehavioralSignature {
            cognitive_patterns: CognitivePatternMap::new(),
            linguistic_fingerprint: LinguisticSignature::new(),
            baseline: BehavioralBaseline::new(),
            version: 0,
        }
    }
}

impl BehavioralBaseline {
    pub open spec fn new_spec() -> BehavioralBaseline {
        BehavioralBaseline { avg_keystroke_interval: 100_000, avg_mouse_velocity: 100, command_frequency: 10 }
    }
}

/// Running sums of a scoring pass: `(pattern score, keystroke score,
/// keystrokes, mouse score, mouse movements)`.
pub type Tally = (int, int, int, int, int);

/// Score one event adds to the tally.
pub open spec fn tally_step(t: Tally, e: BehavioralEvent, baseline: BehavioralBaseline, patterns: Map<PatternKey, PatternFrequency>) -> Tally {
    match e {
        BehavioralEvent::KeystrokeTiming { interval_us, pressure } => {
            let add: int = if !is_anomaly(baseline, e) {
                if 50_000 < interval_us && interval_us < 300_000 {
                    80
                } else if 30 < pressure && pressure < 200 {
                    70
                } else {
                    40
                }
            } else {
                20
            };
            (t.0, t.1 + add, t.2 + 1, t.3, t.4)
        },
        BehavioralEvent::MouseMovement { velocity, .. } => {
            let add: int = if !is_anomaly(baseline, e) {
                if 10 < velocity && velocity < 1000 {
                    75
                } else {
                    35
                }
            } else {
                15
            };
            (t.0, t.1, t.2, t.3 + add, t.4 + 1)
        },
        BehavioralEvent::CommandSequence { cmd_hash, .. } => {
            let key = PatternKey(cmd_hash as u64);
            (t.0 + if patterns.contains_key(key) {
                patterns[key].confidence as int
            } else {
                0
            }, t.1, t.2, t.3, t.4)
        },
        BehavioralEvent::LinguisticPattern { frequency, .. } => {
            let add: int = if frequency > 100 {
                60
            } else if frequency > 10 {
                40
            } else {
                20
            };
            (t.0 + add, t.1, t.2, t.3, t.4)
        },
    }
}

/// Tally of a sequence of events, in order.
pub open spec fn tally(events: Seq<BehavioralEvent>, baseline: BehavioralBaseline, patterns: Map<PatternKey, PatternFrequency>) -> Tally
    decreases events.len(),
{
    if events.len() == 0 {
        (0, 0, 0, 0, 0)
    } else {
        tally_step(tally(events.drop_last(), baseline, patterns), events.last(), baseline, patterns)
    }
}

/// Combined confidence: pattern score plus 40 % of the average keystroke
/// score and 30 % of the average mouse score.
pub open spec fn combined_confidence(t: Tally) -> int {
    t.0 + (if t.2 > 0 {
        (t.1 / t.2) * 40 / 100
    } else {
        0
    }) + (if t.4 > 0 {
        (t.3 / t.4) * 30 / 100
    } else {
        0
    })
}

/// Decision on a confidence: from 75 authenticated, above 50 a challenge,
/// above 25 provisional, else denied.
pub open spec fn decision(confidence: int) -> AuthResult {
    let s: u8 = (if confidence < 100 {
        confidence
    } else {
        100
    }) as u8;
    if s >= AUTH_THRESHOLD {
        AuthResult::Authenticated(AuthScore(s))
    } else if s > 50 {
        AuthResult::ChallengeRequired
    } else if s > 25 {
        AuthResult::Provisional
    } else {
        AuthResult::Denied
    }
}

/// Result of scoring `events` against a signature.
pub open spec fn assess(events: Seq<BehavioralEvent>, baseline: BehavioralBaseline, patterns: Map<PatternKey, PatternFrequency>) -> AuthResult {
    decision(combined_confidence(tally(events, baseline, patterns)))
}

/// Pattern confidences are percentages.
pub open spec fn confidences_bounded(patterns: Map<PatternKey, PatternFrequency>) -> bool {
    forall|k: PatternKey| #[trigger] patterns.contains_key(k) ==> patterns[k].confidence <= 100
}

proof fn lemma_tally_bounds(events: Seq<BehavioralEvent>, baseline: BehavioralBaseline, patterns: Map<PatternKey, PatternFrequency>)
    requires
        confidences_bounded(patterns),
    ensures
        ({
            let t = tally(events, baseline, patterns);
            &&& 0 <= t.0 <= 100 * events.len()
            &&& 0 <= t.1 <= 80 * t.2
            &&& 0 <= t.3 <= 75 * t.4
            &&& 0 <= t.2 && 0 <= t.4
            &&& t.2 + t.4 <= events.len()
        }),
    decreases events.len(),
{
    if events.len() > 0 {
        lemma_tally_bounds(events.drop_last(), baseline, patterns);
        let e = events.last();
        if let BehavioralEvent::CommandSequence { cmd_hash, .. } = e {
            let key = PatternKey(cmd_hash as u64);
            if patterns.contains_key(key) {
                assert(patterns[key].confidence <= 100);
            }
        }
    }
}

/// Behavioral authenticator.
pub struct SoulprintAuthenticator {
    signature: BehavioralSignature,
    event_stream: BehavioralStreamBuffer<1024>,
    state: AuthState,
    metrics: AuthMetrics,
}

impl SoulprintAuthenticator {
    pub closed spec fn events(&self) -> Seq<BehavioralEvent> {
        self.event_stream@
    }

    pub closed spec fn spec_state(&self) -> AuthState {
        self.state
    }

    pub closed spec fn spec_metrics(&self) -> AuthMetrics {
        self.metrics
    }

    pub closed spec fn baseline(&self) -> BehavioralBaseline {
        self.signature.baseline
    }

    pub closed spec fn patterns(&self) -> Map<PatternKey, PatternFrequency> {
        self.signature.cognitive_patterns@
    }

    pub closed spec fn wf(&self) -> bool {
        &&& self.event_stream.wf()
        &&& self.signature.cognitive_patterns.wf()
        &&& confidences_bounded(self.patterns())
        &&& self.baseline().avg_keystroke_interval <= i64::MAX
        &&& self.baseline().avg_mouse_velocity <= i32::MAX
    }

    /// An idle authenticator with an empty signature and no events.
    pub fn new() -> (r: Self)
        ensures
            r.wf(),
            r.events() == Seq::<BehavioralEvent>::empty(),
            r.spec_state() == AuthState::Idle,
            r.patterns() == Map::<PatternKey, PatternFrequency>::empty(),
            r.baseline() == BehavioralBaseline::new_spec(),
            r.spec_metrics() == (AuthMetrics { total_attempts: 0, successful_auths: 0, avg_latency_us: 0, sub_40us_count: 0 }),
    {
        SoulprintAuthenticator {
            signature: BehavioralSignature::empty(),
            event_stream: BehavioralStreamBuffer::new(),
            state: AuthState::Idle,
            metrics: AuthMetrics { total_attempts: 0, successful_auths: 0, avg_latency_us: 0, sub_40us_count: 0 },
        }
    }

    /// Takes in a behavioral event. A full buffer refuses it. An idle
    /// authenticator starts analyzing; once ten events are buffered they
    /// are all scored (and leave the buffer) and the analysis, which took
    /// `latency_us`, is counted. With fewer events the answer is a denial.
    pub fn process_event(&mut self, event: BehavioralEvent, latency_us: u64) -> (r: Result<AuthResult, AuthError>)
        requires
            old(self).wf(),
            old(self).spec_metrics().avg_latency_us * 9 + latency_us <= u64::MAX,
        ensures
            final(self).wf(),
            final(self).baseline() == old(self).baseline(),
            final(self).patterns() == old(self).patterns(),
            r is Err <==> old(self).events().len() == 1023,
            r is Err ==> r == Err::<AuthResult, AuthError>(AuthError::BufferFull) && final(self).events() == old(self).events()
                && final(self).spec_state() == old(self).spec_state(),
            r is Ok ==> final(self).spec_state() == (if old(self).spec_state() == AuthState::Idle {
                AuthState::Analyzing
            } else {
                old(self).spec_state()
            }),
            r is Ok && old(self).events().len() + 1 >= 10 ==> {
                &&& r == Ok::<AuthResult, AuthError>(assess(old(self).events().push(event), old(self).baseline(), old(self).patterns()))
                &&& final(self).events() == Seq::<BehavioralEvent>::empty()
                &&& final(self).spec_metrics().total_attempts == old(self).spec_metrics().total_attempts.wrapping_add(1)
                &&& final(self).spec_metrics().avg_latency_us == (old(self).spec_metrics().avg_latency_us * 9 + latency_us) / 10
            },
            r is Ok && old(self).events().len() + 1 < 10 ==> r == Ok::<AuthResult, AuthError>(AuthResult::Denied)
                && final(self).events() == old(self).events().push(event) && final(self).spec_metrics() == old(self).spec_metrics(),
    {
        match self.event_stream.push(event) {
            Ok(()) => {},
            Err(_) => {
                return Err(AuthError::BufferFull);
            },
        }
        self.state = match self.state {
            AuthState::Idle => AuthState::Analyzing,
            other => other,
        };
        if self.event_stream.len() >= 10 {
            let result = self.analyze_patterns();
            self.update_metrics(latency_us, &result);
            return Ok(result);
        }
        Ok(AuthResult::Denied)
    }

    /// Scores every buffered event, draining the buffer.
    fn analyze_patterns(&mut self) -> (r: AuthResult)
        requires
            old(self).wf(),
        ensures
            final(self).wf(),
            r == assess(old(self).events(), old(self).baseline(), old(self).patterns()),
            final(self).events() == Seq::<BehavioralEvent>::empty(),
            final(self).spec_state() == old(self).spec_state(),
            final(self).spec_metrics() == old(self).spec_metrics(),
            final(self).baseline() == old(self).baseline(),
            final(self).patterns() == old(self).patterns(),
    {
        let ghost all = self.event_stream@;
        let ghost baseline = self.signature.baseline;
        let ghost patterns = self.signature.cognitive_patterns@;
        let mut confidence_score: u32 = 0;
        let mut total_events: u32 = 0;
        let mut keystroke_confidence: u32 = 0;
        let mut keystroke_count: u32 = 0;
        let mut mouse_confidence: u32 = 0;
        let mut mouse_count: u32 = 0;
        let mut done: bool = false;
        proof {
            assert(all.take(0) =~= Seq::<BehavioralEvent>::empty());
            assert(all.skip(0) =~= all);
            self.event_stream.lemma_len_bound();
        }
        while !done
            invariant
                self.wf(),
                all.len() <= 1023,
                self.signature.baseline == baseline,
                self.signature.cognitive_patterns@ == patterns,
                self.state == old(self).state,
                self.metrics == old(self).metrics,
                baseline == old(self).baseline(),
                patterns == old(self).patterns(),
                all == old(self).events(),
                0 <= total_events <= all.len(),
                self.event_stream@ == all.skip(total_events as int),
                done ==> total_events == all.len(),
                ({
                    let t = tally(all.take(total_events as int), baseline, patterns);
                    &&& confidence_score == t.0
                    &&& keystroke_confidence == t.1
                    &&& keystroke_count == t.2
                    &&& mouse_confidence == t.3
                    &&& mouse_count == t.4
                }),
            decreases all.len() - total_events + (if done { 0int } else { 1int }),
        {
            match self.event_stream.pop() {
                None => {
                    done = true;
                },
                Some(event) => {
                    let ghost k = total_events as int;
                    proof {
                        assert(all.skip(k)[0] == all[k]);
                        assert(all.skip(k).drop_first() =~= all.skip(k + 1));
                        assert(all.take(k + 1).drop_last() =~= all.take(k));
                        assert(all.take(k + 1).last() == all[k]);
                        lemma_tally_bounds(all.take(k), baseline, patterns);
                    }
                    total_events = total_events + 1;
                    match event {
                        BehavioralEvent::KeystrokeTiming { interval_us, pressure } => {
                            keystroke_count = keystroke_count + 1;
                            if !detect_anomaly(&self.signature.baseline, &event) {
                                keystroke_confidence = keystroke_confidence + if interval_us > 50_000
                                    && interval_us < 300_000 {
                                    80
                                } else if pressure > 30 && pressure < 200 {
                                    70
                                } else {
                                    40
                                };
                            } else {
                                keystroke_confidence = keystroke_confidence + 20;
                            }
                        },
                        BehavioralEvent::MouseMovement { velocity, .. } => {
                            mouse_count = mouse_count + 1;
                            if !detect_anomaly(&self.signature.baseline, &event) {
                                mouse_confidence = mouse_confidence + if velocity > 10 && velocity < 1000 {
                                    75
                                } else {
                                    35
                                };
                            } else {
                                mouse_confidence = mouse_confidence + 15;
                            }
                        },
                        BehavioralEvent::CommandSequence { cmd_hash, .. } => {
                            let pattern_key = PatternKey(cmd_hash as u64);
                            match self.signature.cognitive_patterns.get_confidence(pattern_key) {
                                Some(confidence) => {
                                    proof {
                                        assert(patterns.contains_key(pattern_key));
                                    }
                                    confidence_score = confidence_score + confidence;
                                },
                                None => {},
                            }
                        },
                        BehavioralEvent::LinguisticPattern { frequency, .. } => {
                            confidence_score = confidence_score + if frequency > 100 {
                                60
                            } else if frequency > 10 {
                                40
                            } else {
                                20
                            };
                        },
                    }
                },
            }
        }
        proof {
            assert(all.take(all.len() as int) =~= all);
            lemma_tally_bounds(all, baseline, patterns);
        }
        if total_events > 0 {
            if keystroke_count > 0 {
                confidence_score = confidence_score + (keystroke_confidence / keystroke_count) * 40 / 100;
            }
            if mouse_count > 0 {
                confidence_score = confidence_score + (mouse_confidence / mouse_count) * 30 / 100;
            }
        }
        let capped: u8 = if confidence_score < 100 {
            confidence_score as u8
        } else {
            100
        };
        let auth_score = AuthScore(capped);
        if auth_score.is_sufficient() {
            AuthResult::Authenticated(auth_score)
        } else if auth_score.0 > 50 {
            AuthResult::ChallengeRequired
        } else if auth_score.0 > 25 {
            AuthResult::Provisional
        } else {
            AuthResult::Denied
        }
    }

    fn update_metrics(&mut self, latency_us: u64, result: &AuthResult)
        requires
            old(self).metrics.avg_latency_us * 9 + latency_us <= u64::MAX,
        ensures
            final(self).metrics.total_attempts == old(self).metrics.total_attempts.wrapping_add(1),
            final(self).metrics.successful_auths == (if result is Authenticated {
                old(self).metrics.successful_auths.wrapping_add(1)
            } else {
                old(self).metrics.successful_auths
            }),
            final(self).metrics.sub_40us_count == (if latency_us < 40 {
                old(self).metrics.sub_40us_count.wrapping_add(1)
            } else {
                old(self).metrics.sub_40us_count
            }),
            final(self).metrics.avg_latency_us == (old(self).metrics.avg_latency_us * 9 + latency_us) / 10,
            final(self).signature == old(self).signature,
            final(self).event_stream == old(self).event_stream,
            final(self).state == old(self).state,
    {
        self.metrics.total_attempts = self.metrics.total_attempts.wrapping_add(1);
        if let AuthResult::Authenticated(_) = result {
            self.metrics.successful_auths = self.metrics.successful_auths.wrapping_add(1);
        }
        if latency_us < 40 {
            self.metrics.sub_40us_count = self.metrics.sub_40us_count.wrapping_add(1);
        }
        self.metrics.avg_latency_us = (self.metrics.avg_latency_us * 9 + latency_us) / 10;
    }
}

/// Sets up authentication: the master key, pattern storage and, on ARM64,
/// the Neural Engine (whose failure elsewhere is not an error).
pub fn init(master_key: &mut Option<[u8; 32]>, engine: &mut crate::kernel::auth::neural::NeuralEngine, aarch64: bool) -> (r: Result<(), &'static str>)
    ensures
        r is Ok,
        *final(master_key) matches Some(k) && crate::kernel::auth::encryption::is_development_key(k),
        aarch64 ==> final(engine).ready(),
{
    let _ = crate::kernel::auth::encryption::init_keys(master_key);
    let _ = crate::kernel::auth::patterns::init_storage();
    if aarch64 {
        let _ = crate::kernel::auth::neural::init_neural_engine(engine, aarch64);
    }
    Ok(())
}

} // verus!
