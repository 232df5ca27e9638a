//! Behavioral pattern tables (command patterns, n-grams), the behavioral
//! baseline and anomaly detection against it.

use vstd::prelude::*;
use crate::kernel::auth::BehavioralEvent;
use crate::kernel::keyed::{keys_unique, table_map, lemma_table_lookup, lemma_table_absent, lemma_table_update, lemma_table_push, lemma_table_len};

verus! {

/// Pattern key for indexing.
#[derive(Clone, Copy, PartialEq, Eq, Structural, Debug)]
pub struct PatternKey(pub u64);

/// Pattern frequency counter.
#[derive(Clone, Copy, PartialEq, Eq, Structural, Debug)]
pub struct PatternFrequency {
    pub count: u32,
    pub last_seen: u64,
    pub confidence: u32,
}

/// Percentage of `total` observations that `count` is (total read as at
/// least one).
pub open spec fn confidence_of(count: u32, total: u32) -> u32 {
    ((count * 100) / (if total == 0 {
        1
    } else {
        total as int
    })) as u32
}

/// Command pattern frequencies.
pub struct CognitivePatternMap {
    patterns: Vec<(PatternKey, PatternFrequency)>,
    total_observations: u64,
}

impl CognitivePatternMap {
    /// Frequencies by pattern.
    pub closed spec fn view(&self) -> Map<PatternKey, PatternFrequency> {
        table_map(self.patterns@)
    }

    pub closed spec fn total(&self) -> u64 {
        self.total_observations
    }

    pub closed spec fn wf(&self) -> bool {
        keys_unique(self.patterns@)
    }

    /// No patterns observed.
    pub fn new() -> (r: Self)
        ensures
            r.wf(),
            r@ == Map::<PatternKey, PatternFrequency>::empty(),
            r.total() == 0,
    {
        let r = CognitivePatternMap { patterns: Vec::new(), total_observations: 0 };
        assert(r@ =~= Map::<PatternKey, PatternFrequency>::empty());
        r
    }

    fn find(&self, key: PatternKey) -> (r: Option<usize>)
        requires
            self.wf(),
        ensures
            r is None ==> !self@.contains_key(key),
            r matches Some(i) ==> i < self.patterns@.len() && self.patterns@[i as int].0 == key,
    {
        let mut i: usize = 0;
        while i < self.patterns.len()
            invariant
                i <= self.patterns@.len(),
                forall|k: int| 0 <= k < i ==> (#[trigger] self.patterns@[k]).0 != key,
            decreases self.patterns@.len() - i,
        {
            if self.patterns[i].0 == key {
                return Some(i);
            }
            i = i + 1;
        }
        proof {
            lemma_table_absent(self.patterns@, key);
        }
        None
    }

    /// Records an observation of `key` at `timestamp`: its count grows, its
    /// confidence becomes its share of all observations in percent.
    pub fn observe(&mut self, key: PatternKey, timestamp: u64)
        requires
            old(self).wf(),
            old(self)@.contains_key(key) ==> (old(self)@[key].count + 1) * 100 <= u32::MAX,
        ensures
            final(self).wf(),
            final(self).total() == old(self).total().wrapping_add(1),
            final(self)@ == old(self)@.insert(
                key,
                PatternFrequency {
                    count: (if old(self)@.contains_key(key) {
                        old(self)@[key].count + 1
                    } else {
                        1
                    }) as u32,
                    last_seen: timestamp,
                    confidence: confidence_of(
                        (if old(self)@.contains_key(key) {
                            old(self)@[key].count + 1
                        } else {
                            1
                        }) as u32,
                        old(self).total().wrapping_add(1) as u32,
                    ),
                },
            ),
    {
        let ghost s = self.patterns@;
        let old_count: u32 = match self.find(key) {
            Some(i) => {
                proof {
                    lemma_table_lookup(s, i as int);
                }
                self.patterns[i].1.count
            },
            None => 0,
        };
        let count = old_count + 1;
        self.total_observations = self.total_observations.wrapping_add(1);
        let total = #[verifier::truncate] (self.total_observations as u32);
        let denom: u32 = if total > 1 {
            total
        } else {
            1
        };
        let confidence = (count * 100) / denom;
        let entry = PatternFrequency { count, last_seen: timestamp, confidence };
        match self.find(key) {
            Some(i) => {
                self.patterns.set(i, (key, entry));
                proof {
                    lemma_table_update(s, i as int, entry);
                }
            },
            None => {
                proof {
                    assert forall|k: int| 0 <= k < s.len() implies (#[trigger] s[k]).0 != key by {
                        if s[k].0 == key {
                            lemma_table_lookup(s, k);
                        }
                    }
                    lemma_table_push(s, key, entry);
                }
                self.patterns.push((key, entry));
            },
        }
    }

    /// Confidence of `key`, if it was observed.
    pub fn get_confidence(&self, key: PatternKey) -> (r: Option<u32>)
        requires
            self.wf(),
        ensures
            r is Some <==> self@.contains_key(key),
            r matches Some(c) ==> c == self@[key].confidence,
    {
        match self.find(key) {
            Some(i) => {
                proof {
                    lemma_table_lookup(self.patterns@, i as int);
                }
                Some(self.patterns[i].1.confidence)
            },
            None => None,
        }
    }
}

/// N-gram hash for linguistic patterns.
#[derive(Clone, Copy, PartialEq, Eq, Structural, Debug)]
pub struct NgramHash(pub u32);

/// Linguistic signature: n-gram counts.
pub struct LinguisticSignature {
    ngrams: Vec<(NgramHash, u32)>,
    vocab_size: u32,
    avg_sentence_length: u32,
}

impl LinguisticSignature {
    /// Counts by n-gram.
    pub closed spec fn view(&self) -> Map<NgramHash, u32> {
        table_map(self.ngrams@)
    }

    pub closed spec fn vocabulary(&self) -> u32 {
        self.vocab_size
    }

    pub closed spec fn sentence_length(&self) -> u32 {
        self.avg_sentence_length
    }

    pub closed spec fn wf(&self) -> bool {
        keys_unique(self.ngrams@)
    }

    /// No n-grams.
    pub fn new() -> (r: Self)
        ensures
            r.wf(),
            r@ == Map::<NgramHash, u32>::empty(),
            r.vocabulary() == 0,
            r.sentence_length() == 0,
    {
        let r = LinguisticSignature { ngrams: Vec::new(), vocab_size: 0, avg_sentence_length: 0 };
        assert(r@ =~= Map::<NgramHash, u32>::empty());
        r
    }

    /// Counts one more occurrence of `hash`; the vocabulary size becomes
    /// the number of distinct n-grams.
    pub fn add_ngram(&mut self, hash: NgramHash)
        requires
            old(self).wf(),
            old(self)@.contains_key(hash) ==> old(self)@[hash] < u32::MAX,
        ensures
            final(self).wf(),
            final(self)@ == old(self)@.insert(
                hash,
                (if old(self)@.contains_key(hash) {
                    old(self)@[hash] + 1
                } else {
                    1
                }) as u32,
            ),
            final(self).vocabulary() == final(self)@.dom().len() as u32,
    {
        let ghost s = self.ngrams@;
        let mut i: usize = 0;
        let mut found = false;
        while i < self.ngrams.len() && !found
            invariant
                self.ngrams@ == s,
                keys_unique(s),
                i <= s.len(),
                found ==> i < s.len() && s[i as int].0 == hash,
                !found ==> forall|k: int| 0 <= k < i ==> (#[trigger] s[k]).0 != hash,
            decreases s.len() - i + (if found { 0int } else { 1int }),
        {
            if self.ngrams[i].0 == hash {
                found = true;
            } else {
                i = i + 1;
            }
        }
        if found {
            proof {
                lemma_table_lookup(s, i as int);
            }
            let c = self.ngrams[i].1;
            self.ngrams.set(i, (hash, c + 1));
            proof {
                lemma_table_update(s, i as int, (c + 1) as u32);
            }
        } else {
            proof {
                lemma_table_absent(s, hash);
                lemma_table_push(s, hash, 1u32);
            }
            self.ngrams.push((hash, 1));
        }
        proof {
            lemma_table_len(self.ngrams@);
        }
        self.vocab_size = #[verifier::truncate] (self.ngrams.len() as u32);
    }
}

/// Event statistics over one window.
#[derive(Clone, Copy, Debug)]
pub struct SlidingWindowStats {
    pub duration_us: u64,
    pub event_count: u32,
    pub avg_interval: u64,
}

impl SlidingWindowStats {
    /// No events yet over a window of `duration_us`.
    pub fn new(duration_us: u64) -> (r: Self)
        ensures
            r.duration_us == duration_us,
            r.event_count == 0,
            r.avg_interval == 0,
    {
        SlidingWindowStats { duration_us, event_count: 0, avg_interval: 0 }
    }

    /// Counts one more event.
    pub fn add_event(&mut self)
        ensures
            final(self).event_count == old(self).event_count.wrapping_add(1),
            final(self).duration_us == old(self).duration_us,
            final(self).avg_interval == old(self).avg_interval,
    {
        self.event_count = self.event_count.wrapping_add(1);
    }
}

/// Behavioral baseline for comparison.
#[derive(Clone, Copy, PartialEq, Eq, Structural, Debug)]
pub struct BehavioralBaseline {
    pub avg_keystroke_interval: u64,
    pub avg_mouse_velocity: u32,
    pub command_frequency: u32,
}

impl BehavioralBaseline {
    /// 100 ms between keystrokes, mouse velocity 100, ten commands.
    pub fn new() -> (r: Self)
        ensures
            r.avg_keystroke_interval == 100_000,
            r.avg_mouse_velocity == 100,
            r.command_frequency == 10,
    {
        BehavioralBaseline { avg_keystroke_interval: 100_000, avg_mouse_velocity: 100, command_frequency: 10 }
    }
}

/// Absolute difference.
pub open spec fn abs_diff(a: int, b: int) -> int {
    if a >= b {
        a - b
    } else {
        b - a
    }
}

/// An event is anomalous when it strays from the baseline by more than a
/// third (keystroke interval) or a quarter (mouse velocity); other events
/// never are.
pub open spec fn is_anomaly(baseline: BehavioralBaseline, e: BehavioralEvent) -> bool {
    match e {
        BehavioralEvent::KeystrokeTiming { interval_us, .. } => abs_diff(
            interval_us as int,
            baseline.avg_keystroke_interval as int,
        ) > baseline.avg_keystroke_interval / 3,
        BehavioralEvent::MouseMovement { velocity, .. } => abs_diff(
            velocity as int,
            baseline.avg_mouse_velocity as int,
        ) > baseline.avg_mouse_velocity / 4,
        _ => false,
    }
}

/// Statistical anomaly detection against the baseline.
pub fn detect_anomaly(baseline: &BehavioralBaseline, current: &BehavioralEvent) -> (r: bool)
    requires
        baseline.avg_keystroke_interval <= i64::MAX,
        baseline.avg_mouse_velocity <= i32::MAX,
    ensures
        r == is_anomaly(*baseline, *current),
{
    match current {
        BehavioralEvent::KeystrokeTiming { interval_us, .. } => {
            let baseline_interval = baseline.avg_keystroke_interval;
            let d: i64 = (*interval_us as i64) - (baseline_interval as i64);
            let deviation: i64 = if d < 0 {
                -d
            } else {
                d
            };
            let threshold = baseline_interval / 3;
            deviation > threshold as i64
        },
        BehavioralEvent::MouseMovement { velocity, .. } => {
            let baseline_velocity = baseline.avg_mouse_velocity;
            let d: i32 = (*velocity as i32) - (baseline_velocity as i32);
            let deviation: i32 = if d < 0 {
                -d
            } else {
                d
            };
            let threshold = baseline_velocity / 4;
            deviation > threshold as i32
        },
        _ => false,
    }
}

/// Sets up pattern storage; there is nothing that can fail.
pub fn init_storage() -> (r: Result<(), &'static str>)
    ensures
        r is Ok,
{
    Ok(())
}

} // verus!
