use sis_kernel::kernel::auth;
use sis_kernel::kernel::auth::neural::{classify_for_auth, init_neural_engine, NeuralClassification, NeuralEngine};
use sis_kernel::kernel::auth::patterns::{
    detect_anomaly, BehavioralBaseline, CognitivePatternMap, LinguisticSignature, NgramHash, PatternKey,
};
use sis_kernel::kernel::auth::streaming::SlidingWindow;
use sis_kernel::kernel::auth::{AuthError, AuthResult, AuthScore, BehavioralEvent, SoulprintAuthenticator};

fn keystroke(interval_us: u32) -> BehavioralEvent {
    BehavioralEvent::KeystrokeTiming { interval_us, pressure: 100 }
}

fn mouse(velocity: u16) -> BehavioralEvent {
    BehavioralEvent::MouseMovement { velocity, acceleration: 0 }
}

fn feed(a: &mut SoulprintAuthenticator, events: &[BehavioralEvent]) -> AuthResult {
    let mut last = AuthResult::Denied;
    for (i, e) in events.iter().enumerate() {
        last = a.process_event(*e, 30).unwrap();
        if i + 1 < events.len() {
            assert_eq!(last, AuthResult::Denied);
        }
    }
    last
}

#[test]
fn scores_after_ten_events() {
    let mut a = SoulprintAuthenticator::new();
    // Ten typical keystrokes: 80 each, 40 % of the average counts.
    assert_eq!(feed(&mut a, &[keystroke(100_000); 10]), AuthResult::Provisional);
    // The buffer was drained: nine more events are not enough.
    let mut b = SoulprintAuthenticator::new();
    assert_eq!(feed(&mut b, &[mouse(100); 10]), AuthResult::Denied);
    let mut c = SoulprintAuthenticator::new();
    let mut mixed = vec![keystroke(100_000); 5];
    mixed.extend_from_slice(&[mouse(100); 5]);
    assert_eq!(feed(&mut c, &mixed), AuthResult::ChallengeRequired);
    let mut d = SoulprintAuthenticator::new();
    let words = [BehavioralEvent::LinguisticPattern { ngram_hash: 1, frequency: 200 }; 10];
    assert_eq!(feed(&mut d, &words), AuthResult::Authenticated(AuthScore(100)));
}

#[test]
fn scoring_drains_the_buffer() {
    let mut a = SoulprintAuthenticator::new();
    // Every tenth event is scored and empties the buffer, so it never fills.
    for _ in 0..2000 {
        assert_ne!(a.process_event(mouse(100), 10), Err(AuthError::BufferFull));
    }
}

#[test]
fn score_threshold() {
    assert!(AuthScore(75).is_sufficient());
    assert!(!AuthScore(74).is_sufficient());
}

#[test]
fn anomalies_against_baseline() {
    let b = BehavioralBaseline::new();
    assert!(!detect_anomaly(&b, &keystroke(133_333)));
    assert!(detect_anomaly(&b, &keystroke(133_334)));
    assert!(detect_anomaly(&b, &keystroke(60_000)));
    assert!(!detect_anomaly(&b, &mouse(125)));
    assert!(detect_anomaly(&b, &mouse(126)));
    assert!(!detect_anomaly(&b, &BehavioralEvent::CommandSequence { cmd_hash: 1, timing_us: 0 }));
}

#[test]
fn pattern_confidence() {
    let mut m = CognitivePatternMap::new();
    m.observe(PatternKey(1), 10);
    assert_eq!(m.get_confidence(PatternKey(1)), Some(100));
    m.observe(PatternKey(2), 11);
    m.observe(PatternKey(2), 12);
    m.observe(PatternKey(2), 13);
    assert_eq!(m.get_confidence(PatternKey(2)), Some(75));
    assert_eq!(m.get_confidence(PatternKey(1)), Some(100));
    assert_eq!(m.get_confidence(PatternKey(3)), None);
    let mut l = LinguisticSignature::new();
    l.add_ngram(NgramHash(5));
    l.add_ngram(NgramHash(5));
    l.add_ngram(NgramHash(6));
}

#[test]
fn neural_classification_scores() {
    let mut e = NeuralEngine::new();
    let c = NeuralClassification { class_id: 1, confidence: 2, latency_us: 5 };
    assert!(classify_for_auth(&e, c).is_err());
    assert!(init_neural_engine(&mut e, false).is_err());
    assert!(!e.is_available());
    assert!(init_neural_engine(&mut e, true).is_ok());
    assert_eq!(classify_for_auth(&e, c), Ok(AuthScore(11)));
    assert_eq!(classify_for_auth(&e, NeuralClassification { class_id: 2, confidence: 6, latency_us: 5 }), Ok(AuthScore(22)));
    assert_eq!(classify_for_auth(&e, NeuralClassification { class_id: 3, confidence: 8, latency_us: 5 }), Ok(AuthScore(2)));
}

#[test]
fn auth_init_installs_key() {
    let mut key = None;
    let mut engine = NeuralEngine::new();
    assert_eq!(auth::init(&mut key, &mut engine, true), Ok(()));
    assert_eq!(key, Some([0x42; 32]));
    assert!(engine.is_available());
}

#[test]
fn sliding_window_keeps_recent_events() {
    let mut w: SlidingWindow<3> = SlidingWindow::new(1000);
    assert!(w.get_recent().is_empty());
    for v in [1u16, 2, 3, 4] {
        w.add(mouse(v));
    }
    let recent = w.get_recent();
    assert_eq!(recent.len(), 3);
    assert_eq!(recent[0], mouse(4));
    assert_eq!(recent[1], mouse(2));
    assert_eq!(recent[2], mouse(3));
}
