use sis_kernel::kernel::auth::streaming::BehavioralStreamBuffer;
use sis_kernel::kernel::auth::BehavioralEvent;

#[test]
fn test_push_pop() {
    let mut buffer = BehavioralStreamBuffer::<16>::new();

    let event = BehavioralEvent::KeystrokeTiming { interval_us: 100, pressure: 50 };

    assert!(buffer.push(event).is_ok());
    assert_eq!(buffer.len(), 1);

    let popped = buffer.pop().unwrap();
    assert_eq!(popped, event);
    assert!(buffer.is_empty());
}
