use jesus_twin::admission::{
    may_queue, units_to_reserve, wait_verdict, AdmissionError, Cost, OpenGatekeeper, WaitOutcome,
    WaitQueue,
};

#[test]
fn open_gatekeeper_always_admits() {
    assert_eq!(OpenGatekeeper.admit_request(Cost(1000)), Ok(Cost(1000)));
}

#[test]
fn rejects_cost_larger_than_capacity() {
    assert_eq!(units_to_reserve(Cost(3), 2), Err(AdmissionError::CostTooLarge { cost: 3, capacity: 2 }));
    assert_eq!(units_to_reserve(Cost(2), 2), Ok(2));
}

#[test]
fn zero_cost_still_takes_one_unit() {
    assert_eq!(units_to_reserve(Cost(0), 4), Ok(1));
    assert_eq!(units_to_reserve(Cost(0), 0), Err(AdmissionError::CostTooLarge { cost: 1, capacity: 0 }));
}

#[test]
fn rejects_when_queue_full() {
    assert_eq!(may_queue(0, 0), Err(AdmissionError::Rejected));
    assert_eq!(may_queue(3, 4), Ok(()));
    let mut q = WaitQueue::new(1);
    assert_eq!(q.enter(), Ok(()));
    assert_eq!(q.enter(), Err(AdmissionError::Rejected));
    assert_eq!(q.waiting(), 1);
    q.leave();
    assert_eq!(q.waiting(), 0);
    assert_eq!(q.enter(), Ok(()));
}

#[test]
fn wait_outcomes() {
    assert_eq!(wait_verdict(WaitOutcome::Acquired), Ok(()));
    assert_eq!(wait_verdict(WaitOutcome::Closed), Err(AdmissionError::Rejected));
    assert_eq!(wait_verdict(WaitOutcome::TimedOut), Err(AdmissionError::Timeout));
}

#[test]
fn admission_error_texts() {
    assert_eq!(AdmissionError::Rejected.message(), "rejected: system at capacity");
    assert_eq!(AdmissionError::Timeout.message(), "timed out waiting for admission");
    assert_eq!(
        AdmissionError::CostTooLarge { cost: 3, capacity: 2 }.message(),
        "requested cost 3 exceeds total capacity 2"
    );
}
