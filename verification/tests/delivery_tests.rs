use preflight_rs::callback::{after_attempt, DeliveryOutcome, DeliveryStep, MAX_ATTEMPTS};

#[test]
fn accepted_and_refused_events_are_not_retried() {
    assert_eq!(after_attempt(0, DeliveryOutcome::Response(204)), DeliveryStep::Delivered);
    assert_eq!(after_attempt(1, DeliveryOutcome::Response(404)), DeliveryStep::Rejected);
    assert_eq!(after_attempt(0, DeliveryOutcome::Response(302)), DeliveryStep::Rejected);
}

#[test]
fn failures_back_off_and_give_up_after_three_attempts() {
    assert_eq!(
        after_attempt(0, DeliveryOutcome::Response(503)),
        DeliveryStep::Retry { delay_ms: 100 }
    );
    assert_eq!(
        after_attempt(1, DeliveryOutcome::TransportError),
        DeliveryStep::Retry { delay_ms: 200 }
    );
    assert_eq!(
        after_attempt(2, DeliveryOutcome::Response(500)),
        DeliveryStep::GiveUp { delay_ms: 400 }
    );
    assert_eq!(MAX_ATTEMPTS, 3);
}
