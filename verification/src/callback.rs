//! The delivery policy for job events sent to a callback URL.

use vstd::prelude::*;

verus! {

/// How many times an event is sent at most.
pub const MAX_ATTEMPTS: u32 = 3;

/// What one attempt to deliver an event came to: an HTTP response with its
/// status code, or no response at all.
#[derive(Debug, Clone, Copy, PartialEq, Eq, Structural)]
pub enum DeliveryOutcome {
    Response(u16),
    TransportError,
}

/// What to do after an attempt: stop because the event was accepted or
/// refused for good, or wait `delay_ms` and then try again or give up.
#[derive(Debug, Clone, Copy, PartialEq, Eq, Structural)]
pub enum DeliveryStep {
    Delivered,
    Rejected,
    Retry { delay_ms: u64 },
    GiveUp { delay_ms: u64 },
}

/// A 2xx status.
pub open spec fn is_success(status: u16) -> bool {
    200 <= status < 300
}

/// A 5xx status.
pub open spec fn is_server_error(status: u16) -> bool {
    500 <= status < 600
}

/// The pause after failed attempt `attempt` (counted from 0): 100 ms,
/// doubled for each earlier attempt.
pub open spec fn backoff_ms(attempt: u32) -> u64 {
    if attempt == 0 {
        100
    } else if attempt == 1 {
        200
    } else {
        400
    }
}

/// The step after attempt `attempt` (counted from 0) came to `outcome`.
pub open spec fn spec_after_attempt(attempt: u32, outcome: DeliveryOutcome) -> DeliveryStep {
    match outcome {
        DeliveryOutcome::Response(status) if is_success(status) => DeliveryStep::Delivered,
        DeliveryOutcome::Response(status) if !is_server_error(status) => DeliveryStep::Rejected,
        _ => if attempt + 1 < MAX_ATTEMPTS {
            DeliveryStep::Retry { delay_ms: backoff_ms(attempt) }
        } else {
            DeliveryStep::GiveUp { delay_ms: backoff_ms(attempt) }
        },
    }
}

/// Decides what follows attempt `attempt` (counted from 0): a 2xx response
/// delivers the event, any other response that is not a server error
/// refuses it for good; a server error or no response waits 100 ms, 200 ms
/// or 400 ms and then tries again, or gives up after the third attempt.
pub fn after_attempt(attempt: u32, outcome: DeliveryOutcome) -> (step: DeliveryStep)
    requires
        attempt < MAX_ATTEMPTS,
    ensures
        step == spec_after_attempt(attempt, outcome),
{
    match outcome {
        DeliveryOutcome::Response(status) if 200 <= status && status < 300 => DeliveryStep::Delivered,
        DeliveryOutcome::Response(status) if !(500 <= status && status < 600) => DeliveryStep::Rejected,
        _ => {
            let delay_ms: u64 = 100u64 << attempt;
            assert(delay_ms == backoff_ms(attempt)) by (bit_vector)
                requires
                    delay_ms == 100u64 << attempt,
                    attempt < 3,
            ;
            if attempt + 1 < MAX_ATTEMPTS {
                DeliveryStep::Retry { delay_ms }
            } else {
                DeliveryStep::GiveUp { delay_ms }
            }
        },
    }
}

} // verus!
