use ratcrate::fetch::{FetchFailure, FetchResult, FetchStep};
use ratcrate::retry::{
    apply_jitter, compute_delay, decide, is_retryable, run_retry, AttemptOutcome, RetryDecision,
    RetryError, RetryPolicy,
};

fn policy(max_attempts: u32) -> RetryPolicy {
    RetryPolicy {
        max_attempts,
        base_delay_ms: 500,
        multiplier: 2,
        max_delay_ms: 30000,
        jitter_percent: 20,
        retry_rate_limited: true,
    }
}

fn ok_step(body: &str) -> AttemptOutcome {
    Ok(FetchStep {
        outcome: FetchResult::Modified(body.to_string()),
        fingerprint: None,
    })
}

fn server_error(code: u16) -> AttemptOutcome {
    Err(FetchFailure::Status { code })
}

#[test]
fn success_after_k_retryable_failures() {
    // two 503s, then a 200: exactly three attempts
    let outcomes = vec![server_error(503), server_error(503), ok_step("fresh")];
    let (result, attempts) = run_retry(&policy(5), &outcomes);
    assert_eq!(attempts, 3);
    match result {
        Ok(step) => match step.outcome {
            FetchResult::Modified(body) => assert_eq!(body, "fresh"),
            FetchResult::NotModified => panic!("expected a body"),
        },
        Err(_) => panic!("expected success"),
    }
}

#[test]
fn exhaustion_after_max_attempts() {
    let outcomes = vec![
        server_error(500),
        server_error(502),
        server_error(503),
        server_error(504),
        server_error(500),
    ];
    let (result, attempts) = run_retry(&policy(5), &outcomes);
    assert_eq!(attempts, 5);
    match result {
        Err(RetryError::Exhausted { last: FetchFailure::Status { code } }) => {
            assert_eq!(code, 500)
        },
        _ => panic!("expected exhaustion wrapping the last failure"),
    }
}

#[test]
fn fatal_short_circuit_on_client_error() {
    // a 404 first: one attempt, no retry, immediate client-request error
    let outcomes = vec![server_error(404), ok_step("never reached"), ok_step("never")];
    let (result, attempts) = run_retry(&policy(3), &outcomes);
    assert_eq!(attempts, 1);
    match result {
        Err(RetryError::ClientRequest { failure: FetchFailure::Status { code } }) => {
            assert_eq!(code, 404)
        },
        _ => panic!("expected an immediate client-request error"),
    }
}

#[test]
fn classifier_boundaries() {
    let p = policy(3);
    assert!(is_retryable(&p, &FetchFailure::Status { code: 500 }));
    assert!(is_retryable(&p, &FetchFailure::Status { code: 599 }));
    assert!(is_retryable(&p, &FetchFailure::Status { code: 429 }));
    assert!(is_retryable(&p, &FetchFailure::Transport { detail: "timeout".to_string() }));
    assert!(!is_retryable(&p, &FetchFailure::Status { code: 404 }));
    assert!(!is_retryable(&p, &FetchFailure::Status { code: 400 }));
    assert!(!is_retryable(&p, &FetchFailure::Status { code: 499 }));
    let strict = RetryPolicy { retry_rate_limited: false, ..policy(3) };
    assert!(!is_retryable(&strict, &FetchFailure::Status { code: 429 }));
}

#[test]
fn backoff_follows_capped_exponential() {
    let p = policy(10);
    assert_eq!(compute_delay(&p, 1), 500);
    assert_eq!(compute_delay(&p, 2), 1000);
    assert_eq!(compute_delay(&p, 3), 2000);
    assert_eq!(compute_delay(&p, 4), 4000);
    assert_eq!(compute_delay(&p, 7), 30000, "min(30000, 500 * 2^6) caps at the limit");
    assert_eq!(compute_delay(&p, 30), 30000);
}

#[test]
fn backoff_degenerate_policies() {
    let flat = RetryPolicy { multiplier: 1, ..policy(5) };
    assert_eq!(compute_delay(&flat, 1), 500);
    assert_eq!(compute_delay(&flat, 9), 500);
    let capped = RetryPolicy { base_delay_ms: 50000, ..policy(5) };
    assert_eq!(compute_delay(&capped, 1), 30000);
}

#[test]
fn backoff_with_zero_multiplier_collapses() {
    let zero = RetryPolicy { multiplier: 0, ..policy(5) };
    assert_eq!(compute_delay(&zero, 1), 500);
    assert_eq!(compute_delay(&zero, 2), 0);
    assert_eq!(compute_delay(&zero, 5), 0);
}

#[test]
fn jitter_near_the_numeric_ceiling_is_clamped() {
    for entropy in [0u64, 1, u64::MAX] {
        let d = apply_jitter(u64::MAX, 10, entropy);
        assert!(d >= u64::MAX - u64::MAX / 10 - 1, "the result never leaves the band");
    }
}

#[test]
fn jitter_stays_within_band() {
    for entropy in [0u64, 1, 7, 99, 100, 12345, u64::MAX] {
        let d = apply_jitter(1000, 20, entropy);
        assert!((800..=1200).contains(&d), "jittered delay {} left [800, 1200]", d);
    }
    for entropy in [0u64, 3, u64::MAX] {
        assert_eq!(apply_jitter(1000, 0, entropy), 1000);
    }
}

#[test]
fn decide_steps_through_one_cycle() {
    let p = policy(3);
    match decide(&p, 1, server_error(503), 42) {
        RetryDecision::Sleep { delay_ms } => {
            assert!((400..=600).contains(&delay_ms), "first retry sleeps around 500 ms")
        },
        _ => panic!("a transient failure with attempts left must sleep"),
    }
    match decide(&p, 3, server_error(503), 42) {
        RetryDecision::Fail { error: RetryError::Exhausted { .. } } => {},
        _ => panic!("the last allowed attempt must exhaust"),
    }
    match decide(&p, 1, server_error(400), 42) {
        RetryDecision::Fail { error: RetryError::ClientRequest { .. } } => {},
        _ => panic!("a client error must fail at once"),
    }
    match decide(&p, 1, ok_step("x"), 42) {
        RetryDecision::Done { step } => match step.outcome {
            FetchResult::Modified(body) => assert_eq!(body, "x"),
            FetchResult::NotModified => panic!("expected the body through"),
        },
        _ => panic!("success must be done"),
    }
}

#[test]
fn transport_failures_are_retried_then_succeed() {
    let outcomes = vec![
        Err(FetchFailure::Transport { detail: "connection reset".to_string() }),
        ok_step("after reset"),
    ];
    let (result, attempts) = run_retry(&policy(5), &outcomes);
    assert_eq!(attempts, 2);
    assert!(result.is_ok());
}
