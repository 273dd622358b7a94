use rustyip::config::{DISCOVERY_RETRIES, SUBMIT_RETRIES};
use rustyip::error::AgentError;
use rustyip::retry::{retry, Backoff, Step, RETRY_DELAY};

/// Runs `op` under the retry policy, recording the waits instead of sleeping.
fn run<T, E>(
    delay: u64,
    tries: usize,
    mut op: impl FnMut() -> Result<T, E>,
) -> (Result<T, E>, Vec<u64>) {
    let mut state = Backoff::new(delay, tries);
    let mut waits = Vec::new();
    loop {
        match retry(&mut state, op()) {
            Step::Wait(secs) => waits.push(secs),
            Step::Finish(result) => return (result, waits),
        }
    }
}

#[test]
fn test_retry_success_on_first_try() {
    let (result, waits) = run(1, 3, || Ok::<_, String>(42));
    assert_eq!(result.unwrap(), 42);
    assert!(waits.is_empty());
}

#[test]
fn test_retry_success_on_later_try() {
    let mut counter = 0usize;
    let (result, _) = run(1, 3, || {
        counter += 1;
        if counter - 1 < 2 {
            Err("failed")
        } else {
            Ok(42)
        }
    });
    assert_eq!(result.unwrap(), 42);
    assert_eq!(counter, 3);
}

#[test]
fn test_retry_fails_after_all_tries() {
    let mut counter = 0usize;
    let (result, _) = run(1, 3, || {
        counter += 1;
        Err::<i32, _>("failed")
    });
    assert!(result.is_err());
    assert_eq!(counter, 4);
}

#[test]
fn retry_returns_the_error_of_the_last_invocation() {
    let mut counter = 0u32;
    let (result, waits) = run(1, 3, || {
        counter += 1;
        Err::<i32, u32>(counter)
    });
    assert_eq!(result, Err(4));
    assert_eq!(waits, vec![1, 2, 4]);
}

#[test]
fn retry_waits_double_from_the_initial_delay() {
    let (result, waits) = run(RETRY_DELAY, DISCOVERY_RETRIES, || Err::<(), _>(()));
    assert!(result.is_err());
    assert_eq!(waits, vec![30, 60, 120, 240, 480]);
    let (_, waits) = run(RETRY_DELAY, SUBMIT_RETRIES, || Err::<(), _>(()));
    assert_eq!(waits, vec![30, 60, 120]);
}

#[test]
fn retry_success_after_k_failures_takes_k_plus_one_calls() {
    for k in 0..5usize {
        let mut calls = 0usize;
        let (result, waits) = run(2, 5, || {
            calls += 1;
            if calls <= k {
                Err(())
            } else {
                Ok(calls)
            }
        });
        assert_eq!(result, Ok(k + 1));
        assert_eq!(calls, k + 1);
        assert_eq!(waits.len(), k);
    }
}

#[test]
fn retry_with_no_retries_calls_once() {
    let mut calls = 0;
    let (result, waits) = run(7, 0, || {
        calls += 1;
        Err::<(), _>("down")
    });
    assert_eq!(result, Err("down"));
    assert_eq!(calls, 1);
    assert!(waits.is_empty());
}

#[test]
fn retry_delay_saturates_instead_of_overflowing() {
    let (_, waits) = run(u64::MAX / 2 + 1, 3, || Err::<(), _>(()));
    assert_eq!(waits, vec![u64::MAX / 2 + 1, u64::MAX, u64::MAX]);
}

#[test]
fn retry_state_after_a_failure() {
    let mut state = Backoff::new(30, 2);
    match retry(&mut state, Err::<(), _>(AgentError::InvalidAddress)) {
        Step::Wait(secs) => assert_eq!(secs, 30),
        Step::Finish(_) => panic!("expected a wait"),
    }
    assert_eq!(state.failures, 1);
    assert_eq!(state.delay, 60);
    assert!(!state.finished);
}

#[test]
fn test_get_ip_http_failure() {
    let (result, waits) = run(RETRY_DELAY, DISCOVERY_RETRIES, || {
        Err::<String, _>(AgentError::Network("Simulated network error".to_string()))
    });
    assert!(result.is_err(), "Expected Err, got OK: {:?}", result.ok());
    assert_eq!(waits.len(), DISCOVERY_RETRIES);
}
