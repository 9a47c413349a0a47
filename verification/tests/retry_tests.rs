use import_queue::retry::{
    compute_next_retry_timestamp, retry_allowed, retry_delay_seconds,
    LAST_FOUR_DIGIT_YEAR_SECOND, MAX_IMPORT_ATTEMPTS,
};

#[test]
fn delays_double_and_stay_clamped() {
    assert_eq!(retry_delay_seconds(1), 15);
    assert_eq!(retry_delay_seconds(2), 30);
    assert_eq!(retry_delay_seconds(3), 60);
    assert_eq!(retry_delay_seconds(0), 15);
    assert_eq!(retry_delay_seconds(-5), 15);
    assert_eq!(retry_delay_seconds(4), 60);
    assert_eq!(retry_delay_seconds(i64::MAX), 60);
    assert_eq!(retry_delay_seconds(i64::MIN), 15);
}

#[test]
fn retries_below_the_attempt_limit() {
    assert_eq!(MAX_IMPORT_ATTEMPTS, 3);
    assert!(retry_allowed(0));
    assert!(retry_allowed(1));
    assert!(retry_allowed(2));
    assert!(!retry_allowed(3));
    assert!(!retry_allowed(4));
    assert!(retry_allowed(-1));
}

#[test]
fn next_retry_timestamp_is_formatted_utc() {
    assert_eq!(compute_next_retry_timestamp(0, 1).as_deref(), Some("1970-01-01T00:00:15Z"));
    assert_eq!(compute_next_retry_timestamp(0, 2).as_deref(), Some("1970-01-01T00:00:30Z"));
    assert_eq!(
        compute_next_retry_timestamp(1_700_000_000, 3).as_deref(),
        Some("2023-11-14T22:14:20Z")
    );
    assert_eq!(
        compute_next_retry_timestamp(86_399 - 15, 0).as_deref(),
        Some("1970-01-01T23:59:59Z")
    );
}

#[test]
fn next_retry_timestamp_out_of_range() {
    assert_eq!(compute_next_retry_timestamp(i64::MAX, 1), None);
    assert_eq!(compute_next_retry_timestamp(i64::MAX - 20, 1), None);
}

use import_queue::retry::{plan_job_failure, FailureUpdate};

#[test]
fn failure_plans() {
    assert_eq!(
        plan_job_failure(0, 1),
        Some(FailureUpdate::Retry { next_retry_at: "1970-01-01T00:00:15Z".to_string() })
    );
    assert_eq!(
        plan_job_failure(1_700_000_000, 2),
        Some(FailureUpdate::Retry { next_retry_at: "2023-11-14T22:13:50Z".to_string() })
    );
    assert_eq!(plan_job_failure(0, 3), Some(FailureUpdate::Failed));
    assert_eq!(plan_job_failure(i64::MAX, 5), Some(FailureUpdate::Failed));
    assert_eq!(plan_job_failure(i64::MAX, 1), None);
    assert_eq!(
        plan_job_failure(0, -2),
        Some(FailureUpdate::Retry { next_retry_at: "1970-01-01T00:00:15Z".to_string() })
    );
}

#[test]
fn retry_timestamps_exist_through_year_9999() {
    assert_eq!(
        compute_next_retry_timestamp(LAST_FOUR_DIGIT_YEAR_SECOND - 60, 3).as_deref(),
        Some("9999-12-31T23:59:59Z")
    );
    assert_eq!(compute_next_retry_timestamp(-15, 1).as_deref(), Some("1970-01-01T00:00:00Z"));
}
