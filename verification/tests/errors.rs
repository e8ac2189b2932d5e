use versionwatch::error::{classify_status, describe_rate_limit, wait_hint, Error, RateLimit};

fn no_headers() -> RateLimit {
    RateLimit { remaining: None, reset_at: None, now: 1_700_000_000 }
}

#[test]
fn success_statuses_are_no_failure() {
    for status in [200u16, 201, 204, 299] {
        assert_eq!(classify_status(status, &no_headers()), None);
    }
}

#[test]
fn too_many_requests_is_rate_limited() {
    assert_eq!(
        classify_status(429, &no_headers()),
        Some(Error::RateLimited("API rate limit exceeded".to_string()))
    );
}

#[test]
fn forbidden_without_quota_headers_is_forbidden() {
    assert_eq!(
        classify_status(403, &no_headers()),
        Some(Error::Forbidden("access denied; a token may be required".to_string()))
    );
    let quota_left = RateLimit { remaining: Some(12), reset_at: Some(1_700_000_100), now: 1_700_000_000 };
    assert!(matches!(classify_status(403, &quota_left), Some(Error::Forbidden(_))));
}

#[test]
fn exhausted_quota_is_reported_with_the_wait() {
    let limit = RateLimit { remaining: Some(0), reset_at: Some(1_700_000_754), now: 1_700_000_000 };
    assert_eq!(
        classify_status(403, &limit),
        Some(Error::RateLimited("API rate limit exceeded; retry in 12m 34s".to_string()))
    );
    assert_eq!(
        classify_status(429, &limit),
        Some(Error::RateLimited("API rate limit exceeded; retry in 12m 34s".to_string()))
    );
    let failure = classify_status(403, &limit).unwrap();
    assert_eq!(failure.message(), "rate limited: API rate limit exceeded; retry in 12m 34s");
    assert!(failure.is_retryable());
}

#[test]
fn reset_in_the_past_waits_no_time() {
    let limit = RateLimit { remaining: Some(0), reset_at: Some(5), now: 10 };
    assert_eq!(describe_rate_limit(&limit), "API rate limit exceeded; retry in 0m 0s");
}

#[test]
fn quota_without_reset_gives_no_wait() {
    let limit = RateLimit { remaining: Some(0), reset_at: None, now: 10 };
    assert_eq!(describe_rate_limit(&limit), "API rate limit exceeded");
    assert!(matches!(classify_status(403, &limit), Some(Error::Forbidden(_))));
}

#[test]
fn wait_is_worded_in_minutes_and_seconds() {
    assert_eq!(wait_hint(0), "retry in 0m 0s");
    assert_eq!(wait_hint(59), "retry in 0m 59s");
    assert_eq!(wait_hint(60), "retry in 1m 0s");
    assert_eq!(wait_hint(3601), "retry in 60m 1s");
}

#[test]
fn other_statuses_are_unclassified_and_not_retryable() {
    for status in [100u16, 301, 400, 404, 500, 503] {
        let failure = classify_status(status, &no_headers()).expect("a failure");
        assert_eq!(failure, Error::Other(format!("request failed with status: {status}")));
        assert!(!failure.is_retryable());
    }
}

#[test]
fn each_failure_has_its_message() {
    assert_eq!(Error::NotFound.message(), "collector not found");
    assert_eq!(Error::RateLimited("soon".to_string()).message(), "rate limited: soon");
    assert_eq!(Error::Forbidden("no".to_string()).message(), "forbidden: no");
    assert_eq!(Error::Transient("net".to_string()).message(), "transient failure: net");
    assert_eq!(Error::Malformed("json".to_string()).message(), "malformed response: json");
    assert_eq!(Error::Other("boom".to_string()).message(), "boom");
}
