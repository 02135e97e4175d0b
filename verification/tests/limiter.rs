use nskit::api::{ApiError, HeaderValues, RateLimit};

fn no_headers() -> HeaderValues {
    HeaderValues {
        policy: None,
        limit: None,
        remaining: None,
        reset: None,
        retry_after: None,
    }
}

fn headers(
    policy: Option<&str>,
    limit: Option<&str>,
    remaining: Option<&str>,
    reset: Option<&str>,
    retry_after: Option<&str>,
) -> HeaderValues {
    HeaderValues {
        policy: policy.map(|s| s.to_string()),
        limit: limit.map(|s| s.to_string()),
        remaining: remaining.map(|s| s.to_string()),
        reset: reset.map(|s| s.to_string()),
        retry_after: retry_after.map(|s| s.to_string()),
    }
}

#[test]
fn fresh_client_check_succeeds() {
    let mut rl = RateLimit::new();
    assert_eq!(rl.remaining, 50);
    assert_eq!(rl.limit, 50);
    assert_eq!(rl.reset, 30);
    assert!(rl.rollover.is_none());
    assert!(rl.check_rate_limit(0).is_ok());
    assert_eq!(rl.remaining, 50);
    assert_eq!(rl.reset, 30);
    assert!(rl.rollover.is_none());
}

#[test]
fn low_budget_without_rollover_waits_full_window() {
    let mut rl = RateLimit::new();
    rl.remaining = 4;
    let r = rl.check_rate_limit(1000);
    match r {
        Err(ApiError::RateLimit(wait)) => assert_eq!(wait, 30),
        _ => panic!("expected a rate limit"),
    }
    assert_eq!(rl.remaining, 4);
}

#[test]
fn low_budget_with_rollover_waits_until_it() {
    let mut rl = RateLimit::new();
    rl.update_rate_limit(&headers(None, None, Some("3"), Some("10"), None), 100);
    assert_eq!(rl.remaining, 3);
    assert_eq!(rl.reset, 10);
    assert_eq!(rl.rollover, Some(110));
    let r = rl.check_rate_limit(100);
    match r {
        Err(ApiError::RateLimit(wait)) => assert_eq!(wait, 10),
        _ => panic!("expected a rate limit"),
    }
}

#[test]
fn passed_rollover_refreshes_budget() {
    let mut rl = RateLimit::new();
    rl.update_rate_limit(&headers(None, None, Some("3"), Some("10"), None), 100);
    let r = rl.check_rate_limit(111);
    assert!(r.is_ok());
    assert_eq!(rl.remaining, 50);
    assert_eq!(rl.reset, 30);
    assert!(rl.rollover.is_none());
}

#[test]
fn rollover_refreshes_to_advertised_policy() {
    let mut rl = RateLimit::new();
    rl.update_rate_limit(
        &headers(Some("40;w=20"), None, Some("2"), Some("5"), None),
        0,
    );
    assert_eq!(rl.policy.max_requests, 40);
    assert_eq!(rl.policy.time_window, 20);
    let r = rl.check_rate_limit(6);
    assert!(r.is_ok());
    assert_eq!(rl.remaining, 40);
    assert_eq!(rl.reset, 20);
}

#[test]
fn policy_header_well_formed_updates_policy() {
    let mut rl = RateLimit::new();
    rl.policy.max_requests = 7;
    rl.policy.time_window = 8;
    rl.update_rate_limit(&headers(Some("50;w=30"), None, None, None, None), 0);
    assert_eq!(rl.policy.max_requests, 50);
    assert_eq!(rl.policy.time_window, 30);
}

#[test]
fn policy_header_malformed_is_ignored() {
    let mut rl = RateLimit::new();
    rl.policy.max_requests = 7;
    rl.policy.time_window = 8;
    rl.update_rate_limit(&headers(Some("abc"), None, None, None, None), 0);
    assert_eq!(rl.policy.max_requests, 7);
    assert_eq!(rl.policy.time_window, 8);
    rl.update_rate_limit(&headers(Some("50"), None, None, None, None), 0);
    assert_eq!(rl.policy.max_requests, 7);
    assert_eq!(rl.policy.time_window, 8);
}

#[test]
fn headers_update_independently() {
    let mut rl = RateLimit::new();
    rl.update_rate_limit(&headers(None, Some("60"), None, None, None), 0);
    assert_eq!(rl.limit, 60);
    assert_eq!(rl.remaining, 50);
    assert_eq!(rl.reset, 30);
    assert!(rl.rollover.is_none());
    rl.update_rate_limit(&headers(None, Some("bogus"), Some("12"), None, None), 0);
    assert_eq!(rl.limit, 60);
    assert_eq!(rl.remaining, 12);
    assert!(rl.rollover.is_none());
}

#[test]
fn missing_reset_keeps_prior_rollover() {
    let mut rl = RateLimit::new();
    rl.update_rate_limit(&headers(None, None, None, Some("10"), None), 100);
    assert_eq!(rl.rollover, Some(110));
    rl.update_rate_limit(&headers(None, None, Some("20"), None, None), 105);
    assert_eq!(rl.rollover, Some(110));
    assert_eq!(rl.reset, 10);
}

#[test]
fn reset_overflow_disarms_rollover() {
    let mut rl = RateLimit::new();
    rl.update_rate_limit(
        &headers(None, None, None, Some("18446744073709551615"), None),
        1,
    );
    assert_eq!(rl.reset, u64::MAX);
    assert!(rl.rollover.is_none());
}

#[test]
fn status_429_yields_rate_limit_with_retry_after() {
    let mut rl = RateLimit::new();
    let r = rl.process_response(429, &headers(None, None, Some("49"), None, Some("5")), 0);
    match r {
        Err(ApiError::RateLimit(wait)) => assert_eq!(wait, 5),
        _ => panic!("expected a rate limit"),
    }
    // The check had no reason to block: the budget was healthy.
    assert_eq!(rl.remaining, 49);
}

#[test]
fn status_429_without_retry_after_waits_full_window() {
    let mut rl = RateLimit::new();
    let r = rl.process_response(429, &no_headers(), 0);
    match r {
        Err(ApiError::RateLimit(wait)) => assert_eq!(wait, 30),
        _ => panic!("expected a rate limit"),
    }
    let r = rl.process_response(429, &headers(None, None, None, None, Some("soon")), 0);
    match r {
        Err(ApiError::RateLimit(wait)) => assert_eq!(wait, 30),
        _ => panic!("expected a rate limit"),
    }
}

#[test]
fn status_429_wait_uses_freshly_updated_window() {
    let mut rl = RateLimit::new();
    let r = rl.process_response(429, &headers(Some("50;w=77"), None, None, None, None), 0);
    match r {
        Err(ApiError::RateLimit(wait)) => assert_eq!(wait, 77),
        _ => panic!("expected a rate limit"),
    }
}

#[test]
fn status_404_yields_not_found_despite_healthy_budget() {
    let mut rl = RateLimit::new();
    let r = rl.process_response(404, &headers(None, None, Some("49"), Some("30"), None), 0);
    assert!(matches!(r, Err(ApiError::NotFound)));
    // The headers were still absorbed.
    assert_eq!(rl.remaining, 49);
    assert_eq!(rl.rollover, Some(30));
}

#[test]
fn status_5xx_yields_server_error() {
    let mut rl = RateLimit::new();
    assert!(matches!(
        rl.process_response(500, &no_headers(), 0),
        Err(ApiError::ServerError)
    ));
    assert!(matches!(
        rl.process_response(503, &no_headers(), 0),
        Err(ApiError::ServerError)
    ));
    assert!(matches!(
        rl.process_response(599, &no_headers(), 0),
        Err(ApiError::ServerError)
    ));
}

#[test]
fn ordinary_status_proceeds_to_body() {
    let mut rl = RateLimit::new();
    assert!(rl.process_response(200, &no_headers(), 0).is_ok());
    assert!(rl.process_response(304, &no_headers(), 0).is_ok());
    assert!(rl.process_response(403, &no_headers(), 0).is_ok());
}

#[test]
fn describe_names_each_outcome() {
    assert_eq!(
        ApiError::RateLimit(90).describe(),
        "Rate limited, resets in 90 seconds"
    );
    assert_eq!(ApiError::TimedOut.describe(), "Request timed out");
    assert_eq!(
        ApiError::NotFound.describe(),
        "Requested entity does not exist"
    );
    assert_eq!(ApiError::ServerError.describe(), "API server error");
}
