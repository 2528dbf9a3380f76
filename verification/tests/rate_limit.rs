use gateway_core::rate_limit::{
    RateLimitEntry, RateLimitError, RateLimitManager, RateLimitStats, RateLimitStatus,
    DEFAULT_MAX_REQUESTS, DEFAULT_WINDOW_MS, IP_MAX_REQUESTS, IP_WINDOW_MS,
};

#[test]
fn entry_starts_at_zero() {
    let e = RateLimitEntry::new(5, 1000, 42);
    assert_eq!(e, RateLimitEntry { count: 0, window_start: 42, window_duration: 1000, max_requests: 5 });
    assert!(e.can_proceed());
    assert!(!e.is_expired(42));
}

#[test]
fn entry_expires_only_after_its_window() {
    let e = RateLimitEntry::new(5, 1000, 100);
    assert!(!e.is_expired(100));
    assert!(!e.is_expired(1100));
    assert!(e.is_expired(1101));
    assert!(!e.is_expired(50));
}

#[test]
fn entry_reset_if_expired_keeps_live_window() {
    let mut e = RateLimitEntry { count: 3, window_start: 100, window_duration: 1000, max_requests: 5 };
    e.reset_if_expired(1100);
    assert_eq!(e.count, 3);
    assert_eq!(e.window_start, 100);
    e.reset_if_expired(1101);
    assert_eq!(e.count, 0);
    assert_eq!(e.window_start, 1101);
    assert_eq!(e.window_duration, 1000);
    assert_eq!(e.max_requests, 5);
}

#[test]
fn entry_increment_counts_one() {
    let mut e = RateLimitEntry::new(2, 1000, 0);
    e.increment();
    assert_eq!(e.count, 1);
    assert!(e.can_proceed());
    e.increment();
    assert_eq!(e.count, 2);
    assert!(!e.can_proceed());
}

#[test]
fn entry_admits_exactly_max_within_window() {
    let mut e = RateLimitEntry::new(3, 1000, 10);
    assert!(e.check(10));
    assert!(e.check(500));
    assert!(e.check(1010));
    assert!(!e.check(1010));
    assert!(!e.check(20));
    assert_eq!(e.count, 3);
    assert_eq!(e.window_start, 10);
}

#[test]
fn entry_starts_over_after_window() {
    let mut e = RateLimitEntry::new(3, 1000, 10);
    for _ in 0..4 {
        e.check(10);
    }
    assert!(e.check(1011));
    assert_eq!(e.count, 1);
    assert_eq!(e.window_start, 1011);
}

#[test]
fn entry_with_zero_max_admits_nothing() {
    let mut e = RateLimitEntry::new(0, 1000, 0);
    assert!(!e.check(0));
    assert!(!e.check(5000));
    assert_eq!(e.count, 0);
    assert_eq!(e.window_start, 5000);
}

#[test]
fn manager_defaults() {
    assert_eq!(DEFAULT_MAX_REQUESTS, 100);
    assert_eq!(DEFAULT_WINDOW_MS, 60_000);
    assert_eq!(IP_MAX_REQUESTS, 1000);
    assert_eq!(IP_WINDOW_MS, 3_600_000);
    let m = RateLimitManager::new();
    assert_eq!(m.get_endpoint_limits("/anything"), (100, 60_000));
}

#[test]
fn default_policy_admits_one_hundred_then_denies() {
    let mut m = RateLimitManager::new();
    for i in 0..100u64 {
        assert_eq!(m.check_rate_limit("client", i), Ok(()));
    }
    assert_eq!(m.check_rate_limit("client", 59_999), Err(RateLimitError::Exceeded));
    assert_eq!(m.check_rate_limit("client", 60_000), Err(RateLimitError::Exceeded));
    assert_eq!(m.check_rate_limit("client", 60_001), Ok(()));
    assert_eq!(
        m.get_rate_limit_status("client", 60_001),
        Some(RateLimitStatus { count: 1, remaining: 99, reset_in: 60_000 })
    );
}

#[test]
fn identifiers_are_counted_apart() {
    let mut m = RateLimitManager::with_policy(1, 1000);
    assert_eq!(m.check_rate_limit("a", 0), Ok(()));
    assert_eq!(m.check_rate_limit("b", 0), Ok(()));
    assert_eq!(m.check_rate_limit("a", 0), Err(RateLimitError::Exceeded));
    assert_eq!(m.check_rate_limit("b", 0), Err(RateLimitError::Exceeded));
}

#[test]
fn denied_call_does_not_count() {
    let mut m = RateLimitManager::with_policy(2, 1000);
    let _ = m.check_rate_limit("a", 0);
    let _ = m.check_rate_limit("a", 0);
    assert!(m.check_rate_limit("a", 1).is_err());
    assert!(m.check_rate_limit("a", 2).is_err());
    assert_eq!(m.get_rate_limit_status("a", 2).unwrap().count, 2);
}

#[test]
fn existing_counter_keeps_its_policy() {
    let mut m = RateLimitManager::new();
    assert_eq!(m.check_and_consume("k", 1, 500, 0), Ok(()));
    assert_eq!(m.check_and_consume("k", 50, 9000, 1), Err(RateLimitError::Exceeded));
    assert_eq!(
        m.get_rate_limit_status("k", 100),
        Some(RateLimitStatus { count: 1, remaining: 0, reset_in: 400 })
    );
}

#[test]
fn endpoint_limits_table() {
    let m = RateLimitManager::new();
    assert_eq!(m.get_endpoint_limits("/api/nvidia/stream"), (10, 60_000));
    assert_eq!(m.get_endpoint_limits("/api/nvidia/launch"), (5, 60_000));
    assert_eq!(m.get_endpoint_limits("/api/github/create"), (10, 3_600_000));
    assert_eq!(m.get_endpoint_limits("/api/vercel/deploy"), (20, 3_600_000));
    assert_eq!(m.get_endpoint_limits("/api/auth/login"), (5, 300_000));
    assert_eq!(m.get_endpoint_limits("/api/auth/login/"), (100, 60_000));
    let custom = RateLimitManager::with_policy(7, 70);
    assert_eq!(custom.get_endpoint_limits("/x"), (7, 70));
    assert_eq!(custom.get_endpoint_limits("/api/auth/login"), (5, 300_000));
}

#[test]
fn login_endpoint_allows_five_per_five_minutes() {
    let mut m = RateLimitManager::new();
    for i in 0..5u64 {
        assert_eq!(m.check_api_rate_limit("/api/auth/login", "u1", i), Ok(()));
    }
    assert_eq!(
        m.check_api_rate_limit("/api/auth/login", "u1", 300_000),
        Err(RateLimitError::EndpointExceeded("/api/auth/login".to_string()))
    );
    assert_eq!(m.check_api_rate_limit("/api/auth/login", "u2", 10), Ok(()));
    assert_eq!(m.check_api_rate_limit("/api/auth/login", "u1", 300_001), Ok(()));
    assert_eq!(m.get_rate_limit_status("api:/api/auth/login:u1", 300_001).unwrap().count, 1);
}

#[test]
fn launch_endpoint_allows_five_per_minute() {
    let mut m = RateLimitManager::new();
    for _ in 0..5 {
        assert!(m.check_api_rate_limit("/api/nvidia/launch", "u", 0).is_ok());
    }
    assert!(m.check_api_rate_limit("/api/nvidia/launch", "u", 60_000).is_err());
    assert!(m.check_api_rate_limit("/api/nvidia/launch", "u", 60_001).is_ok());
}

#[test]
fn ip_limiter_is_independent_of_endpoint_counter() {
    let mut m = RateLimitManager::new();
    for _ in 0..5 {
        assert!(m.check_api_rate_limit("/api/auth/login", "9.9.9.9", 0).is_ok());
    }
    assert!(m.check_api_rate_limit("/api/auth/login", "9.9.9.9", 0).is_err());
    assert_eq!(m.check_ip_rate_limit("9.9.9.9", 0), Ok(()));
    assert_eq!(
        m.get_rate_limit_status("ip:9.9.9.9", 0),
        Some(RateLimitStatus { count: 1, remaining: 999, reset_in: 3_600_000 })
    );
    assert_eq!(m.get_rate_limit_status("api:/api/auth/login:9.9.9.9", 0).unwrap().count, 5);
}

#[test]
fn ip_limiter_allows_one_thousand_per_hour() {
    let mut m = RateLimitManager::new();
    for i in 0..1000u64 {
        assert_eq!(m.check_ip_rate_limit("10.0.0.1", i), Ok(()));
    }
    assert_eq!(m.check_ip_rate_limit("10.0.0.1", 3_600_000), Err(RateLimitError::IpExceeded));
    assert_eq!(m.check_ip_rate_limit("10.0.0.1", 3_600_001), Ok(()));
}

#[test]
fn status_of_unknown_identifier_is_none() {
    let m = RateLimitManager::new();
    assert_eq!(m.get_rate_limit_status("nobody", 0), None);
}

#[test]
fn status_reports_count_remaining_and_reset() {
    let mut m = RateLimitManager::with_policy(10, 1000);
    for _ in 0..3 {
        let _ = m.check_rate_limit("s", 100);
    }
    assert_eq!(
        m.get_rate_limit_status("s", 350),
        Some(RateLimitStatus { count: 3, remaining: 7, reset_in: 750 })
    );
    assert_eq!(
        m.get_rate_limit_status("s", 5000),
        Some(RateLimitStatus { count: 3, remaining: 7, reset_in: 0 })
    );
    assert_eq!(
        m.get_rate_limit_status("s", 0),
        Some(RateLimitStatus { count: 3, remaining: 7, reset_in: 1000 })
    );
}

#[test]
fn reset_deletes_the_counter() {
    let mut m = RateLimitManager::with_policy(1, 1000);
    assert!(m.check_rate_limit("r", 0).is_ok());
    assert!(m.check_rate_limit("r", 0).is_err());
    m.reset_rate_limit("r");
    assert_eq!(m.get_rate_limit_status("r", 0), None);
    assert!(m.check_rate_limit("r", 0).is_ok());
    m.reset_rate_limit("unknown");
}

#[test]
fn cleanup_prunes_lapsed_counters_only() {
    let mut m = RateLimitManager::with_policy(5, 1000);
    let _ = m.check_rate_limit("old", 0);
    let _ = m.check_rate_limit("edge", 500);
    let _ = m.check_rate_limit("new", 1400);
    m.cleanup_expired(1500);
    assert_eq!(m.get_rate_limit_status("old", 1500), None);
    assert_eq!(m.get_rate_limit_status("edge", 1500).unwrap().count, 1);
    assert_eq!(m.get_rate_limit_status("new", 1500).unwrap().count, 1);
    m.cleanup_expired(1501);
    assert_eq!(m.get_rate_limit_status("edge", 1501), None);
    assert!(m.get_rate_limit_status("new", 1501).is_some());
}

#[test]
fn global_stats_count_entries_and_requests() {
    let mut m = RateLimitManager::with_policy(5, 1000);
    assert_eq!(
        m.get_global_stats(0),
        RateLimitStats { total_entries: 0, active_entries: 0, total_requests: 0 }
    );
    let _ = m.check_rate_limit("a", 0);
    let _ = m.check_rate_limit("a", 0);
    let _ = m.check_rate_limit("b", 900);
    assert_eq!(
        m.get_global_stats(1000),
        RateLimitStats { total_entries: 2, active_entries: 2, total_requests: 3 }
    );
    assert_eq!(
        m.get_global_stats(1001),
        RateLimitStats { total_entries: 2, active_entries: 1, total_requests: 3 }
    );
}

#[test]
fn calls_in_any_order_never_pass_more_than_max() {
    let times: [u64; 12] = [500, 10, 990, 0, 1000, 250, 999, 3, 750, 1, 600, 42];
    for max in [0u32, 1, 3, 11, 12, 50] {
        let mut m = RateLimitManager::with_policy(max, 1000);
        let mut passed = 0u32;
        for t in times {
            if m.check_rate_limit("shared", t).is_ok() {
                passed += 1;
            }
            let status = m.get_rate_limit_status("shared", t).unwrap();
            assert!(status.count <= max);
            assert_eq!(status.count, passed);
        }
        assert_eq!(passed, max.min(12));
    }
}

#[test]
fn rate_limit_messages() {
    assert_eq!(RateLimitError::Exceeded.message(), "Rate limit exceeded");
    assert_eq!(
        RateLimitError::EndpointExceeded("/api/nvidia/launch".to_string()).message(),
        "Rate limit exceeded for endpoint: /api/nvidia/launch"
    );
    assert_eq!(RateLimitError::IpExceeded.message(), "IP rate limit exceeded");
    let mut m = RateLimitManager::with_policy(0, 10);
    assert_eq!(
        m.check_api_rate_limit("/x", "u", 0).unwrap_err().message(),
        "Rate limit exceeded for endpoint: /x"
    );
    assert_eq!(m.check_ip_rate_limit("1.2.3.4", 0), Ok(()));
    assert_eq!(m.check_rate_limit("id", 0).unwrap_err().message(), "Rate limit exceeded");
}
