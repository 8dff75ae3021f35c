use price_tracker::decimal::IntErrorKind;
use price_tracker::error::{Code, Status};
use price_tracker::rate_limit::{LimitAction, LimitCheck, LimitEvent, LimitSetting, RateLimiter};

fn refusal(max: u32, window: u64) -> Status {
    Status {
        code: Code::ResourceExhausted,
        message: format!("Too many requests. Distributed Redis limit exceeded. Allowed: {} req/{}s", max, window),
    }
}

#[test]
fn settings_are_read_as_integers() {
    assert_eq!(RateLimiter::from_settings("10", "60"), Ok(RateLimiter::new(10, 60)));
    assert_eq!(RateLimiter::from_settings("x", "60"), Err((LimitSetting::MaxRequests, IntErrorKind::InvalidDigit)));
    assert_eq!(RateLimiter::from_settings("10", ""), Err((LimitSetting::WindowSecs, IntErrorKind::Empty)));
    assert_eq!(
        RateLimiter::from_settings("4294967296", "1"),
        Err((LimitSetting::MaxRequests, IntErrorKind::PosOverflow))
    );
}

#[test]
fn keys_and_clients() {
    assert_eq!(RateLimiter::redis_key("192.168.1.50"), "ratelimit:192.168.1.50");
    assert_eq!(RateLimiter::client_ip(Some("10.0.0.1")), "10.0.0.1");
    assert_eq!(RateLimiter::client_ip(None), "127.0.0.1");
}

#[test]
fn at_most_max_requests_per_window() {
    let limiter = RateLimiter::new(3, 60);
    let let_through = (1..=10u32).filter(|c| limiter.verdict(*c).is_ok()).count();
    assert_eq!(let_through, 3);
    assert_eq!(limiter.verdict(4), Err(refusal(3, 60)));
    assert_eq!(RateLimiter::new(0, 1).verdict(1), Err(refusal(0, 1)));
}

#[test]
fn first_request_of_a_window_sets_the_expiry() {
    let limiter = RateLimiter::new(2, 30);
    let state = limiter.start();
    assert_eq!(state, LimitCheck::Connecting);
    let (state, action) = limiter.step("1.2.3.4", state, LimitEvent::Connected(Ok(())));
    assert_eq!(state, LimitCheck::Counting);
    assert_eq!(action, LimitAction::Increment { key: "ratelimit:1.2.3.4".to_string() });
    let (state, action) = limiter.step("1.2.3.4", state, LimitEvent::Incremented(Ok(1)));
    assert_eq!(state, LimitCheck::SettingExpiry { count: 1 });
    assert_eq!(action, LimitAction::SetExpiry { key: "ratelimit:1.2.3.4".to_string(), seconds: 30 });
    let (state, action) = limiter.step("1.2.3.4", state, LimitEvent::ExpirySet(Ok(())));
    assert_eq!(state, LimitCheck::Finished);
    assert_eq!(action, LimitAction::Reply(Ok(())));
}

#[test]
fn later_requests_skip_the_expiry() {
    let limiter = RateLimiter::new(2, 30);
    let (_, action) = limiter.step("ip", LimitCheck::Counting, LimitEvent::Incremented(Ok(2)));
    assert_eq!(action, LimitAction::Reply(Ok(())));
    let (state, action) = limiter.step("ip", LimitCheck::Counting, LimitEvent::Incremented(Ok(3)));
    assert_eq!(state, LimitCheck::Finished);
    assert_eq!(action, LimitAction::Reply(Err(refusal(2, 30))));
}

#[test]
fn redis_failures_are_internal() {
    let limiter = RateLimiter::new(2, 30);
    let (state, action) = limiter.step("ip", LimitCheck::Connecting, LimitEvent::Connected(Err("refused".to_string())));
    assert_eq!(state, LimitCheck::Finished);
    assert_eq!(
        action,
        LimitAction::Reply(Err(Status { code: Code::Internal, message: "Redis connection failed: refused".to_string() }))
    );
    let (_, action) = limiter.step("ip", LimitCheck::Counting, LimitEvent::Incremented(Err("boom".to_string())));
    assert_eq!(action, LimitAction::Reply(Err(Status { code: Code::Internal, message: "boom".to_string() })));
    let (_, action) = limiter.step("ip", LimitCheck::SettingExpiry { count: 1 }, LimitEvent::ExpirySet(Err("ttl".to_string())));
    assert_eq!(action, LimitAction::Reply(Err(Status { code: Code::Internal, message: "ttl".to_string() })));
}

#[test]
fn huge_windows_wrap_like_a_cast() {
    let limiter = RateLimiter::new(1, u64::MAX);
    let (_, action) = limiter.step("ip", LimitCheck::Counting, LimitEvent::Incremented(Ok(1)));
    assert_eq!(action, LimitAction::SetExpiry { key: "ratelimit:ip".to_string(), seconds: -1 });
}
