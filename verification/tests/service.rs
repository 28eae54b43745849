use hng_stage_0::config::{
    parse_port_or_default, resolve_port, split_origins, trim_spaces, value_or, GlobalConfig,
};
use hng_stage_0::dtos::{ApiResponse, UserProfile};
use hng_stage_0::limiter::{Decision, RateLimiter, WINDOW_MILLIS};
use hng_stage_0::middleware::{denial_status, gate_request, GateOutcome};
use hng_stage_0::routes::profile_response;
use hng_stage_0::utils::fact_or_default;
use hng_stage_0::DEFAULT_CAT_FACT;

fn limiter(capacity: u64) -> RateLimiter {
    RateLimiter::new(capacity).expect("positive capacity")
}

fn test_config() -> GlobalConfig {
    GlobalConfig {
        host: String::from("localhost"),
        port: 8000,
        cors_allowed_origins: vec![String::from("http://localhost")],
        email: String::from("test@example.com"),
        full_name: String::from("Test User"),
        stack: String::from("Rust/Axum"),
        cat_fact_api: String::from("http://localhost:8000"),
    }
}

#[test]
fn first_capacity_requests_allowed_then_denied() {
    let mut lim = limiter(5);
    let key = String::from("127.0.0.1");
    for i in 1..=5u64 {
        assert_eq!(
            lim.check_and_record(&key, 1_000 + i),
            Decision::Allowed,
            "request {} should be admitted",
            i
        );
    }
    assert_eq!(lim.check_and_record(&key, 1_006), Decision::Denied);
    assert_eq!(lim.count_for(&key), Some(5));
}

#[test]
fn denied_request_does_not_mutate_counter() {
    let mut lim = limiter(2);
    let key = String::from("10.0.0.1");
    assert_eq!(lim.check_and_record(&key, 0), Decision::Allowed);
    assert_eq!(lim.check_and_record(&key, 1), Decision::Allowed);
    assert_eq!(lim.check_and_record(&key, 2), Decision::Denied);
    assert_eq!(lim.check_and_record(&key, 3), Decision::Denied);
    assert_eq!(lim.count_for(&key), Some(2));
}

#[test]
fn window_lapse_readmits_and_restarts_counter() {
    let mut lim = limiter(2);
    let key = String::from("192.168.0.7");
    assert_eq!(lim.check_and_record(&key, 100), Decision::Allowed);
    assert_eq!(lim.check_and_record(&key, 200), Decision::Allowed);
    assert_eq!(lim.check_and_record(&key, 300), Decision::Denied);
    // One instant before the boundary the key is still denied.
    assert_eq!(
        lim.check_and_record(&key, 100 + WINDOW_MILLIS - 1),
        Decision::Denied
    );
    // At the boundary the window has lapsed: admitted, counter back at one.
    assert_eq!(
        lim.check_and_record(&key, 100 + WINDOW_MILLIS),
        Decision::Allowed
    );
    assert_eq!(lim.count_for(&key), Some(1));
}

#[test]
fn distinct_keys_do_not_interfere() {
    let mut lim = limiter(1);
    let first = String::from("1.1.1.1");
    let second = String::from("2.2.2.2");
    assert_eq!(lim.check_and_record(&first, 10), Decision::Allowed);
    assert_eq!(lim.check_and_record(&first, 11), Decision::Denied);
    // A saturated first key leaves the second key's budget untouched.
    assert_eq!(lim.check_and_record(&second, 12), Decision::Allowed);
    assert_eq!(lim.count_for(&first), Some(1));
    assert_eq!(lim.count_for(&second), Some(1));
    assert_eq!(lim.count_for(&String::from("3.3.3.3")), None);
}

#[test]
fn burst_admits_exactly_capacity() {
    let mut lim = limiter(3);
    let key = String::from("8.8.8.8");
    let mut admitted = 0u64;
    let mut denied = 0u64;
    for i in 0..7u64 {
        match lim.check_and_record(&key, 500 + i) {
            Decision::Allowed => admitted += 1,
            Decision::Denied => denied += 1,
        }
    }
    assert_eq!(admitted, 3);
    assert_eq!(denied, 4);
}

#[test]
fn app_context_carries_config_and_limiter() {
    let context = hng_stage_0::api::AppContext {
        config: test_config(),
        rate_limiter: limiter(5),
    };
    assert_eq!(context.config.email, "test@example.com");
    assert_eq!(context.rate_limiter.capacity(), 5);
}

#[test]
fn zero_capacity_is_a_configuration_error() {
    assert!(RateLimiter::new(0).is_err());
    let lim = limiter(20);
    assert_eq!(lim.capacity(), 20);
}

#[test]
fn gate_fails_closed_without_client_identity() {
    let mut lim = limiter(5);
    let outcome = gate_request(&mut lim, None, 0);
    assert_eq!(outcome, GateOutcome::MissingClientIdentity);
    assert_eq!(denial_status(&outcome), Some(500));
}

#[test]
fn gate_forwards_then_rejects_with_429() {
    let mut lim = limiter(5);
    let peer = String::from("127.0.0.1");
    for i in 1..=5u64 {
        let outcome = gate_request(&mut lim, Some(&peer), i);
        assert_eq!(outcome, GateOutcome::Forward, "request {} should succeed", i);
        assert_eq!(denial_status(&outcome), None);
    }
    let outcome = gate_request(&mut lim, Some(&peer), 6);
    assert_eq!(outcome, GateOutcome::TooManyRequests);
    assert_eq!(denial_status(&outcome), Some(429));
    // The denial mutated nothing: the recorded count still equals the capacity.
    assert_eq!(lim.count_for(&peer), Some(5));
}

#[test]
fn fetched_fact_is_served_verbatim() {
    let fact = fact_or_default(Some(String::from("Cats sleep 70% of their lives.")));
    assert_eq!(fact, "Cats sleep 70% of their lives.");
}

#[test]
fn failed_fetch_degrades_to_default_fact() {
    assert_eq!(fact_or_default(None), DEFAULT_CAT_FACT);
}

#[test]
fn profile_new_keeps_fields() {
    let p = UserProfile::new(
        String::from("test@example.com"),
        String::from("Test User"),
        String::from("Rust/Axum"),
    );
    assert_eq!(p.email, "test@example.com");
    assert_eq!(p.name, "Test User");
    assert_eq!(p.stack, "Rust/Axum");
}

#[test]
fn api_response_carries_success_profile_and_fact() {
    let p = UserProfile::new(
        String::from("test@example.com"),
        String::from("Test User"),
        String::from("Rust/Axum"),
    );
    let r = ApiResponse::new(p, String::from("Cats are cool."));
    assert_eq!(r.status, "success");
    assert_eq!(r.user.email, "test@example.com");
    assert_eq!(r.user.name, "Test User");
    assert_eq!(r.user.stack, "Rust/Axum");
    assert_eq!(r.fact, "Cats are cool.");
    // RFC 3339 with millisecond precision and a Z suffix, e.g.
    // 2020-01-01T00:00:00.000Z: 24 characters.
    assert_eq!(r.timestamp.len(), 24);
    assert!(r.timestamp.ends_with('Z'));
}

#[test]
fn profile_response_assembles_from_config() {
    let config = test_config();
    let r = profile_response(&config, String::from("Cats sleep 70% of their lives."));
    assert_eq!(r.status, "success");
    assert_eq!(r.user.email, "test@example.com");
    assert_eq!(r.user.name, "Test User");
    assert_eq!(r.user.stack, "Rust/Axum");
    assert_eq!(r.fact, "Cats sleep 70% of their lives.");
}

#[test]
fn port_text_parses_like_std() {
    assert_eq!(parse_port_or_default("8080"), 8080);
    assert_eq!(parse_port_or_default("65535"), 65535);
    assert_eq!(parse_port_or_default("+123"), 123);
    assert_eq!(parse_port_or_default("007"), 7);
    assert_eq!(parse_port_or_default("0"), 0);
}

#[test]
fn bad_port_text_falls_back_to_default() {
    assert_eq!(parse_port_or_default(""), 8000);
    assert_eq!(parse_port_or_default("+"), 8000);
    assert_eq!(parse_port_or_default("abc"), 8000);
    assert_eq!(parse_port_or_default("80a0"), 8000);
    assert_eq!(parse_port_or_default("65536"), 8000);
    assert_eq!(parse_port_or_default("-1"), 8000);
    assert_eq!(parse_port_or_default("12 3"), 8000);
}

#[test]
fn origins_split_on_commas_and_trim() {
    assert_eq!(
        split_origins("http://localhost:8000, http://example.com"),
        vec![
            String::from("http://localhost:8000"),
            String::from("http://example.com"),
        ]
    );
    assert_eq!(
        split_origins(" a ,\tb\t, c"),
        vec![String::from("a"), String::from("b"), String::from("c")]
    );
    assert_eq!(split_origins(""), vec![String::new()]);
    assert_eq!(
        split_origins("a,,b"),
        vec![String::from("a"), String::new(), String::from("b")]
    );
    assert_eq!(trim_spaces("  spaced out \r\n"), "spaced out");
    assert_eq!(trim_spaces(""), "");
    assert_eq!(trim_spaces(" \t "), "");
}

#[test]
fn unconfigured_values_fall_back() {
    assert_eq!(resolve_port(None), 8000);
    assert_eq!(resolve_port(Some(&String::from("9001"))), 9001);
    assert_eq!(value_or(None, "0.0.0.0"), "0.0.0.0");
    assert_eq!(
        value_or(Some(String::from("10.1.2.3")), "0.0.0.0"),
        "10.1.2.3"
    );
}
