use chrono::{Duration, Utc};
use rclaim::rate::{check_rate_limit, is_rate_limited, Client};

#[test]
fn test_rate_limit() {
    let mut client = Client {
        request_count: 0,
        window_start: Some(Utc::now().timestamp_millis()),
    };

    for _ in 0..99 {
        assert!(!is_rate_limited(&mut client))
    }

    assert!(!is_rate_limited(&mut client));

    assert!(is_rate_limited(&mut client));

    client.window_start =
        Some((Utc::now() - Duration::minutes(16)).timestamp_millis());
    assert!(!is_rate_limited(&mut client));
}

#[test]
fn quota_boundary_at_fixed_instant() {
    let t: i64 = 1_000_000;
    let mut client = Client {
        request_count: 0,
        window_start: Some(t),
    };
    for n in 1..=100 {
        assert!(
            !check_rate_limit(&mut client, t),
            "message {} should be accepted",
            n
        );
    }
    assert!(check_rate_limit(&mut client, t), "the 101st is rejected");
    assert_eq!(client.request_count, 100, "a rejected message is not counted");
}

#[test]
fn window_reset_admits_again() {
    let t: i64 = 0;
    let mut client = Client {
        request_count: 100,
        window_start: Some(t),
    };
    assert!(check_rate_limit(&mut client, t + 1), "still inside the window");
    let after = t + 15 * 60 * 1000;
    assert!(
        !check_rate_limit(&mut client, after),
        "a fully elapsed window resets"
    );
    assert_eq!(client.request_count, 0);
    assert_eq!(client.window_start, Some(after));
}

#[test]
fn fresh_client_starts_a_window() {
    let mut client = Client {
        request_count: 7,
        window_start: None,
    };
    assert!(!check_rate_limit(&mut client, 42));
    assert_eq!(client.request_count, 0);
    assert_eq!(client.window_start, Some(42));
}
