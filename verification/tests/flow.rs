use otp_core::otp::hash_otp;
use otp_core::rate::RateLimiter;
use otp_core::service::{OtpError, OtpService};
use otp_core::store::{OtpRequest, RequestStore};

#[test]
fn rate_limiter_admits_capacity_then_rejects() {
    let mut limiter = RateLimiter::new(3, 1, 100);
    assert!(limiter.allow("alice", 1000));
    assert!(limiter.allow("alice", 1000));
    assert!(limiter.allow("alice", 1000));
    assert!(!limiter.allow("alice", 1000));
    // other keys have their own bucket
    assert!(limiter.allow("bob", 1000));
}

#[test]
fn rate_limiter_refills_over_time() {
    let mut limiter = RateLimiter::new(3, 1, 100);
    for _ in 0..3 {
        assert!(limiter.allow("carol", 0));
    }
    assert!(!limiter.allow("carol", 0));
    // 99 seconds refill less than one whole token
    assert!(!limiter.allow("carol", 99));
    // but by 100 seconds after that refill a token has accrued
    assert!(limiter.allow("carol", 199));
    assert!(!limiter.allow("carol", 199));
}

#[test]
fn store_verifies_a_code_exactly_once() {
    let mut store = RequestStore::new();
    store.insert_request(OtpRequest {
        request_id: "req-1".to_string(),
        user_id: "alice".to_string(),
        otp_hash: hash_otp("123456"),
        expires_at: 1060,
        used: false,
        counter: 0,
    });

    assert!(!store.try_verify("req-1", "999999", 1000));
    assert!(store.try_verify("req-1", "123456", 1000));
    assert!(!store.try_verify("req-1", "123456", 1000));
    assert!(!store.try_verify("missing", "123456", 1000));
}

#[test]
fn store_rejects_expired_codes_without_spending_them() {
    let mut store = RequestStore::new();
    store.insert_request(OtpRequest {
        request_id: "req-2".to_string(),
        user_id: "bob".to_string(),
        otp_hash: hash_otp("654321"),
        expires_at: 100,
        used: false,
        counter: 0,
    });

    assert!(!store.try_verify("req-2", "654321", 101));
    let entry = store.snapshot_request("req-2").unwrap();
    assert!(!entry.used);
    // at the boundary the code still verifies
    assert!(store.try_verify("req-2", "654321", 100));
}

#[test]
fn otp_request_and_verify_flow() {
    let mut service = OtpService::new();

    let response = service
        .request_otp_at("alice", "123456", "req-flow", 1000)
        .expect("request should be granted");
    assert_eq!(response.request_id, "req-flow");
    assert_eq!(response.expires_at, 1060);

    let stored = service
        .snapshot_request("req-flow")
        .expect("request should be stored");
    assert_eq!(stored.user_id, "alice");
    assert_eq!(stored.otp_hash, hash_otp("123456"));
    assert!(!stored.used);

    assert!(service.verify_otp_at("req-flow", "123456", "203.0.113.9", 1001));
    assert!(!service.verify_otp_at("req-flow", "123456", "203.0.113.9", 1002));
}

#[test]
fn otp_rejects_expired_codes() {
    let mut service = OtpService::new();
    service.insert_request(OtpRequest {
        request_id: "expired-case".to_string(),
        user_id: "expired-user".to_string(),
        otp_hash: hash_otp("123456"),
        expires_at: 995,
        used: false,
        counter: 0,
    });

    assert!(!service.verify_otp_at("expired-case", "123456", "203.0.113.9", 1000));
    let entry = service.snapshot_request("expired-case").unwrap();
    assert!(!entry.used);
}

#[test]
fn otp_rejects_reuse_of_codes() {
    let mut service = OtpService::new();
    service.insert_request(OtpRequest {
        request_id: "reuse-case".to_string(),
        user_id: "reuse-user".to_string(),
        otp_hash: hash_otp("654321"),
        expires_at: 2000,
        used: false,
        counter: 0,
    });

    assert!(service.verify_otp_at("reuse-case", "654321", "203.0.113.9", 1000));
    assert!(!service.verify_otp_at("reuse-case", "654321", "203.0.113.9", 1001));
}

#[test]
fn unknown_ids_verify_to_false_and_feed_the_detector() {
    let mut service = OtpService::new();
    for i in 0..11u64 {
        assert!(!service.verify_otp_at("no-such-id", "000000", "198.51.100.7", 1000 + i));
    }
    let stats = service
        .anomaly_detector()
        .get_user_stats("unknown")
        .expect("probing unknown ids is recorded under the unknown key");
    assert_eq!(stats.attempt_count, 11);
    assert_eq!(stats.failed_attempts, 11);
}

#[test]
fn request_validation_and_admission_errors() {
    let mut service = OtpService::new();

    let empty = service.request_otp_at("", "123456", "req-a", 0);
    assert!(matches!(empty, Err(OtpError::Validation(m)) if m == "User ID cannot be empty"));

    let long_user = "u".repeat(101);
    let long = service.request_otp_at(&long_user, "123456", "req-b", 0);
    assert!(matches!(long, Err(OtpError::Validation(m)) if m == "User ID too long"));

    for i in 0..3 {
        let id = format!("req-{}", i);
        assert!(service.request_otp_at("dora", "123456", &id, 500).is_ok());
    }
    let fourth = service.request_otp_at("dora", "123456", "req-3", 500);
    assert!(matches!(fourth, Err(OtpError::RateLimited)));
}

#[test]
fn request_otp_draws_a_fresh_id_and_hides_the_code() {
    let mut service = OtpService::new();
    let response = service.request_otp("alice").expect("request should be granted");
    assert_eq!(response.request_id.len(), 66);
    assert!(response.request_id.starts_with("0x"));

    let stored = service.snapshot_request(&response.request_id).unwrap();
    assert_eq!(stored.user_id, "alice");
    assert!(!stored.used);
    // only the hash of the code is stored
    assert!(stored.otp_hash.starts_with("0x"));
    assert_eq!(stored.otp_hash.len(), 66);
}

#[test]
fn repeated_failures_raise_an_alert() {
    let mut service = OtpService::new();
    service.insert_request(OtpRequest {
        request_id: "target".to_string(),
        user_id: "victim".to_string(),
        otp_hash: hash_otp("123456"),
        expires_at: 10_000,
        used: false,
        counter: 0,
    });

    // the detector threshold is 10, so the eleventh attempt flags the user
    for i in 0..11u64 {
        service.verify_otp_at("target", "999999", "198.51.100.7", 1000 + i);
    }

    let alerts = service.get_recent_alerts(50);
    // the source is flagged first (failures past half the threshold),
    // the user once its attempt count passes the threshold itself
    assert!(alerts.iter().any(|a| a.alert_type == "IP_ANOMALY"
        && a.ip_address.as_deref() == Some("198.51.100.7")));
    assert!(alerts.iter().any(|a| a.alert_type == "USER_ANOMALY"
        && a.user_id.as_deref() == Some("victim")));
}
