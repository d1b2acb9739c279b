use otp_core::alerts::{AlertManager, AlertSeverity};
use otp_core::anomaly::{AnomalyDetector, VerificationAttempt};

fn attempt(user: &str, ip: &str, timestamp: u64, success: bool) -> VerificationAttempt {
    VerificationAttempt {
        user_id: user.to_string(),
        ip_address: ip.to_string(),
        timestamp,
        success,
    }
}

#[test]
fn anomaly_detection_test_anomaly_detection() {
    let mut detector = AnomalyDetector::new(3600, 5);

    for i in 0..3 {
        detector.record_attempt(attempt("user123", "192.168.1.1", 1000 + i, true));
    }

    assert!(!detector.is_user_anomalous("user123"));
    assert!(!detector.is_ip_anomalous("192.168.1.1"));

    for i in 0..3 {
        detector.record_attempt(attempt("user123", "192.168.1.1", 2000 + i, false));
    }

    assert!(detector.is_user_anomalous("user123"));
    assert!(detector.is_ip_anomalous("192.168.1.1"));
}

#[test]
fn test_stats_retrieval() {
    let mut detector = AnomalyDetector::new(3600, 5);

    detector.record_attempt(attempt("user456", "10.0.0.1", 1000, true));

    let user_stats = detector.get_user_stats("user456");
    assert!(user_stats.is_some());
    let user_stats = user_stats.unwrap();
    assert_eq!(user_stats.attempt_count, 1);

    let ip_stats = detector.get_ip_stats("10.0.0.1");
    assert!(ip_stats.is_some());
    let ip_stats = ip_stats.unwrap();
    assert_eq!(ip_stats.attempt_count, 1);
}

#[test]
fn user_becomes_anomalous_only_past_the_threshold() {
    let mut detector = AnomalyDetector::new(3600, 5);

    for i in 0..6u64 {
        detector.record_attempt(attempt("bob", "10.0.0.9", 100 + i, false));
        let count = i + 1;
        assert_eq!(
            detector.is_user_anomalous("bob"),
            count > 5,
            "after {} attempts",
            count
        );
    }
}

#[test]
fn ip_flagged_by_failed_attempts_alone() {
    // threshold 5: a source is flagged once failures exceed 5 / 2 = 2
    let mut detector = AnomalyDetector::new(3600, 5);
    detector.record_attempt(attempt("a", "1.2.3.4", 10, false));
    detector.record_attempt(attempt("b", "1.2.3.4", 11, false));
    assert!(!detector.is_ip_anomalous("1.2.3.4"));
    detector.record_attempt(attempt("c", "1.2.3.4", 12, false));
    assert!(detector.is_ip_anomalous("1.2.3.4"));
    // three attempts do not cross the attempt-count threshold itself
    assert!(!detector.is_user_anomalous("a"));
}

#[test]
fn stats_track_failures_and_instants() {
    let mut detector = AnomalyDetector::new(3600, 5);
    detector.record_attempt(attempt("carol", "9.9.9.9", 50, true));
    detector.record_attempt(attempt("carol", "9.9.9.9", 60, false));
    detector.record_attempt(attempt("carol", "9.9.9.9", 70, false));

    let stats = detector.get_user_stats("carol").unwrap();
    assert_eq!(stats.attempt_count, 3);
    assert_eq!(stats.failed_attempts, 2);
    assert_eq!(stats.first_attempt_timestamp, 50);
    assert_eq!(stats.last_attempt_timestamp, 70);
}

#[test]
fn writes_sweep_expired_keys() {
    let mut detector = AnomalyDetector::new(10, 5);
    detector.record_attempt(attempt("old-user", "1.1.1.1", 0, true));
    assert!(detector.get_user_stats("old-user").is_some());

    // a write far past the window evicts the stale key, and the written
    // key itself when its own window has elapsed
    detector.record_attempt(attempt("new-user", "1.1.1.1", 100, true));
    assert!(detector.get_user_stats("old-user").is_none());
    assert!(detector.get_user_stats("new-user").is_some());
    // the source key's window opened at 0, so it was evicted too
    assert!(detector.get_ip_stats("1.1.1.1").is_none());
}

#[test]
fn reset_clears_a_single_key() {
    let mut detector = AnomalyDetector::new(3600, 5);
    detector.record_attempt(attempt("dave", "2.2.2.2", 5, false));
    detector.record_attempt(attempt("erin", "3.3.3.3", 6, false));

    detector.reset_user_stats("dave");
    assert!(detector.get_user_stats("dave").is_none());
    assert!(detector.get_user_stats("erin").is_some());

    detector.reset_ip_stats("2.2.2.2");
    assert!(detector.get_ip_stats("2.2.2.2").is_none());
    assert!(detector.get_ip_stats("3.3.3.3").is_some());
}

#[test]
fn test_alert_creation() {
    let mut alert_manager = AlertManager::new();

    alert_manager.alert_user_anomaly("user123", 15);
    alert_manager.alert_ip_anomaly("192.168.1.1", 25, 12);
    alert_manager.alert_brute_force("user456", "10.0.0.1", 20);

    let recent_alerts = alert_manager.get_recent_alerts(10);
    assert_eq!(recent_alerts.len(), 3);

    let user_alerts = alert_manager.get_alerts_by_type("USER_ANOMALY");
    assert_eq!(user_alerts.len(), 1);

    let critical_alerts = alert_manager.get_alerts_by_severity(AlertSeverity::Critical);
    assert_eq!(critical_alerts.len(), 1);
}

#[test]
fn alert_contents_follow_the_fixed_mapping() {
    let mut manager = AlertManager::new();

    manager.alert_user_anomaly_at("user123", 15, 42);
    manager.alert_user_anomaly_at("user123", 21, 43);
    manager.alert_ip_anomaly_at("192.168.1.1", 25, 12, 44);
    manager.alert_ip_anomaly_at("192.168.1.1", 25, 10, 45);
    manager.alert_brute_force_at("user456", "10.0.0.1", 20, 46);

    let alerts = manager.get_recent_alerts(10);
    assert_eq!(alerts.len(), 5);

    assert_eq!(alerts[0].alert_type, "USER_ANOMALY");
    assert_eq!(
        alerts[0].message,
        "User user123 shows anomalous behavior with 15 attempts in the time window"
    );
    assert_eq!(alerts[0].severity, AlertSeverity::Medium);
    assert_eq!(alerts[0].timestamp, 42);
    assert_eq!(alerts[0].user_id.as_deref(), Some("user123"));
    assert_eq!(alerts[0].ip_address, None);

    assert_eq!(alerts[1].severity, AlertSeverity::High);

    assert_eq!(alerts[2].alert_type, "IP_ANOMALY");
    assert_eq!(
        alerts[2].message,
        "IP 192.168.1.1 shows anomalous behavior with 25 total attempts and 12 failed attempts"
    );
    assert_eq!(alerts[2].severity, AlertSeverity::High);
    assert_eq!(alerts[2].user_id, None);
    assert_eq!(alerts[2].ip_address.as_deref(), Some("192.168.1.1"));

    assert_eq!(alerts[3].severity, AlertSeverity::Medium);

    assert_eq!(alerts[4].alert_type, "BRUTE_FORCE");
    assert_eq!(
        alerts[4].message,
        "Potential brute force attack detected from IP 10.0.0.1 on user user456 with 20 failed attempts"
    );
    assert_eq!(alerts[4].severity, AlertSeverity::Critical);
    assert_eq!(alerts[4].user_id.as_deref(), Some("user456"));
    assert_eq!(alerts[4].ip_address.as_deref(), Some("10.0.0.1"));
}

#[test]
fn alert_log_keeps_the_most_recent_hundred() {
    let mut manager = AlertManager::new();
    for i in 0..150u64 {
        manager.alert_user_anomaly_at("flood", 3, i);
    }

    let recent = manager.get_recent_alerts(100);
    assert_eq!(recent.len(), 100);
    assert_eq!(recent[0].timestamp, 50);
    assert_eq!(recent[99].timestamp, 149);

    // asking for more than the log holds returns everything, oldest first
    let all = manager.get_recent_alerts(1000);
    assert_eq!(all.len(), 100);
    assert_eq!(all[0].timestamp, 50);
}

#[test]
fn clearing_empties_the_log() {
    let mut manager = AlertManager::new();
    manager.alert_user_anomaly_at("u", 1, 1);
    manager.alert_ip_anomaly_at("i", 2, 2, 2);
    assert_eq!(manager.get_recent_alerts(10).len(), 2);
    manager.clear_alerts();
    assert_eq!(manager.get_recent_alerts(10).len(), 0);
}

#[test]
fn queries_filter_by_type_and_severity() {
    let mut manager = AlertManager::new();
    manager.alert_user_anomaly_at("u1", 5, 1);
    manager.alert_user_anomaly_at("u2", 30, 2);
    manager.alert_ip_anomaly_at("i1", 9, 20, 3);
    manager.alert_brute_force_at("u3", "i2", 40, 4);

    assert_eq!(manager.get_alerts_by_type("USER_ANOMALY").len(), 2);
    assert_eq!(manager.get_alerts_by_type("IP_ANOMALY").len(), 1);
    assert_eq!(manager.get_alerts_by_type("BRUTE_FORCE").len(), 1);
    assert_eq!(manager.get_alerts_by_type("OTHER").len(), 0);

    assert_eq!(manager.get_alerts_by_severity(AlertSeverity::Medium).len(), 1);
    assert_eq!(manager.get_alerts_by_severity(AlertSeverity::High).len(), 2);
    assert_eq!(manager.get_alerts_by_severity(AlertSeverity::Critical).len(), 1);
    assert_eq!(manager.get_alerts_by_severity(AlertSeverity::Low).len(), 0);
}
