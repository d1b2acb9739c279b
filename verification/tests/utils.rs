use otp_core::service::{OtpRequestPayload, OtpVerifyPayload};
use otp_core::validate::{format_timestamp, validate_otp, validate_user_id};

#[test]
fn format_timestamp_returns_string() {
    let result = format_timestamp(1_640_995_200);
    assert_eq!(result, "1640995200");
}

#[test]
fn format_timestamp_handles_zero() {
    assert_eq!(format_timestamp(0), "0");
    assert_eq!(format_timestamp(7), "7");
    assert_eq!(format_timestamp(10), "10");
}

#[test]
fn validate_otp_accepts_six_digits() {
    assert!(validate_otp("123456"));
}

#[test]
fn validate_otp_rejects_non_digits() {
    assert!(!validate_otp("12a456"));
    assert!(!validate_otp("12345"));
    assert!(!validate_otp("1234567"));
}

#[test]
fn validate_user_id_rules() {
    assert!(validate_user_id("user-123"));
    assert!(!validate_user_id(""));
    let long_id = "a".repeat(101);
    assert!(!validate_user_id(&long_id));
}

#[test]
fn request_payload_validation_messages() {
    let ok = OtpRequestPayload { user_id: "alice".to_string() };
    assert!(ok.validate().is_ok());

    let empty = OtpRequestPayload { user_id: String::new() };
    assert_eq!(empty.validate(), Err("User ID cannot be empty"));

    let long = OtpRequestPayload { user_id: "a".repeat(101) };
    assert_eq!(long.validate(), Err("User ID too long"));

    let border = OtpRequestPayload { user_id: "a".repeat(100) };
    assert!(border.validate().is_ok());
}

#[test]
fn verify_payload_validation_messages() {
    let ok = OtpVerifyPayload { request_id: "req".to_string(), otp: "123456".to_string() };
    assert!(ok.validate().is_ok());

    let empty_id = OtpVerifyPayload { request_id: String::new(), otp: "123456".to_string() };
    assert_eq!(empty_id.validate(), Err("Request ID cannot be empty"));

    let long_id = OtpVerifyPayload { request_id: "r".repeat(101), otp: "123456".to_string() };
    assert_eq!(long_id.validate(), Err("Request ID too long"));

    let empty_otp = OtpVerifyPayload { request_id: "req".to_string(), otp: String::new() };
    assert_eq!(empty_otp.validate(), Err("OTP cannot be empty"));

    let short_otp = OtpVerifyPayload { request_id: "req".to_string(), otp: "12345".to_string() };
    assert_eq!(short_otp.validate(), Err("OTP must be 6 digits"));

    let letters = OtpVerifyPayload { request_id: "req".to_string(), otp: "12c456".to_string() };
    assert_eq!(letters.validate(), Err("OTP must contain only digits"));
}
