use otp_core::otp::{
    bind_request_to_user, generate_hotp, generate_otp_6, generate_request_id, generate_totp,
    generate_totp_at, hash_otp,
};

#[test]
fn lib_test_hotp_rfc_reference() {
    let secret = "12345678901234567890".as_bytes();
    let expected_otps = vec!["755224", "287082", "359152", "969429", "338314"];

    for (i, expected) in expected_otps.iter().enumerate() {
        let otp = generate_hotp(secret, i as u64, 6);
        assert_eq!(&otp, expected);
    }
}

#[test]
fn totp_test_test_hotp_rfc_reference() {
    let secret = "12345678901234567890".as_bytes();
    let expected_otps = vec![
        "755224", "287082", "359152", "969429", "338314", "254676", "287922", "162583",
        "399871", "520489",
    ];

    for (i, expected) in expected_otps.iter().enumerate() {
        let otp = generate_hotp(secret, i as u64, 6);
        assert_eq!(&otp, expected, "HOTP mismatch at counter {}", i);
    }
}

#[test]
fn test_totp_rfc_reference() {
    // TOTP reference timestamps, with a 30-second step and T0 = 0.
    let secret = "12345678901234567890".as_bytes();

    let test_cases = vec![
        (59u64, "94287082"),
        (1111111109, "07081804"),
        (1111111111, "14050471"),
        (1234567890, "89005924"),
        (2000000000, "69279037"),
        (20000000000, "65353130"),
    ];

    for (timestamp, expected) in test_cases {
        let otp = generate_totp_at(secret, 30, 8, 0, timestamp);
        assert_eq!(otp, expected, "TOTP mismatch at timestamp {}", timestamp);
    }
}

#[test]
fn test_totp_with_60_second_step() {
    let secret = "blockchain-otp-secret-key".as_bytes();
    let time_step = 60u64;
    let digits = 6;
    let t0 = 0u64;

    let otp1 = generate_totp(secret, time_step, digits, t0);
    assert_eq!(otp1.len(), digits);
    assert!(otp1.chars().all(|c| c.is_digit(10)));
}

#[test]
fn totp_counter_advances_with_the_step() {
    let secret = "12345678901234567890".as_bytes();
    // instants within the same step share a counter, so they share a code
    assert_eq!(
        generate_totp_at(secret, 60, 6, 0, 0),
        generate_totp_at(secret, 60, 6, 0, 59)
    );
    assert_eq!(
        generate_totp_at(secret, 60, 6, 0, 0),
        generate_hotp(secret, 0, 6)
    );
    assert_eq!(
        generate_totp_at(secret, 60, 6, 0, 60),
        generate_hotp(secret, 1, 6)
    );
    assert_eq!(
        generate_totp_at(secret, 60, 6, 0, 125),
        generate_hotp(secret, 2, 6)
    );
}

#[test]
fn test_generate_otp_6() {
    let otp = generate_otp_6();
    assert_eq!(otp.len(), 6);
    assert!(otp.chars().all(|c| c.is_digit(10)));
}

#[test]
fn test_hash_otp() {
    let otp = "123456";
    let hash = hash_otp(otp);
    assert!(!hash.is_empty());
    assert!(hash.starts_with("0x"));
}

#[test]
fn hash_otp_reference_values() {
    // Keccak-256 of the domain prefix and the code, hex encoded
    assert_eq!(
        hash_otp("123456"),
        "0xb3455842fb585b760eb9ced1361ccf6f49c9ceb70168cddd002925992baa7333"
    );
    assert_eq!(
        hash_otp("654321"),
        "0x37acf9862d15055c4f29ab82b80b4d6756b557aacebfeb0e915ab195b033a686"
    );
    assert_eq!(
        hash_otp("000000"),
        "0xdae0bdcec3238a2a015107efa89cea6f88fcc4a33ec1abb79b7dd494e5622653"
    );
}

#[test]
fn hash_otp_round_trip() {
    assert_eq!(hash_otp("123456"), hash_otp("123456"));
    assert_ne!(hash_otp("123456"), hash_otp("123457"));
    assert_ne!(hash_otp("000000"), hash_otp("000001"));
}

#[test]
fn test_generate_request_id() {
    let id1 = generate_request_id();
    let id2 = generate_request_id();
    assert!(!id1.is_empty());
    assert!(!id2.is_empty());
    assert_ne!(id1, id2);
    assert_eq!(id1.len(), 66);
    assert!(id1.starts_with("0x"));
    assert!(id1[2..].chars().all(|c| c.is_ascii_hexdigit()));
}

#[test]
fn test_bind_request_to_user() {
    let user_id = "user123";
    let binding1 = bind_request_to_user(user_id);
    let binding2 = bind_request_to_user(user_id);

    assert!(!binding1.is_empty());
    assert!(!binding2.is_empty());
    assert_ne!(binding1, binding2);
    assert_eq!(binding1.len(), 66);
}
