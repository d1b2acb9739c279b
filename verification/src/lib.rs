//! One-time-password issuance and verification, with abuse detection.
//!
//! The crate covers the OTP lifecycle state machine and the pipeline that
//! guards it: HOTP/TOTP code generation, the request store with its
//! single-use transition, a token-bucket rate limiter, a sliding-window
//! anomaly detector, and a bounded security-alert log. An orchestrator
//! composes them into the two public operations, requesting and verifying
//! a code.

pub mod crypto;
pub mod otp;
pub mod alerts;
pub mod anomaly;
pub mod rate;
pub mod service;
pub mod store;
pub mod text;
pub mod validate;
