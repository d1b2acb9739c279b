//! The request orchestrator: composes the rate limiter, code generator,
//! request store, anomaly detector and alert log into the two public
//! operations, requesting and verifying a one-time password. Also the
//! transport payloads and their validation.

use vstd::prelude::*;
use vstd::string::{StrSliceExecFns, StringExecFns, StringSliceAdditionalSpecFns};
use vstd::utf8::encode_utf8;
use crate::alerts::{
    appended_log, ip_anomaly_alert, user_anomaly_alert, AlertManager, SecurityAlert,
};
use crate::anomaly::{after_record, AnomalyDetector, VerificationAttempt};
use crate::crypto::now_unix;
use crate::otp::{bind_request_to_user, generate_totp_at, hash_otp, hash_otp_spec};
use crate::rate::{after_allow, RateLimiter};
use crate::store::{after_try_verify, try_verify_ok, OtpEntryModel, OtpRequest, RequestStore};
use crate::validate::{all_digit_chars, valid_user_id};

verus! {

/// Seconds an issued code stays valid.
pub const OTP_TTL_SECONDS: u64 = 60;

/// Rate-limiter capacity, in whole tokens.
pub const RATE_CAPACITY: u64 = 3;

/// Rate-limiter refill: `RATE_REFILL_NUM` tokens per `RATE_REFILL_DEN`
/// seconds.
pub const RATE_REFILL_NUM: u64 = 1;

/// Rate-limiter refill denominator, in seconds.
pub const RATE_REFILL_DEN: u64 = 100;

/// Anomaly-detection window, in seconds.
pub const ANOMALY_WINDOW: u64 = 3600;

/// Anomaly-detection attempt threshold.
pub const ANOMALY_THRESHOLD: u32 = 10;

/// TOTP time step, in seconds.
pub const TOTP_STEP: u64 = 60;

/// Digits of an issued code.
pub const OTP_DIGITS: usize = 6;

/// Payload accepted by the OTP generation endpoint.
pub struct OtpRequestPayload {
    pub user_id: String,
}

impl OtpRequestPayload {
    /// Accepts exactly the user identifiers of one to one hundred bytes,
    /// and names what is wrong with the rest.
    pub fn validate(&self) -> (r: Result<(), &'static str>)
        ensures
            r is Ok <==> valid_user_id(encode_utf8(self.user_id@)),
            encode_utf8(self.user_id@).len() == 0 ==> (r matches Err(m) && m@
                == "User ID cannot be empty"@),
            encode_utf8(self.user_id@).len() > 100 ==> (r matches Err(m) && m@
                == "User ID too long"@),
    {
        let n = self.user_id.as_str().as_bytes().len();
        if n == 0 {
            Err("User ID cannot be empty")
        } else if n > 100 {
            Err("User ID too long")
        } else {
            Ok(())
        }
    }
}

/// Payload accepted by the OTP verification endpoint.
pub struct OtpVerifyPayload {
    pub request_id: String,
    pub otp: String,
}

impl OtpVerifyPayload {
    /// Accepts exactly the payloads whose request id is one to one
    /// hundred bytes and whose code is exactly six decimal digits, and
    /// names the first failing check of the rest.
    pub fn validate(&self) -> (r: Result<(), &'static str>)
        ensures
            r is Ok <==> (valid_user_id(encode_utf8(self.request_id@)) && encode_utf8(
                self.otp@,
            ).len() == 6 && (forall|i: int|
                0 <= i < self.otp@.len() ==> '0' <= #[trigger] self.otp@[i] <= '9')),
            encode_utf8(self.request_id@).len() == 0 ==> (r matches Err(m) && m@
                == "Request ID cannot be empty"@),
            encode_utf8(self.request_id@).len() > 100 ==> (r matches Err(m) && m@
                == "Request ID too long"@),
            valid_user_id(encode_utf8(self.request_id@)) && encode_utf8(self.otp@).len() == 0
                ==> (r matches Err(m) && m@ == "OTP cannot be empty"@),
            valid_user_id(encode_utf8(self.request_id@)) && encode_utf8(self.otp@).len() != 6
                && encode_utf8(self.otp@).len() != 0 ==> (r matches Err(m) && m@
                == "OTP must be 6 digits"@),
            valid_user_id(encode_utf8(self.request_id@)) && encode_utf8(self.otp@).len() == 6
                && !(forall|i: int| 0 <= i < self.otp@.len() ==> '0' <= #[trigger] self.otp@[i]
                <= '9') ==> (r matches Err(m) && m@ == "OTP must contain only digits"@),
    {
        let rn = self.request_id.as_str().as_bytes().len();
        if rn == 0 {
            return Err("Request ID cannot be empty");
        }
        if rn > 100 {
            return Err("Request ID too long");
        }
        let on = self.otp.as_str().as_bytes().len();
        if on == 0 {
            return Err("OTP cannot be empty");
        }
        if on != 6 {
            return Err("OTP must be 6 digits");
        }
        if !all_digit_chars(self.otp.as_str()) {
            return Err("OTP must contain only digits");
        }
        Ok(())
    }
}

/// Response sent back after a successful OTP request.
pub struct OtpResponse {
    pub request_id: String,
    pub expires_at: u64,
}

/// Response returned by the verification endpoint.
pub struct VerifyResponse {
    pub verified: bool,
}

/// Standard JSON error payload shape.
pub struct ErrorResponse {
    pub error: String,
}

/// Why a request for a new code was refused.
#[derive(Debug)]
pub enum OtpError {
    /// The input was rejected before it reached the state machine.
    Validation(&'static str),
    /// The admission check refused the caller.
    RateLimited,
}

/// When an entry issued at `now` expires.
pub open spec fn expiry_of(now: u64) -> u64 {
    if now <= u64::MAX - OTP_TTL_SECONDS {
        (now + OTP_TTL_SECONDS) as u64
    } else {
        u64::MAX
    }
}

/// The entry a granted request stores.
pub open spec fn issued_entry(
    id: Seq<char>,
    user: Seq<char>,
    code_bytes: Seq<u8>,
    now: u64,
) -> OtpEntryModel {
    OtpEntryModel {
        request_id: id,
        user_id: user,
        otp_hash: hash_otp_spec(code_bytes),
        expires_at: expiry_of(now),
        used: false,
        counter: 0,
    }
}

/// Composes the components into the two public operations.
pub struct OtpService {
    store: RequestStore,
    limiter: RateLimiter,
    detector: AnomalyDetector,
    alerts: AlertManager,
}

/// What one granted or refused code request does to the whole service,
/// given the drawn code bytes, request id and instant: invalid input
/// changes nothing; valid input runs the admission check, and only a
/// granted request stores an entry. The detector and the alert log never
/// change on this path.
pub open spec fn request_otp_post(
    pre: OtpService,
    post: OtpService,
    user: Seq<char>,
    user_bytes: Seq<u8>,
    code_bytes: Seq<u8>,
    id: Seq<char>,
    now: u64,
    r: Result<OtpResponse, OtpError>,
) -> bool {
    if !valid_user_id(user_bytes) {
        &&& post == pre
        &&& !(r is Ok)
        &&& (user_bytes.len() == 0 ==> (r matches Err(OtpError::Validation(m)) && m@
            == "User ID cannot be empty"@))
        &&& (user_bytes.len() > 100 ==> (r matches Err(OtpError::Validation(m)) && m@
            == "User ID too long"@))
    } else {
        &&& after_allow(pre.spec_limiter(), post.spec_limiter(), user, now)
        &&& post.spec_detector() == pre.spec_detector()
        &&& post.spec_alerts() == pre.spec_alerts()
        &&& if pre.spec_limiter().would_admit(user, now) {
            &&& (r matches Ok(resp) && resp.request_id@ == id && resp.expires_at == expiry_of(
                now,
            ))
            &&& post.spec_store().contains_id(id)
            &&& post.spec_store().entry_of(id) == issued_entry(id, user, code_bytes, now)
            &&& forall|k: Seq<char>|
                k != id ==> #[trigger] post.spec_store().contains_id(k)
                    == pre.spec_store().contains_id(k)
            &&& forall|k: Seq<char>|
                k != id && pre.spec_store().contains_id(k)
                    ==> #[trigger] post.spec_store().entry_of(k) == pre.spec_store().entry_of(k)
        } else {
            &&& (r matches Err(OtpError::RateLimited))
            &&& post.spec_store() == pre.spec_store()
        }
    }
}

/// What one verification does to the whole service, at the given
/// instant: the store runs its transition first; then the attempt is
/// recorded against the entry's user (or the unknown key) and the
/// caller's source; then, for a known id, an alert is appended for each
/// detector that now flags its key. The rate limiter never changes on
/// this path, and the result collapses every failure to `false`.
pub open spec fn verify_otp_post(
    pre: OtpService,
    post: OtpService,
    id: Seq<char>,
    otp_bytes: Seq<u8>,
    source: Seq<char>,
    now: u64,
    verified: bool,
) -> bool {
    let cand = hash_otp_spec(otp_bytes);
    let known = pre.spec_store().contains_id(id);
    let user = if known {
        pre.spec_store().entry_of(id).user_id
    } else {
        "unknown"@
    };
    &&& verified == try_verify_ok(pre.spec_store(), id, cand, now)
    &&& after_try_verify(pre.spec_store(), post.spec_store(), id, cand, now)
    &&& after_record(pre.spec_detector(), post.spec_detector(), user, source, verified, now)
    &&& post.spec_limiter() == pre.spec_limiter()
    &&& if !known {
        post.spec_alerts() == pre.spec_alerts()
    } else {
        let d = post.spec_detector();
        let thr = d.spec_threshold();
        let user_flagged = d.user_contains(user) && d.user_stats_of(user).attempt_count > thr;
        let after_user = if user_flagged {
            appended_log(
                pre.spec_alerts()@,
                user_anomaly_alert(user, d.user_stats_of(user).attempt_count, now),
            )
        } else {
            pre.spec_alerts()@
        };
        let ip_flagged = d.ip_contains(source) && (d.ip_stats_of(source).attempt_count > thr
            || d.ip_stats_of(source).failed_attempts > thr / 2);
        let after_ip = if ip_flagged {
            appended_log(
                after_user,
                ip_anomaly_alert(
                    source,
                    d.ip_stats_of(source).attempt_count,
                    d.ip_stats_of(source).failed_attempts,
                    now,
                ),
            )
        } else {
            after_user
        };
        post.spec_alerts()@ == after_ip
    }
}

/// At most one verification of a given request id ever succeeds at the
/// service: once a call has returned true, every later call on the same
/// id, with any candidate code, any source and any clock, returns false.
pub proof fn lemma_verify_succeeds_at_most_once(
    s0: OtpService,
    s1: OtpService,
    s2: OtpService,
    id: Seq<char>,
    otp1: Seq<u8>,
    source1: Seq<char>,
    now1: u64,
    otp2: Seq<u8>,
    source2: Seq<char>,
    now2: u64,
    verified2: bool,
)
    requires
        verify_otp_post(s0, s1, id, otp1, source1, now1, true),
        verify_otp_post(s1, s2, id, otp2, source2, now2, verified2),
    ensures
        !verified2,
{
    crate::store::lemma_at_most_one_success(
        s0.spec_store(),
        s1.spec_store(),
        id,
        hash_otp_spec(otp1),
        now1,
        hash_otp_spec(otp2),
        now2,
    );
}

impl OtpService {
    /// The request store.
    pub closed spec fn spec_store(self) -> RequestStore {
        self.store
    }

    /// The rate limiter.
    pub closed spec fn spec_limiter(self) -> RateLimiter {
        self.limiter
    }

    /// The anomaly detector.
    pub closed spec fn spec_detector(self) -> AnomalyDetector {
        self.detector
    }

    /// The alert log.
    pub closed spec fn spec_alerts(self) -> AlertManager {
        self.alerts
    }

    /// Every component is well formed.
    pub open spec fn wf(self) -> bool {
        &&& self.spec_store().wf()
        &&& self.spec_limiter().wf()
        &&& self.spec_detector().wf()
        &&& self.spec_alerts().wf()
    }

    /// Creates an empty service with the fixed policy parameters.
    pub fn new() -> (r: Self)
        ensures
            r.wf(),
            forall|id: Seq<char>| !r.spec_store().contains_id(id),
            forall|k: Seq<char>| !r.spec_limiter().contains_key(k),
            forall|k: Seq<char>| !r.spec_detector().user_contains(k),
            forall|k: Seq<char>| !r.spec_detector().ip_contains(k),
            r.spec_alerts()@ == Seq::<crate::alerts::AlertModel>::empty(),
            r.spec_limiter().spec_capacity() == RATE_CAPACITY,
            r.spec_limiter().spec_refill_num() == RATE_REFILL_NUM,
            r.spec_limiter().spec_refill_den() == RATE_REFILL_DEN,
            r.spec_detector().spec_time_window() == ANOMALY_WINDOW,
            r.spec_detector().spec_threshold() == ANOMALY_THRESHOLD,
    {
        OtpService {
            store: RequestStore::new(),
            limiter: RateLimiter::new(RATE_CAPACITY, RATE_REFILL_NUM, RATE_REFILL_DEN),
            detector: AnomalyDetector::new(ANOMALY_WINDOW, ANOMALY_THRESHOLD),
            alerts: AlertManager::new(),
        }
    }

    /// Requests a code for `user_id` with everything drawn made explicit:
    /// the plaintext code, the fresh request id, and the instant.
    pub fn request_otp_at(&mut self, user_id: &str, code: &str, request_id: &str, now: u64) -> (r:
        Result<OtpResponse, OtpError>)
        requires
            old(self).wf(),
        ensures
            final(self).wf(),
            request_otp_post(
                *old(self),
                *final(self),
                user_id@,
                user_id.spec_bytes(),
                code.spec_bytes(),
                request_id@,
                now,
                r,
            ),
    {
        let n = user_id.as_bytes().len();
        if n == 0 {
            return Err(OtpError::Validation("User ID cannot be empty"));
        }
        if n > 100 {
            return Err(OtpError::Validation("User ID too long"));
        }
        let admitted = self.limiter.allow(user_id, now);
        if !admitted {
            return Err(OtpError::RateLimited);
        }
        let otp_hash = hash_otp(code);
        let expires_at: u64 = if now <= u64::MAX - OTP_TTL_SECONDS {
            now + OTP_TTL_SECONDS
        } else {
            u64::MAX
        };
        let entry = OtpRequest {
            request_id: String::from_str(request_id),
            user_id: String::from_str(user_id),
            otp_hash,
            expires_at,
            used: false,
            counter: 0,
        };
        self.store.insert_request(entry);
        Ok(OtpResponse { request_id: String::from_str(request_id), expires_at })
    }

    /// Generate a new OTP for a user: admission check, then a TOTP code
    /// for the current instant, stored only as a hash under a fresh
    /// random request id. The clock, the code and the id are drawn
    /// outside the caller's view, so they are promised existentially.
    pub fn request_otp(&mut self, user_id: &str) -> (r: Result<OtpResponse, OtpError>)
        requires
            old(self).wf(),
        ensures
            final(self).wf(),
            exists|code_bytes: Seq<u8>, id: Seq<char>, now: u64|
                request_otp_post(
                    *old(self),
                    *final(self),
                    user_id@,
                    user_id.spec_bytes(),
                    code_bytes,
                    id,
                    now,
                    r,
                ),
    {
        let now = now_unix();
        let secret = "blockchain-otp-secret-key-for-user".as_bytes_vec();
        let code = generate_totp_at(secret.as_slice(), TOTP_STEP, OTP_DIGITS, 0, now);
        let request_id = bind_request_to_user(user_id);
        let r = self.request_otp_at(user_id, code.as_str(), request_id.as_str(), now);
        proof {
            assert(request_otp_post(
                *old(self),
                *self,
                user_id@,
                user_id.spec_bytes(),
                encode_utf8(code@),
                request_id@,
                now,
                r,
            ));
        }
        r
    }

    /// Verifies a submission with the instant made explicit: the store
    /// transition runs first, then the attempt is recorded for both
    /// detector keys, then a flagged key emits its alert.
    pub fn verify_otp_at(&mut self, request_id: &str, otp: &str, source: &str, now: u64) -> (
        verified: bool)
        requires
            old(self).wf(),
        ensures
            final(self).wf(),
            verify_otp_post(
                *old(self),
                *final(self),
                request_id@,
                otp.spec_bytes(),
                source@,
                now,
                verified,
            ),
    {
        let entry_opt = self.store.snapshot_request(request_id);
        match entry_opt {
            None => {
                let attempt = VerificationAttempt {
                    user_id: String::from_str("unknown"),
                    ip_address: String::from_str(source),
                    timestamp: now,
                    success: false,
                };
                self.detector.record_attempt(attempt);
                false
            },
            Some(entry) => {
                let verified = self.store.try_verify(request_id, otp, now);
                let attempt = VerificationAttempt {
                    user_id: entry.user_id.clone(),
                    ip_address: String::from_str(source),
                    timestamp: now,
                    success: verified,
                };
                self.detector.record_attempt(attempt);
                if self.detector.is_user_anomalous(entry.user_id.as_str()) {
                    let stats_opt = self.detector.get_user_stats(entry.user_id.as_str());
                    match stats_opt {
                        Some(stats) => {
                            self.alerts.alert_user_anomaly_at(
                                entry.user_id.as_str(),
                                stats.attempt_count,
                                now,
                            );
                        },
                        None => {},
                    }
                }
                if self.detector.is_ip_anomalous(source) {
                    let stats_opt = self.detector.get_ip_stats(source);
                    match stats_opt {
                        Some(stats) => {
                            self.alerts.alert_ip_anomaly_at(
                                source,
                                stats.attempt_count,
                                stats.failed_attempts,
                                now,
                            );
                        },
                        None => {},
                    }
                }
                verified
            },
        }
    }

    /// Verify an OTP submission and enforce expiry and single-use
    /// semantics, at the current system time.
    pub fn verify_otp(&mut self, request_id: &str, otp: &str, source: &str) -> (verified: bool)
        requires
            old(self).wf(),
        ensures
            final(self).wf(),
            exists|now: u64|
                verify_otp_post(
                    *old(self),
                    *final(self),
                    request_id@,
                    otp.spec_bytes(),
                    source@,
                    now,
                    verified,
                ),
    {
        let now = now_unix();
        let verified = self.verify_otp_at(request_id, otp, source, now);
        proof {
            assert(verify_otp_post(
                *old(self),
                *self,
                request_id@,
                otp.spec_bytes(),
                source@,
                now,
                verified,
            ));
        }
        verified
    }

    /// Returns a cloned OTP request for inspection (primarily for tests).
    pub fn snapshot_request(&self, request_id: &str) -> (r: Option<OtpRequest>)
        requires
            self.wf(),
        ensures
            match r {
                Some(e) => self.spec_store().contains_id(request_id@) && e@
                    == self.spec_store().entry_of(request_id@),
                None => !self.spec_store().contains_id(request_id@),
            },
    {
        self.store.snapshot_request(request_id)
    }

    /// Inserts or replaces an OTP request (used by tests and fixtures).
    pub fn insert_request(&mut self, request: OtpRequest)
        requires
            old(self).wf(),
        ensures
            final(self).wf(),
            final(self).spec_store().contains_id(request@.request_id),
            final(self).spec_store().entry_of(request@.request_id) == request@,
            forall|k: Seq<char>|
                k != request@.request_id ==> #[trigger] final(self).spec_store().contains_id(k)
                    == old(self).spec_store().contains_id(k),
            forall|k: Seq<char>|
                k != request@.request_id && old(self).spec_store().contains_id(k)
                    ==> #[trigger] final(self).spec_store().entry_of(k) == old(
                    self,
                ).spec_store().entry_of(k),
            final(self).spec_limiter() == old(self).spec_limiter(),
            final(self).spec_detector() == old(self).spec_detector(),
            final(self).spec_alerts() == old(self).spec_alerts(),
    {
        self.store.insert_request(request);
    }

    /// The most recent alerts, oldest first.
    pub fn get_recent_alerts(&self, count: usize) -> (r: Vec<SecurityAlert>)
        ensures
            r@.map_values(|a: SecurityAlert| a@) == self.spec_alerts()@.skip(
                if self.spec_alerts()@.len() > count {
                    self.spec_alerts()@.len() - count
                } else {
                    0
                },
            ),
    {
        self.alerts.get_recent_alerts(count)
    }

    /// Get a reference to the anomaly detector.
    pub fn anomaly_detector(&self) -> (r: &AnomalyDetector)
        ensures
            *r == self.spec_detector(),
    {
        &self.detector
    }

    /// Get a reference to the alert manager.
    pub fn alert_manager(&self) -> (r: &AlertManager)
        ensures
            *r == self.spec_alerts(),
    {
        &self.alerts
    }
}

} // verus!

