//! Security alerts: construction rules for each alert kind, and an
//! append-only log bounded to the most recent hundred entries, evicting
//! oldest-first.

use vstd::prelude::*;
use vstd::string::StringExecFns;
use crate::text::{append_dec_plain, dec_plain, str_eq};

verus! {

/// The log keeps at most this many alerts.
pub const MAX_ALERTS: usize = 100;

/// Alert severity levels, ordered Low < Medium < High < Critical.
#[derive(Clone, Copy, PartialEq, Eq, Structural, Debug)]
pub enum AlertSeverity {
    Low,
    Medium,
    High,
    Critical,
}

/// Represents a security alert. Immutable once recorded.
pub struct SecurityAlert {
    pub alert_type: String,
    pub message: String,
    pub severity: AlertSeverity,
    pub timestamp: u64,
    pub user_id: Option<String>,
    pub ip_address: Option<String>,
}

/// The mathematical form of an alert.
pub struct AlertModel {
    pub alert_type: Seq<char>,
    pub message: Seq<char>,
    pub severity: AlertSeverity,
    pub timestamp: u64,
    pub user_id: Option<Seq<char>>,
    pub ip_address: Option<Seq<char>>,
}

impl View for SecurityAlert {
    type V = AlertModel;

    open spec fn view(&self) -> AlertModel {
        AlertModel {
            alert_type: self.alert_type@,
            message: self.message@,
            severity: self.severity,
            timestamp: self.timestamp,
            user_id: match self.user_id {
                Some(u) => Some(u@),
                None => None,
            },
            ip_address: match self.ip_address {
                Some(a) => Some(a@),
                None => None,
            },
        }
    }
}

impl Clone for SecurityAlert {
    fn clone(&self) -> (res: Self)
        ensures
            res@ == self@,
    {
        SecurityAlert {
            alert_type: self.alert_type.clone(),
            message: self.message.clone(),
            severity: self.severity,
            timestamp: self.timestamp,
            user_id: match &self.user_id {
                Some(u) => Some(u.clone()),
                None => None,
            },
            ip_address: match &self.ip_address {
                Some(a) => Some(a.clone()),
                None => None,
            },
        }
    }
}

/// The message of a user-anomaly alert.
pub open spec fn user_anomaly_message(user: Seq<char>, count: u32) -> Seq<char> {
    "User "@ + user + " shows anomalous behavior with "@ + dec_plain(count as nat)
        + " attempts in the time window"@
}

/// A user-anomaly alert: High above twenty attempts, else Medium.
pub open spec fn user_anomaly_alert(user: Seq<char>, count: u32, ts: u64) -> AlertModel {
    AlertModel {
        alert_type: "USER_ANOMALY"@,
        message: user_anomaly_message(user, count),
        severity: if count > 20 {
            AlertSeverity::High
        } else {
            AlertSeverity::Medium
        },
        timestamp: ts,
        user_id: Some(user),
        ip_address: None,
    }
}

/// The message of a source-anomaly alert.
pub open spec fn ip_anomaly_message(ip: Seq<char>, count: u32, failed: u32) -> Seq<char> {
    "IP "@ + ip + " shows anomalous behavior with "@ + dec_plain(count as nat)
        + " total attempts and "@ + dec_plain(failed as nat) + " failed attempts"@
}

/// A source-anomaly alert: High above ten failures, else Medium.
pub open spec fn ip_anomaly_alert(ip: Seq<char>, count: u32, failed: u32, ts: u64) -> AlertModel {
    AlertModel {
        alert_type: "IP_ANOMALY"@,
        message: ip_anomaly_message(ip, count, failed),
        severity: if failed > 10 {
            AlertSeverity::High
        } else {
            AlertSeverity::Medium
        },
        timestamp: ts,
        user_id: None,
        ip_address: Some(ip),
    }
}

/// The message of a brute-force alert.
pub open spec fn brute_force_message(user: Seq<char>, ip: Seq<char>, failed: u32) -> Seq<char> {
    "Potential brute force attack detected from IP "@ + ip + " on user "@ + user + " with "@
        + dec_plain(failed as nat) + " failed attempts"@
}

/// A brute-force alert: always Critical.
pub open spec fn brute_force_alert(user: Seq<char>, ip: Seq<char>, failed: u32, ts: u64) -> AlertModel {
    AlertModel {
        alert_type: "BRUTE_FORCE"@,
        message: brute_force_message(user, ip, failed),
        severity: AlertSeverity::Critical,
        timestamp: ts,
        user_id: Some(user),
        ip_address: Some(ip),
    }
}

/// A log after appending one alert: the new alert comes last, and the
/// oldest entries are dropped until at most `MAX_ALERTS` remain.
pub open spec fn appended_log(log: Seq<AlertModel>, a: AlertModel) -> Seq<AlertModel> {
    let s = log.push(a);
    if s.len() > MAX_ALERTS {
        s.skip(s.len() - MAX_ALERTS)
    } else {
        s
    }
}

/// Alert manager for handling security alerts.
pub struct AlertManager {
    alerts: Vec<SecurityAlert>,
}

impl View for AlertManager {
    type V = Seq<AlertModel>;

    closed spec fn view(&self) -> Seq<AlertModel> {
        self.alerts@.map_values(|a: SecurityAlert| a@)
    }
}

impl AlertManager {
    /// The log never holds more than `MAX_ALERTS` alerts.
    pub open spec fn wf(self) -> bool {
        self@.len() <= MAX_ALERTS
    }

    /// Create a new alert manager.
    pub fn new() -> (r: Self)
        ensures
            r.wf(),
            r@ == Seq::<AlertModel>::empty(),
    {
        let r = AlertManager { alerts: Vec::new() };
        proof {
            assert(r@ =~= Seq::<AlertModel>::empty());
        }
        r
    }

    /// Record an alert: append it, then drop the oldest entries until at
    /// most `MAX_ALERTS` remain.
    fn record_alert(&mut self, alert: SecurityAlert)
        requires
            old(self).wf(),
        ensures
            final(self).wf(),
            final(self)@ == appended_log(old(self)@, alert@),
    {
        let ghost pre = self.alerts@;
        let ghost alertg = alert;
        self.alerts.push(alert);
        proof {
            assert(self.alerts@.map_values(|a: SecurityAlert| a@) =~= pre.map_values(
                |a: SecurityAlert| a@,
            ).push(alertg@));
        }
        if self.alerts.len() > MAX_ALERTS {
            let ghost mid = self.alerts@;
            self.alerts.remove(0);
            proof {
                assert(self.alerts@ =~= mid.skip(1));
                assert(self.alerts@.map_values(|a: SecurityAlert| a@) =~= mid.map_values(
                    |a: SecurityAlert| a@,
                ).skip(1));
            }
        }
        proof {
            assert(self@ =~= appended_log(old(self)@, alertg@));
        }
    }

    /// Generate an alert for anomalous user behavior at the given
    /// instant.
    pub fn alert_user_anomaly_at(&mut self, user_id: &str, attempt_count: u32, now: u64)
        requires
            old(self).wf(),
        ensures
            final(self).wf(),
            final(self)@ == appended_log(
                old(self)@,
                user_anomaly_alert(user_id@, attempt_count, now),
            ),
    {
        let mut message = String::new();
        message.append("User ");
        message.append(user_id);
        message.append(" shows anomalous behavior with ");
        append_dec_plain(&mut message, attempt_count as u64);
        message.append(" attempts in the time window");
        let severity = if attempt_count > 20 {
            AlertSeverity::High
        } else {
            AlertSeverity::Medium
        };
        let alert = SecurityAlert {
            alert_type: String::from_str("USER_ANOMALY"),
            message,
            severity,
            timestamp: now,
            user_id: Some(String::from_str(user_id)),
            ip_address: None,
        };
        let ghost alertg = alert;
        proof {
            assert(alertg@ == user_anomaly_alert(user_id@, attempt_count, now));
        }
        self.record_alert(alert);
    }

    /// Generate an alert for anomalous user behavior, stamped with the
    /// system clock: the log grows by that alert at some instant.
    pub fn alert_user_anomaly(&mut self, user_id: &str, attempt_count: u32)
        requires
            old(self).wf(),
        ensures
            final(self).wf(),
            exists|ts: u64|
                final(self)@ == appended_log(
                    old(self)@,
                    user_anomaly_alert(user_id@, attempt_count, ts),
                ),
    {
        let now = crate::crypto::now_unix();
        self.alert_user_anomaly_at(user_id, attempt_count, now);
    }

    /// Generate an alert for anomalous source behavior at the given
    /// instant.
    pub fn alert_ip_anomaly_at(&mut self, ip_address: &str, attempt_count: u32, failed_attempts: u32, now: u64)
        requires
            old(self).wf(),
        ensures
            final(self).wf(),
            final(self)@ == appended_log(
                old(self)@,
                ip_anomaly_alert(ip_address@, attempt_count, failed_attempts, now),
            ),
    {
        let mut message = String::new();
        message.append("IP ");
        message.append(ip_address);
        message.append(" shows anomalous behavior with ");
        append_dec_plain(&mut message, attempt_count as u64);
        message.append(" total attempts and ");
        append_dec_plain(&mut message, failed_attempts as u64);
        message.append(" failed attempts");
        let severity = if failed_attempts > 10 {
            AlertSeverity::High
        } else {
            AlertSeverity::Medium
        };
        let alert = SecurityAlert {
            alert_type: String::from_str("IP_ANOMALY"),
            message,
            severity,
            timestamp: now,
            user_id: None,
            ip_address: Some(String::from_str(ip_address)),
        };
        let ghost alertg = alert;
        proof {
            assert(alertg@ == ip_anomaly_alert(ip_address@, attempt_count, failed_attempts, now));
        }
        self.record_alert(alert);
    }

    /// Generate an alert for anomalous source behavior, stamped with the
    /// system clock.
    pub fn alert_ip_anomaly(&mut self, ip_address: &str, attempt_count: u32, failed_attempts: u32)
        requires
            old(self).wf(),
        ensures
            final(self).wf(),
            exists|ts: u64|
                final(self)@ == appended_log(
                    old(self)@,
                    ip_anomaly_alert(ip_address@, attempt_count, failed_attempts, ts),
                ),
    {
        let now = crate::crypto::now_unix();
        self.alert_ip_anomaly_at(ip_address, attempt_count, failed_attempts, now);
    }

    /// Generate an alert for a detected brute-force attack at the given
    /// instant.
    pub fn alert_brute_force_at(&mut self, user_id: &str, ip_address: &str, failed_attempts: u32, now: u64)
        requires
            old(self).wf(),
        ensures
            final(self).wf(),
            final(self)@ == appended_log(
                old(self)@,
                brute_force_alert(user_id@, ip_address@, failed_attempts, now),
            ),
    {
        let mut message = String::new();
        message.append("Potential brute force attack detected from IP ");
        message.append(ip_address);
        message.append(" on user ");
        message.append(user_id);
        message.append(" with ");
        append_dec_plain(&mut message, failed_attempts as u64);
        message.append(" failed attempts");
        let alert = SecurityAlert {
            alert_type: String::from_str("BRUTE_FORCE"),
            message,
            severity: AlertSeverity::Critical,
            timestamp: now,
            user_id: Some(String::from_str(user_id)),
            ip_address: Some(String::from_str(ip_address)),
        };
        let ghost alertg = alert;
        proof {
            assert(alertg@ == brute_force_alert(user_id@, ip_address@, failed_attempts, now));
        }
        self.record_alert(alert);
    }

    /// Generate an alert for a detected brute-force attack, stamped with
    /// the system clock.
    pub fn alert_brute_force(&mut self, user_id: &str, ip_address: &str, failed_attempts: u32)
        requires
            old(self).wf(),
        ensures
            final(self).wf(),
            exists|ts: u64|
                final(self)@ == appended_log(
                    old(self)@,
                    brute_force_alert(user_id@, ip_address@, failed_attempts, ts),
                ),
    {
        let now = crate::crypto::now_unix();
        self.alert_brute_force_at(user_id, ip_address, failed_attempts, now);
    }

    /// Get the most recent alerts, oldest first: the last `count`, or all
    /// of them if fewer are held.
    pub fn get_recent_alerts(&self, count: usize) -> (r: Vec<SecurityAlert>)
        ensures
            r@.map_values(|a: SecurityAlert| a@) == self@.skip(
                if self@.len() > count {
                    self@.len() - count
                } else {
                    0
                },
            ),
    {
        let n = self.alerts.len();
        let start = if n > count {
            n - count
        } else {
            0
        };
        let mut out: Vec<SecurityAlert> = Vec::new();
        let mut i: usize = start;
        while i < n
            invariant
                start <= i <= n,
                n == self.alerts@.len(),
                out@.len() == i - start,
                forall|j: int|
                    0 <= j < out@.len() ==> (#[trigger] out@[j])@ == self.alerts@[start + j]@,
            decreases n - i,
        {
            out.push(self.alerts[i].clone());
            i = i + 1;
        }
        proof {
            assert(out@.map_values(|a: SecurityAlert| a@) =~= self@.skip(
                if self@.len() > count {
                    (self@.len() - count) as int
                } else {
                    0
                },
            ));
        }
        out
    }

    /// Get alerts by type, oldest first.
    pub fn get_alerts_by_type(&self, alert_type: &str) -> (r: Vec<SecurityAlert>)
        ensures
            r@.map_values(|a: SecurityAlert| a@) == self@.filter(
                |a: AlertModel| a.alert_type == alert_type@,
            ),
    {
        let ghost pred = |a: AlertModel| a.alert_type == alert_type@;
        let n = self.alerts.len();
        let mut out: Vec<SecurityAlert> = Vec::new();
        let mut i: usize = 0;
        while i < n
            invariant
                i <= n,
                n == self.alerts@.len(),
                out@.map_values(|a: SecurityAlert| a@) == self@.take(i as int).filter(pred),
                pred == (|a: AlertModel| a.alert_type == alert_type@),
            decreases n - i,
        {
            let keep = str_eq(self.alerts[i].alert_type.as_str(), alert_type);
            let ghost out_pre = out@;
            if keep {
                out.push(self.alerts[i].clone());
            }
            proof {
                lemma_filter_step(self@, pred, i as int);
                assert(self@.take(i as int + 1).filter(pred) == if pred(self@[i as int]) {
                    self@.take(i as int).filter(pred).push(self@[i as int])
                } else {
                    self@.take(i as int).filter(pred)
                });
                if keep {
                    assert(out@.map_values(|a: SecurityAlert| a@) =~= out_pre.map_values(
                        |a: SecurityAlert| a@,
                    ).push(self.alerts@[i as int]@));
                }
            }
            i = i + 1;
        }
        proof {
            assert(self@.take(n as int) =~= self@);
        }
        out
    }

    /// Get alerts by severity, oldest first.
    pub fn get_alerts_by_severity(&self, severity: AlertSeverity) -> (r: Vec<SecurityAlert>)
        ensures
            r@.map_values(|a: SecurityAlert| a@) == self@.filter(
                |a: AlertModel| a.severity == severity,
            ),
    {
        let ghost pred = |a: AlertModel| a.severity == severity;
        let n = self.alerts.len();
        let mut out: Vec<SecurityAlert> = Vec::new();
        let mut i: usize = 0;
        while i < n
            invariant
                i <= n,
                n == self.alerts@.len(),
                out@.map_values(|a: SecurityAlert| a@) == self@.take(i as int).filter(pred),
                pred == (|a: AlertModel| a.severity == severity),
            decreases n - i,
        {
            let keep = self.alerts[i].severity == severity;
            let ghost out_pre = out@;
            if keep {
                out.push(self.alerts[i].clone());
            }
            proof {
                lemma_filter_step(self@, pred, i as int);
                assert(self@.take(i as int + 1).filter(pred) == if pred(self@[i as int]) {
                    self@.take(i as int).filter(pred).push(self@[i as int])
                } else {
                    self@.take(i as int).filter(pred)
                });
                if keep {
                    assert(out@.map_values(|a: SecurityAlert| a@) =~= out_pre.map_values(
                        |a: SecurityAlert| a@,
                    ).push(self.alerts@[i as int]@));
                }
            }
            i = i + 1;
        }
        proof {
            assert(self@.take(n as int) =~= self@);
        }
        out
    }

    /// Clear all alerts.
    pub fn clear_alerts(&mut self)
        ensures
            final(self).wf(),
            final(self)@ == Seq::<AlertModel>::empty(),
    {
        self.alerts.clear();
        proof {
            assert(self@ =~= Seq::<AlertModel>::empty());
        }
    }
}

/// Extending a prefix by one element extends its filtering by that
/// element exactly when the element passes.
proof fn lemma_filter_step(s: Seq<AlertModel>, pred: spec_fn(AlertModel) -> bool, i: int)
    requires
        0 <= i < s.len(),
    ensures
        s.take(i + 1).filter(pred) == (if pred(s[i]) {
            s.take(i).filter(pred).push(s[i])
        } else {
            s.take(i).filter(pred)
        }),
{
    reveal(Seq::filter);
    let s1 = s.take(i + 1);
    assert(s1.len() == i + 1);
    assert(s1.drop_last() =~= s.take(i));
    assert(s1.last() == s[i]);
}

} // verus!
