//! Sliding-window anomaly detection over verification attempts: one set
//! of counters per user, one per source address. Every write sweeps the
//! whole map, evicting keys whose window has fully elapsed.

use vstd::prelude::*;
use vstd::string::StringExecFns;
use crate::rate::elapsed_since;
use crate::text::str_eq;

verus! {

/// Represents an OTP verification attempt for anomaly detection.
pub struct VerificationAttempt {
    pub user_id: String,
    pub ip_address: String,
    pub timestamp: u64,
    pub success: bool,
}

/// Anomaly detection statistics for one key.
#[derive(Clone, Copy, PartialEq, Eq, Structural, Debug)]
pub struct AnomalyStats {
    pub attempt_count: u32,
    pub failed_attempts: u32,
    pub last_attempt_timestamp: u64,
    pub first_attempt_timestamp: u64,
}

/// The statistics a key starts with: counters at zero, both timestamps at
/// the first attempt's instant.
pub open spec fn start_stats(now: u64) -> AnomalyStats {
    AnomalyStats {
        attempt_count: 0,
        failed_attempts: 0,
        last_attempt_timestamp: now,
        first_attempt_timestamp: now,
    }
}

/// One recorded attempt: the counters rise (saturating), the last-attempt
/// instant moves to `now`, the first-attempt instant stands.
pub open spec fn recorded_stats(base: AnomalyStats, success: bool, now: u64) -> AnomalyStats {
    AnomalyStats {
        attempt_count: if base.attempt_count < u32::MAX {
            (base.attempt_count + 1) as u32
        } else {
            u32::MAX
        },
        failed_attempts: if !success && base.failed_attempts < u32::MAX {
            (base.failed_attempts + 1) as u32
        } else {
            base.failed_attempts
        },
        last_attempt_timestamp: now,
        first_attempt_timestamp: base.first_attempt_timestamp,
    }
}

/// Whether a window opened at `first` has not fully elapsed by `now`.
pub open spec fn within_window(first: u64, now: u64, window: u64) -> bool {
    elapsed_since(first, now) <= window
}

struct StatsEntry {
    key: String,
    stats: AnomalyStats,
}

/// Keys are unique.
spec fn s_unique(s: Seq<StatsEntry>) -> bool {
    forall|i: int, j: int|
        0 <= i < j < s.len() ==> (#[trigger] s[i]).key@ != (#[trigger] s[j]).key@
}

/// No entry counts more failures than attempts.
spec fn s_ok(s: Seq<StatsEntry>) -> bool {
    forall|i: int|
        0 <= i < s.len() ==> (#[trigger] s[i]).stats.failed_attempts <= s[i].stats.attempt_count
}

/// Whether an entry with this key exists.
spec fn s_has(s: Seq<StatsEntry>, k: Seq<char>) -> bool {
    exists|i: int| 0 <= i < s.len() && (#[trigger] s[i]).key@ == k
}

/// The position of the entry with this key, when one exists.
spec fn s_idx(s: Seq<StatsEntry>, k: Seq<char>) -> int {
    choose|i: int| 0 <= i < s.len() && (#[trigger] s[i]).key@ == k
}

/// The statistics of the entry with this key, when one exists.
spec fn s_stats(s: Seq<StatsEntry>, k: Seq<char>) -> AnomalyStats {
    s[s_idx(s, k)].stats
}

/// Whether the entry with key `k` survives a sweep at `now`.
spec fn s_keep(s: Seq<StatsEntry>, k: Seq<char>, now: u64, window: u64) -> bool {
    within_window(s_stats(s, k).first_attempt_timestamp, now, window)
}

/// The entry at a position is the entry of its key.
proof fn s_lemma_at(s: Seq<StatsEntry>, i: int)
    requires
        s_unique(s),
        0 <= i < s.len(),
    ensures
        s_has(s, s[i].key@),
        s_idx(s, s[i].key@) == i,
        s_stats(s, s[i].key@) == s[i].stats,
{
    let k = s[i].key@;
    assert(s_has(s, k));
    let j = s_idx(s, k);
    assert(0 <= j < s.len() && s[j].key@ == k);
    if i != j {
        assert(s[i].key@ != s[j].key@);
    }
}

/// Appending an entry with a fresh key leaves every other key's entry as
/// it was.
proof fn s_lemma_push(s: Seq<StatsEntry>, e: StatsEntry)
    requires
        s_unique(s),
        !s_has(s, e.key@),
    ensures
        s_unique(s.push(e)),
        s_has(s.push(e), e.key@),
        s_stats(s.push(e), e.key@) == e.stats,
        forall|k: Seq<char>| k != e.key@ ==> #[trigger] s_has(s.push(e), k) == s_has(s, k),
        forall|k: Seq<char>|
            k != e.key@ && s_has(s, k) ==> #[trigger] s_stats(s.push(e), k) == s_stats(s, k),
{
    let post = s.push(e);
    let n = s.len() as int;
    assert forall|i: int, j: int| 0 <= i < j < post.len() implies (#[trigger] post[i]).key@ != (
    #[trigger] post[j]).key@ by {
        if j < n {
            assert(s[i].key@ != s[j].key@);
        } else {
            assert(post[j] == e);
            assert(post[i] == s[i]);
            if s[i].key@ == e.key@ {
                assert(s_has(s, e.key@));
            }
        }
    }
    s_lemma_at(post, n);
    assert forall|k: Seq<char>| k != e.key@ implies #[trigger] s_has(post, k) == s_has(s, k) by {
        if s_has(s, k) {
            let j = s_idx(s, k);
            assert(post[j].key@ == k);
        }
        if s_has(post, k) {
            let j = s_idx(post, k);
            assert(0 <= j < post.len() && post[j].key@ == k);
            assert(j < n);
            assert(s[j].key@ == k);
        }
    }
    assert forall|k: Seq<char>| k != e.key@ && s_has(s, k) implies #[trigger] s_stats(post, k)
        == s_stats(s, k) by {
        let j = s_idx(s, k);
        assert(0 <= j < n && s[j].key@ == k);
        assert(post[j].key@ == k);
        s_lemma_at(s, j);
        s_lemma_at(post, j);
    }
}

/// Replacing the entry at `i` with one of the same key leaves every other
/// key's entry as it was.
proof fn s_lemma_update(s: Seq<StatsEntry>, i: int, e: StatsEntry)
    requires
        s_unique(s),
        0 <= i < s.len(),
        e.key@ == s[i].key@,
    ensures
        s_unique(s.update(i, e)),
        s_has(s.update(i, e), e.key@),
        s_stats(s.update(i, e), e.key@) == e.stats,
        forall|k: Seq<char>| k != e.key@ ==> #[trigger] s_has(s.update(i, e), k) == s_has(s, k),
        forall|k: Seq<char>|
            k != e.key@ && s_has(s, k) ==> #[trigger] s_stats(s.update(i, e), k) == s_stats(s, k),
{
    let post = s.update(i, e);
    assert(s_unique(post));
    s_lemma_at(post, i);
    assert forall|k: Seq<char>| k != e.key@ implies #[trigger] s_has(post, k) == s_has(s, k) by {
        if s_has(s, k) {
            let j = s_idx(s, k);
            assert(post[j].key@ == k);
        }
        if s_has(post, k) {
            let j = s_idx(post, k);
            assert(s[j].key@ == k);
        }
    }
    assert forall|k: Seq<char>| k != e.key@ && s_has(s, k) implies #[trigger] s_stats(post, k)
        == s_stats(s, k) by {
        let j = s_idx(s, k);
        assert(post[j].key@ == k);
        s_lemma_at(s, j);
        s_lemma_at(post, j);
    }
}

/// Removing the entry at `i` leaves every other key's entry as it was.
proof fn s_lemma_remove(s: Seq<StatsEntry>, i: int)
    requires
        s_unique(s),
        0 <= i < s.len(),
    ensures
        s_unique(s.remove(i)),
        !s_has(s.remove(i), s[i].key@),
        forall|k: Seq<char>| k != s[i].key@ ==> #[trigger] s_has(s.remove(i), k) == s_has(s, k),
        forall|k: Seq<char>|
            k != s[i].key@ && s_has(s, k) ==> #[trigger] s_stats(s.remove(i), k) == s_stats(s, k),
{
    let post = s.remove(i);
    assert forall|a: int, b: int| 0 <= a < b < post.len() implies (#[trigger] post[a]).key@ != (
    #[trigger] post[b]).key@ by {
        let sa: int = if a < i {
            a
        } else {
            a + 1
        };
        let sb: int = if b < i {
            b
        } else {
            b + 1
        };
        assert(post[a] == s[sa]);
        assert(post[b] == s[sb]);
    }
    if s_has(post, s[i].key@) {
        let j = s_idx(post, s[i].key@);
        let sj: int = if j < i {
            j
        } else {
            j + 1
        };
        assert(post[j] == s[sj]);
        assert(s[sj].key@ == s[i].key@ && sj != i);
    }
    assert forall|k: Seq<char>| k != s[i].key@ implies #[trigger] s_has(post, k) == s_has(
        s,
        k,
    ) by {
        if s_has(s, k) {
            let j = s_idx(s, k);
            let pj: int = if j < i {
                j
            } else {
                j - 1
            };
            assert(j != i);
            assert(post[pj] == s[j]);
        }
        if s_has(post, k) {
            let j = s_idx(post, k);
            let sj: int = if j < i {
                j
            } else {
                j + 1
            };
            assert(post[j] == s[sj]);
        }
    }
    assert forall|k: Seq<char>| k != s[i].key@ && s_has(s, k) implies #[trigger] s_stats(post, k)
        == s_stats(s, k) by {
        let j = s_idx(s, k);
        assert(j != i);
        let pj: int = if j < i {
            j
        } else {
            j - 1
        };
        assert(post[pj] == s[j]);
        s_lemma_at(s, j);
        s_lemma_at(post, pj);
    }
}

/// Finds the position of the entry with the given key.
fn s_index_of(entries: &Vec<StatsEntry>, key: &str) -> (r: Option<usize>)
    ensures
        match r {
            Some(i) => i < entries@.len() && entries@[i as int].key@ == key@,
            None => !s_has(entries@, key@),
        },
{
    let n = entries.len();
    let mut i: usize = 0;
    while i < n
        invariant
            i <= n,
            n == entries@.len(),
            forall|j: int| 0 <= j < i ==> (#[trigger] entries@[j]).key@ != key@,
        decreases n - i,
    {
        if str_eq(entries[i].key.as_str(), key) {
            return Some(i);
        }
        i = i + 1;
    }
    None
}

/// Records one attempt under `key` and then sweeps the whole map: every
/// key whose window has fully elapsed by `now` is evicted, the bumped
/// entry included.
fn s_record(entries: &mut Vec<StatsEntry>, key: &str, success: bool, now: u64, window: u64)
    requires
        s_unique(old(entries)@),
        s_ok(old(entries)@),
    ensures
        s_unique(final(entries)@),
        s_ok(final(entries)@),
        ({
            let base = if s_has(old(entries)@, key@) {
                s_stats(old(entries)@, key@)
            } else {
                start_stats(now)
            };
            let upd = recorded_stats(base, success, now);
            &&& (within_window(upd.first_attempt_timestamp, now, window) ==> s_has(
                final(entries)@,
                key@,
            ) && s_stats(final(entries)@, key@) == upd)
            &&& (!within_window(upd.first_attempt_timestamp, now, window) ==> !s_has(
                final(entries)@,
                key@,
            ))
        }),
        forall|k: Seq<char>|
            k != key@ ==> #[trigger] s_has(final(entries)@, k) == (s_has(old(entries)@, k)
                && s_keep(old(entries)@, k, now, window)),
        forall|k: Seq<char>|
            k != key@ && s_has(final(entries)@, k) ==> #[trigger] s_stats(final(entries)@, k)
                == s_stats(old(entries)@, k),
{
    let ghost pre = entries@;
    let found = s_index_of(entries, key);
    match found {
        Some(i) => {
            proof {
                s_lemma_at(pre, i as int);
            }
            let base = entries[i].stats;
            let updated = StatsEntry {
                key: entries[i].key.clone(),
                stats: bump_stats(base, success, now),
            };
            let ghost updg = updated;
            entries[i] = updated;
            proof {
                s_lemma_update(pre, i as int, updg);
            }
        },
        None => {
            let fresh = StatsEntry {
                key: String::from_str(key),
                stats: bump_stats(
                    AnomalyStats {
                        attempt_count: 0,
                        failed_attempts: 0,
                        last_attempt_timestamp: now,
                        first_attempt_timestamp: now,
                    },
                    success,
                    now,
                ),
            };
            let ghost freshg = fresh;
            entries.push(fresh);
            proof {
                s_lemma_push(pre, freshg);
            }
        },
    }
    sweep(entries, now, window);
}

/// One saturating bump of a key's counters.
fn bump_stats(base: AnomalyStats, success: bool, now: u64) -> (r: AnomalyStats)
    ensures
        r == recorded_stats(base, success, now),
{
    let attempt_count = if base.attempt_count < u32::MAX {
        base.attempt_count + 1
    } else {
        u32::MAX
    };
    let failed_attempts = if !success && base.failed_attempts < u32::MAX {
        base.failed_attempts + 1
    } else {
        base.failed_attempts
    };
    AnomalyStats {
        attempt_count,
        failed_attempts,
        last_attempt_timestamp: now,
        first_attempt_timestamp: base.first_attempt_timestamp,
    }
}

/// Evicts every entry whose window has fully elapsed by `now`; nothing
/// else changes.
fn sweep(entries: &mut Vec<StatsEntry>, now: u64, window: u64)
    requires
        s_unique(old(entries)@),
    ensures
        s_unique(final(entries)@),
        s_ok(old(entries)@) ==> s_ok(final(entries)@),
        forall|k: Seq<char>|
            #[trigger] s_has(final(entries)@, k) == (s_has(old(entries)@, k) && s_keep(
                old(entries)@,
                k,
                now,
                window,
            )),
        forall|k: Seq<char>|
            s_has(final(entries)@, k) ==> #[trigger] s_stats(final(entries)@, k) == s_stats(
                old(entries)@,
                k,
            ),
{
    let ghost pre = entries@;
    let mut kept: Vec<StatsEntry> = Vec::new();
    let ghost mut processed: Seq<StatsEntry> = Seq::empty();
    proof {
        assert(processed + entries@ =~= pre);
    }
    while entries.len() > 0
        invariant
            s_unique(pre),
            processed + entries@ == pre,
            s_unique(processed),
            s_unique(kept@),
            s_ok(pre) ==> s_ok(kept@),
            forall|k: Seq<char>|
                #![trigger s_has(kept@, k)]
                #![trigger s_has(processed, k)]
                s_has(kept@, k) == (s_has(processed, k) && s_keep(processed, k, now, window)),
            forall|k: Seq<char>|
                s_has(kept@, k) ==> #[trigger] s_stats(kept@, k) == s_stats(processed, k),
        decreases entries@.len(),
    {
        let ghost kept_pre = kept@;
        let ghost entries_pre = entries@;
        let e = entries.remove(0);
        let ghost eg = e;
        proof {
            assert(processed + entries_pre == pre);
            assert(eg == entries_pre[0]);
            // the head's key is fresh for `processed`
            assert(!s_has(processed, eg.key@)) by {
                let m = processed.len() as int;
                if s_has(processed, eg.key@) {
                    let j = s_idx(processed, eg.key@);
                    assert(pre[j] == processed[j]);
                    assert(pre[m] == entries_pre[0]);
                    assert(pre[j].key@ == pre[m].key@ && j < m);
                }
            }
        }
        let keep = now < e.stats.first_attempt_timestamp || now - e.stats.first_attempt_timestamp
            <= window;
        if keep {
            proof {
                assert(!s_has(kept_pre, eg.key@));
            }
            kept.push(e);
            proof {
                s_lemma_push(kept_pre, eg);
            }
        }
        proof {
            let m = processed.len() as int;
            assert(s_unique(pre));
            assert(pre[m] == eg);
            s_lemma_at(pre, m);
            s_lemma_push(processed, eg);
            processed = processed.push(eg);
            assert(processed + entries@ =~= pre);
            assert(s_stats(processed, eg.key@) == eg.stats);
            assert(keep == s_keep(processed, eg.key@, now, window));
            if s_ok(pre) {
                assert(eg.stats.failed_attempts <= eg.stats.attempt_count);
            }
        }
    }
    proof {
        assert(processed =~= pre);
    }
    *entries = kept;
}

/// Anomaly detection engine: per-user and per-source sliding-window
/// counters with a shared window and threshold.
pub struct AnomalyDetector {
    user_stats: Vec<StatsEntry>,
    ip_stats: Vec<StatsEntry>,
    time_window: u64,
    threshold: u32,
}

/// What recording one attempt under `key` does to one of the detector's
/// maps, described map-agnostically: `contains` and `stats_of` stand for
/// that map's two accessors on the pre and post states.
pub open spec fn after_record_key(
    pre_contains: bool,
    pre_stats: AnomalyStats,
    post_contains: bool,
    post_stats: AnomalyStats,
    success: bool,
    now: u64,
    window: u64,
) -> bool {
    let base = if pre_contains {
        pre_stats
    } else {
        start_stats(now)
    };
    let upd = recorded_stats(base, success, now);
    &&& (within_window(upd.first_attempt_timestamp, now, window) ==> post_contains && post_stats
        == upd)
    &&& (!within_window(upd.first_attempt_timestamp, now, window) ==> !post_contains)
}

/// What one recorded attempt does to the whole detector: both maps are
/// bumped under their keys and swept at `now`; the window and threshold
/// stand.
pub open spec fn after_record(
    pre: AnomalyDetector,
    post: AnomalyDetector,
    user: Seq<char>,
    ip: Seq<char>,
    success: bool,
    now: u64,
) -> bool {
    let w = pre.spec_time_window();
    &&& post.wf()
    &&& post.spec_time_window() == w
    &&& post.spec_threshold() == pre.spec_threshold()
    &&& after_record_key(
        pre.user_contains(user),
        pre.user_stats_of(user),
        post.user_contains(user),
        post.user_stats_of(user),
        success,
        now,
        w,
    )
    &&& forall|k: Seq<char>|
        k != user ==> #[trigger] post.user_contains(k) == (pre.user_contains(k) && within_window(
            pre.user_stats_of(k).first_attempt_timestamp,
            now,
            w,
        ))
    &&& forall|k: Seq<char>|
        k != user && post.user_contains(k) ==> #[trigger] post.user_stats_of(k)
            == pre.user_stats_of(k)
    &&& after_record_key(
        pre.ip_contains(ip),
        pre.ip_stats_of(ip),
        post.ip_contains(ip),
        post.ip_stats_of(ip),
        success,
        now,
        w,
    )
    &&& forall|k: Seq<char>|
        k != ip ==> #[trigger] post.ip_contains(k) == (pre.ip_contains(k) && within_window(
            pre.ip_stats_of(k).first_attempt_timestamp,
            now,
            w,
        ))
    &&& forall|k: Seq<char>|
        k != ip && post.ip_contains(k) ==> #[trigger] post.ip_stats_of(k) == pre.ip_stats_of(k)
}

/// One recorded attempt within the window raises the user key's attempt
/// count by exactly one, starting from one for a key not yet tracked; so
/// a count first exceeds a threshold on the attempt after the threshold's
/// own, and not before.
pub proof fn lemma_attempt_count_rises(
    pre: AnomalyDetector,
    post: AnomalyDetector,
    user: Seq<char>,
    ip: Seq<char>,
    success: bool,
    now: u64,
)
    requires
        after_record(pre, post, user, ip, success, now),
        pre.user_contains(user) ==> within_window(
            pre.user_stats_of(user).first_attempt_timestamp,
            now,
            pre.spec_time_window(),
        ),
        pre.user_contains(user) ==> pre.user_stats_of(user).attempt_count < u32::MAX,
    ensures
        post.user_contains(user),
        post.user_stats_of(user).attempt_count == (if pre.user_contains(user) {
            pre.user_stats_of(user).attempt_count + 1
        } else {
            1
        }),
{
}

impl AnomalyDetector {
    /// The detection window, in seconds.
    pub closed spec fn spec_time_window(self) -> u64 {
        self.time_window
    }

    /// The attempt-count threshold.
    pub closed spec fn spec_threshold(self) -> u32 {
        self.threshold
    }

    /// Keys are unique and no key counts more failures than attempts.
    pub closed spec fn wf(self) -> bool {
        s_unique(self.user_stats@) && s_ok(self.user_stats@) && s_unique(self.ip_stats@) && s_ok(
            self.ip_stats@,
        )
    }

    /// Whether user statistics for this key exist.
    pub closed spec fn user_contains(self, k: Seq<char>) -> bool {
        s_has(self.user_stats@, k)
    }

    /// The user statistics for this key, when they exist.
    pub closed spec fn user_stats_of(self, k: Seq<char>) -> AnomalyStats {
        s_stats(self.user_stats@, k)
    }

    /// Whether source statistics for this key exist.
    pub closed spec fn ip_contains(self, k: Seq<char>) -> bool {
        s_has(self.ip_stats@, k)
    }

    /// The source statistics for this key, when they exist.
    pub closed spec fn ip_stats_of(self, k: Seq<char>) -> AnomalyStats {
        s_stats(self.ip_stats@, k)
    }

    /// Whatever the key, failures never outnumber attempts.
    pub proof fn lemma_failed_le_attempts(self, k: Seq<char>)
        requires
            self.wf(),
        ensures
            self.user_contains(k) ==> self.user_stats_of(k).failed_attempts <= self.user_stats_of(
                k,
            ).attempt_count,
            self.ip_contains(k) ==> self.ip_stats_of(k).failed_attempts <= self.ip_stats_of(
                k,
            ).attempt_count,
    {
        if self.user_contains(k) {
            let i = s_idx(self.user_stats@, k);
            assert(0 <= i < self.user_stats@.len());
        }
        if self.ip_contains(k) {
            let i = s_idx(self.ip_stats@, k);
            assert(0 <= i < self.ip_stats@.len());
        }
    }

    /// Create a new anomaly detector.
    pub fn new(time_window: u64, threshold: u32) -> (r: Self)
        ensures
            r.wf(),
            r.spec_time_window() == time_window,
            r.spec_threshold() == threshold,
            forall|k: Seq<char>| !r.user_contains(k),
            forall|k: Seq<char>| !r.ip_contains(k),
    {
        AnomalyDetector { user_stats: Vec::new(), ip_stats: Vec::new(), time_window, threshold }
    }

    /// Record a verification attempt under its user and source keys, at
    /// the attempt's own instant. Each map is bumped, then swept: any
    /// key whose window has fully elapsed is evicted.
    pub fn record_attempt(&mut self, attempt: VerificationAttempt)
        requires
            old(self).wf(),
        ensures
            final(self).wf(),
            after_record(
                *old(self),
                *final(self),
                attempt.user_id@,
                attempt.ip_address@,
                attempt.success,
                attempt.timestamp,
            ),
    {
        let now = attempt.timestamp;
        s_record(
            &mut self.user_stats,
            attempt.user_id.as_str(),
            attempt.success,
            now,
            self.time_window,
        );
        s_record(
            &mut self.ip_stats,
            attempt.ip_address.as_str(),
            attempt.success,
            now,
            self.time_window,
        );
    }

    /// Check if a user shows anomalous behavior: strictly more attempts
    /// in the window than the threshold.
    pub fn is_user_anomalous(&self, user_id: &str) -> (r: bool)
        requires
            self.wf(),
        ensures
            r == (self.user_contains(user_id@) && self.user_stats_of(user_id@).attempt_count
                > self.spec_threshold()),
    {
        let found = s_index_of(&self.user_stats, user_id);
        match found {
            Some(i) => {
                proof {
                    s_lemma_at(self.user_stats@, i as int);
                }
                self.user_stats[i].stats.attempt_count > self.threshold
            },
            None => false,
        }
    }

    /// Check if a source shows anomalous behavior: strictly more attempts
    /// than the threshold, or strictly more failures than half of it.
    pub fn is_ip_anomalous(&self, ip_address: &str) -> (r: bool)
        requires
            self.wf(),
        ensures
            r == (self.ip_contains(ip_address@) && (self.ip_stats_of(ip_address@).attempt_count
                > self.spec_threshold() || self.ip_stats_of(ip_address@).failed_attempts
                > self.spec_threshold() / 2)),
    {
        let found = s_index_of(&self.ip_stats, ip_address);
        match found {
            Some(i) => {
                proof {
                    s_lemma_at(self.ip_stats@, i as int);
                }
                self.ip_stats[i].stats.attempt_count > self.threshold || self.ip_stats[
                    i
                ].stats.failed_attempts > self.threshold / 2
            },
            None => false,
        }
    }

    /// Get statistics for a user.
    pub fn get_user_stats(&self, user_id: &str) -> (r: Option<AnomalyStats>)
        requires
            self.wf(),
        ensures
            match r {
                Some(st) => self.user_contains(user_id@) && st == self.user_stats_of(user_id@),
                None => !self.user_contains(user_id@),
            },
    {
        let found = s_index_of(&self.user_stats, user_id);
        match found {
            Some(i) => {
                proof {
                    s_lemma_at(self.user_stats@, i as int);
                }
                Some(self.user_stats[i].stats)
            },
            None => None,
        }
    }

    /// Get statistics for a source.
    pub fn get_ip_stats(&self, ip_address: &str) -> (r: Option<AnomalyStats>)
        requires
            self.wf(),
        ensures
            match r {
                Some(st) => self.ip_contains(ip_address@) && st == self.ip_stats_of(ip_address@),
                None => !self.ip_contains(ip_address@),
            },
    {
        let found = s_index_of(&self.ip_stats, ip_address);
        match found {
            Some(i) => {
                proof {
                    s_lemma_at(self.ip_stats@, i as int);
                }
                Some(self.ip_stats[i].stats)
            },
            None => None,
        }
    }

    /// Reset statistics for a user.
    pub fn reset_user_stats(&mut self, user_id: &str)
        requires
            old(self).wf(),
        ensures
            final(self).wf(),
            final(self).spec_time_window() == old(self).spec_time_window(),
            final(self).spec_threshold() == old(self).spec_threshold(),
            !final(self).user_contains(user_id@),
            forall|k: Seq<char>|
                k != user_id@ ==> #[trigger] final(self).user_contains(k) == old(self).user_contains(k),
            forall|k: Seq<char>|
                k != user_id@ && old(self).user_contains(k) ==> #[trigger] final(self).user_stats_of(k) == old(self).user_stats_of(k),
            forall|k: Seq<char>| #[trigger] final(self).ip_contains(k) == old(self).ip_contains(k),
            forall|k: Seq<char>|
                old(self).ip_contains(k) ==> #[trigger] final(self).ip_stats_of(k) == old(self).ip_stats_of(k),
    {
        let ghost pre = self.user_stats@;
        let found = s_index_of(&self.user_stats, user_id);
        match found {
            Some(i) => {
                self.user_stats.remove(i);
                proof {
                    s_lemma_remove(pre, i as int);
                }
            },
            None => {},
        }
    }

    /// Reset statistics for a source.
    pub fn reset_ip_stats(&mut self, ip_address: &str)
        requires
            old(self).wf(),
        ensures
            final(self).wf(),
            final(self).spec_time_window() == old(self).spec_time_window(),
            final(self).spec_threshold() == old(self).spec_threshold(),
            !final(self).ip_contains(ip_address@),
            forall|k: Seq<char>|
                k != ip_address@ ==> #[trigger] final(self).ip_contains(k) == old(self).ip_contains(k),
            forall|k: Seq<char>|
                k != ip_address@ && old(self).ip_contains(k) ==> #[trigger] final(self).ip_stats_of(k) == old(self).ip_stats_of(k),
            forall|k: Seq<char>|
                #[trigger] final(self).user_contains(k) == old(self).user_contains(k),
            forall|k: Seq<char>|
                old(self).user_contains(k) ==> #[trigger] final(self).user_stats_of(k) == old(self).user_stats_of(k),
    {
        let ghost pre = self.ip_stats@;
        let found = s_index_of(&self.ip_stats, ip_address);
        match found {
            Some(i) => {
                self.ip_stats.remove(i);
                proof {
                    s_lemma_remove(pre, i as int);
                }
            },
            None => {},
        }
    }
}

} // verus!
