//! Token-bucket admission control, one bucket per key. Tokens are kept as
//! integers scaled by the refill denominator, so the arithmetic of the
//! bucket is exact: a rate of `refill_num / refill_den` tokens per second
//! adds `elapsed * refill_num` units, a whole token is `refill_den` units.

use vstd::prelude::*;
use vstd::string::StringExecFns;
use crate::text::str_eq;

verus! {

/// One bucket: its key, its fill in scaled units, and the instant of the
/// last refill.
struct Bucket {
    key: String,
    tokens: u64,
    last_refill: u64,
}

/// The mathematical form of a bucket.
pub struct BucketModel {
    pub key: Seq<char>,
    pub tokens: u64,
    pub last_refill: u64,
}

impl View for Bucket {
    type V = BucketModel;

    closed spec fn view(&self) -> BucketModel {
        BucketModel { key: self.key@, tokens: self.tokens, last_refill: self.last_refill }
    }
}

/// Whole seconds from `last` to `now`, or zero if the clock went back.
pub open spec fn elapsed_since(last: u64, now: u64) -> nat {
    if now >= last {
        (now - last) as nat
    } else {
        0
    }
}

/// The fill after refilling `tokens` for the time from `last` to `now` at
/// `refill_num` units per second, capped at `cap_units`.
pub open spec fn refilled(tokens: u64, last: u64, now: u64, refill_num: u64, cap_units: u64) -> nat {
    let total = tokens + elapsed_since(last, now) * refill_num;
    if total > cap_units {
        cap_units as nat
    } else {
        total as nat
    }
}

/// Token-bucket rate limiter: per-key admission control at a fixed
/// capacity and refill rate.
pub struct RateLimiter {
    capacity: u64,
    refill_num: u64,
    refill_den: u64,
    buckets: Vec<Bucket>,
}

impl RateLimiter {
    /// The capacity, in whole tokens.
    pub closed spec fn spec_capacity(self) -> u64 {
        self.capacity
    }

    /// The refill rate's numerator: tokens per `spec_refill_den()` seconds.
    pub closed spec fn spec_refill_num(self) -> u64 {
        self.refill_num
    }

    /// The refill rate's denominator, in seconds.
    pub closed spec fn spec_refill_den(self) -> u64 {
        self.refill_den
    }

    /// The capacity in scaled units.
    pub open spec fn cap_units(self) -> int {
        self.spec_capacity() * self.spec_refill_den()
    }

    /// Keys are unique, parameters are sane, and no bucket is ever filled
    /// above capacity.
    pub closed spec fn wf(self) -> bool {
        &&& self.refill_den >= 1
        &&& self.capacity * self.refill_den <= u64::MAX
        &&& forall|i: int, j: int|
            0 <= i < j < self.buckets@.len() ==> (#[trigger] self.buckets@[i]).key@ != (
            #[trigger] self.buckets@[j]).key@
        &&& forall|i: int|
            0 <= i < self.buckets@.len() ==> (#[trigger] self.buckets@[i]).tokens
                <= self.capacity * self.refill_den
    }

    /// Whether a bucket for this key exists.
    pub closed spec fn contains_key(self, key: Seq<char>) -> bool {
        exists|i: int| 0 <= i < self.buckets@.len() && (#[trigger] self.buckets@[i]).key@ == key
    }

    /// The bucket for this key, when one exists.
    pub closed spec fn bucket_of(self, key: Seq<char>) -> BucketModel {
        self.buckets@[self.spec_index_of(key)]@
    }

    /// The position of the bucket with this key, when one exists.
    closed spec fn spec_index_of(self, key: Seq<char>) -> int {
        choose|i: int| 0 <= i < self.buckets@.len() && (#[trigger] self.buckets@[i]).key@ == key
    }

    /// The bucket at a position is the bucket of its key.
    proof fn lemma_bucket_at(self, i: int)
        requires
            self.wf(),
            0 <= i < self.buckets@.len(),
        ensures
            self.contains_key(self.buckets@[i].key@),
            self.bucket_of(self.buckets@[i].key@) == self.buckets@[i]@,
    {
        let key = self.buckets@[i].key@;
        assert(self.contains_key(key));
        let j = self.spec_index_of(key);
        assert(0 <= j < self.buckets@.len() && self.buckets@[j].key@ == key);
        if i != j {
            assert(self.buckets@[i].key@ != self.buckets@[j].key@);
        }
    }

    /// Creates a limiter with the given capacity (whole tokens) and
    /// refill rate of `refill_num / refill_den` tokens per second.
    pub fn new(capacity: u64, refill_num: u64, refill_den: u64) -> (r: Self)
        requires
            refill_den >= 1,
            capacity * refill_den <= u64::MAX,
        ensures
            r.wf(),
            r.spec_capacity() == capacity,
            r.spec_refill_num() == refill_num,
            r.spec_refill_den() == refill_den,
            forall|key: Seq<char>| !r.contains_key(key),
    {
        RateLimiter { capacity, refill_num, refill_den, buckets: Vec::new() }
    }

    /// Finds the position of the bucket with the given key.
    fn index_of(&self, key: &str) -> (r: Option<usize>)
        ensures
            match r {
                Some(i) => i < self.buckets@.len() && self.buckets@[i as int].key@ == key@,
                None => !self.contains_key(key@),
            },
    {
        let n = self.buckets.len();
        let mut i: usize = 0;
        while i < n
            invariant
                i <= n,
                n == self.buckets@.len(),
                forall|j: int| 0 <= j < i ==> (#[trigger] self.buckets@[j]).key@ != key@,
            decreases n - i,
        {
            if str_eq(self.buckets[i].key.as_str(), key) {
                return Some(i);
            }
            i = i + 1;
        }
        None
    }

    /// The bucket the key refills from: its stored bucket, or a full
    /// fresh one for a key never seen before.
    pub open spec fn prior_bucket(self, key: Seq<char>, now: u64) -> BucketModel {
        if self.contains_key(key) {
            self.bucket_of(key)
        } else {
            BucketModel { key, tokens: self.cap_units() as u64, last_refill: now }
        }
    }

    /// The fill available to a call for `key` at `now`, after the refill.
    pub open spec fn avail_units(self, key: Seq<char>, now: u64) -> nat {
        let prev = self.prior_bucket(key, now);
        refilled(prev.tokens, prev.last_refill, now, self.spec_refill_num(), self.cap_units() as u64)
    }

    /// Whether a call for `key` at `now` is admitted: a whole token is
    /// available after the refill.
    pub open spec fn would_admit(self, key: Seq<char>, now: u64) -> bool {
        self.avail_units(key, now) >= self.spec_refill_den()
    }
}

/// What one `allow` call for `key` at `now` does to the limiter: the
/// key's bucket is refilled and, if the call is admitted, one token is
/// consumed; its refill instant moves to `now`; no other key's bucket and
/// none of the parameters change.
pub open spec fn after_allow(pre: RateLimiter, post: RateLimiter, key: Seq<char>, now: u64) -> bool {
    &&& post.wf()
    &&& post.spec_capacity() == pre.spec_capacity()
    &&& post.spec_refill_num() == pre.spec_refill_num()
    &&& post.spec_refill_den() == pre.spec_refill_den()
    &&& post.contains_key(key)
    &&& forall|k: Seq<char>| k != key ==> #[trigger] post.contains_key(k) == pre.contains_key(k)
    &&& forall|k: Seq<char>|
        k != key && pre.contains_key(k) ==> #[trigger] post.bucket_of(k) == pre.bucket_of(k)
    &&& post.bucket_of(key).tokens == (if pre.would_admit(key, now) {
        pre.avail_units(key, now) - pre.spec_refill_den()
    } else {
        pre.avail_units(key, now) as int
    })
    &&& post.bucket_of(key).last_refill == now
    &&& post.bucket_of(key).key == key
}

impl RateLimiter {
    /// Refills the key's bucket for the time elapsed since its last
    /// refill, then admits the call exactly when a whole token is
    /// available, consuming it. A key never seen before starts with a
    /// full bucket. No other key's bucket changes.
    pub fn allow(&mut self, key: &str, now: u64) -> (admitted: bool)
        requires
            old(self).wf(),
        ensures
            final(self).wf(),
            admitted == old(self).would_admit(key@, now),
            after_allow(*old(self), *final(self), key@, now),
    {
        let cap_units: u64 = self.capacity * self.refill_den;
        let ghost pre = *self;
        let found = self.index_of(key);
        let idx: usize = match found {
            Some(i) => i,
            None => {
                let fresh = Bucket {
                    key: String::from_str(key),
                    tokens: cap_units,
                    last_refill: now,
                };
                let ghost freshg = fresh;
                self.buckets.push(fresh);
                proof {
                    lemma_bucket_push(pre, *self, freshg);
                }
                self.buckets.len() - 1
            },
        };
        let ghost mid = *self;
        proof {
            mid.lemma_bucket_at(idx as int);
        }
        let tokens = self.buckets[idx].tokens;
        let last = self.buckets[idx].last_refill;
        let elapsed: u64 = if now >= last {
            now - last
        } else {
            0
        };
        let e128: u128 = elapsed as u128;
        let n128: u128 = self.refill_num as u128;
        proof {
            assert(e128 * n128 <= 0xFFFFFFFFFFFFFFFF * 0xFFFFFFFFFFFFFFFF) by (nonlinear_arith)
                requires
                    e128 <= 0xFFFFFFFFFFFFFFFF,
                    n128 <= 0xFFFFFFFFFFFFFFFF,
            ;
        }
        let add: u128 = e128 * n128;
        let total: u128 = (tokens as u128) + add;
        let avail: u64 = if total > (cap_units as u128) {
            cap_units
        } else {
            total as u64
        };
        let admitted = avail >= self.refill_den;
        let new_tokens: u64 = if admitted {
            avail - self.refill_den
        } else {
            avail
        };
        let updated = Bucket {
            key: self.buckets[idx].key.clone(),
            tokens: new_tokens,
            last_refill: now,
        };
        let ghost updg = updated;
        self.buckets[idx] = updated;
        proof {
            lemma_bucket_update(mid, *self, idx as int, updg);
            if pre.contains_key(key@) {
                pre.lemma_bucket_at(pre.spec_index_of(key@));
            }
        }
        admitted
    }
}

/// Replacing the bucket at `i` with one of the same key leaves every
/// other key's bucket as it was.
proof fn lemma_bucket_update(pre: RateLimiter, post: RateLimiter, i: int, b: Bucket)
    requires
        pre.wf(),
        0 <= i < pre.buckets@.len(),
        post.buckets@ == pre.buckets@.update(i, b),
        post.capacity == pre.capacity,
        post.refill_num == pre.refill_num,
        post.refill_den == pre.refill_den,
        b.key@ == pre.buckets@[i].key@,
        b.tokens <= pre.capacity * pre.refill_den,
    ensures
        post.wf(),
        post.contains_key(b.key@),
        post.bucket_of(b.key@) == b@,
        forall|k: Seq<char>|
            k != b.key@ ==> #[trigger] post.contains_key(k) == pre.contains_key(k),
        forall|k: Seq<char>|
            k != b.key@ && pre.contains_key(k) ==> #[trigger] post.bucket_of(k) == pre.bucket_of(
                k,
            ),
{
    assert(post.wf());
    post.lemma_bucket_at(i);
    assert forall|k: Seq<char>| k != b.key@ implies #[trigger] post.contains_key(k)
        == pre.contains_key(k) by {
        if pre.contains_key(k) {
            let j = choose|j: int|
                0 <= j < pre.buckets@.len() && (#[trigger] pre.buckets@[j]).key@ == k;
            assert(post.buckets@[j].key@ == k);
        }
        if post.contains_key(k) {
            let j = choose|j: int|
                0 <= j < post.buckets@.len() && (#[trigger] post.buckets@[j]).key@ == k;
            assert(pre.buckets@[j].key@ == k);
        }
    }
    assert forall|k: Seq<char>| k != b.key@ && pre.contains_key(k) implies #[trigger] post
        .bucket_of(k) == pre.bucket_of(k) by {
        let j = choose|j: int| 0 <= j < pre.buckets@.len() && (#[trigger] pre.buckets@[j]).key@
            == k;
        assert(post.buckets@[j].key@ == k);
        pre.lemma_bucket_at(j);
        post.lemma_bucket_at(j);
    }
}

/// Appending a bucket with a fresh key leaves every other key's bucket as
/// it was.
proof fn lemma_bucket_push(pre: RateLimiter, post: RateLimiter, b: Bucket)
    requires
        pre.wf(),
        !pre.contains_key(b.key@),
        post.buckets@ == pre.buckets@.push(b),
        post.capacity == pre.capacity,
        post.refill_num == pre.refill_num,
        post.refill_den == pre.refill_den,
        b.tokens <= pre.capacity * pre.refill_den,
    ensures
        post.wf(),
        post.contains_key(b.key@),
        post.bucket_of(b.key@) == b@,
        forall|k: Seq<char>|
            k != b.key@ ==> #[trigger] post.contains_key(k) == pre.contains_key(k),
        forall|k: Seq<char>|
            k != b.key@ && pre.contains_key(k) ==> #[trigger] post.bucket_of(k) == pre.bucket_of(
                k,
            ),
{
    let n = pre.buckets@.len() as int;
    assert forall|i: int, j: int| 0 <= i < j < post.buckets@.len() implies (
    #[trigger] post.buckets@[i]).key@ != (#[trigger] post.buckets@[j]).key@ by {
        if j < n {
            assert(pre.buckets@[i].key@ != pre.buckets@[j].key@);
        } else {
            assert(post.buckets@[j] == b);
            assert(post.buckets@[i] == pre.buckets@[i]);
            if pre.buckets@[i].key@ == b.key@ {
                assert(pre.contains_key(b.key@));
            }
        }
    }
    assert(post.wf());
    post.lemma_bucket_at(n);
    assert forall|k: Seq<char>| k != b.key@ implies #[trigger] post.contains_key(k)
        == pre.contains_key(k) by {
        if pre.contains_key(k) {
            let j = choose|j: int|
                0 <= j < pre.buckets@.len() && (#[trigger] pre.buckets@[j]).key@ == k;
            assert(post.buckets@[j].key@ == k);
        }
        if post.contains_key(k) {
            let j = choose|j: int|
                0 <= j < post.buckets@.len() && (#[trigger] post.buckets@[j]).key@ == k;
            assert(j < n);
            assert(pre.buckets@[j].key@ == k);
        }
    }
    assert forall|k: Seq<char>| k != b.key@ && pre.contains_key(k) implies #[trigger] post
        .bucket_of(k) == pre.bucket_of(k) by {
        let j = choose|j: int| 0 <= j < pre.buckets@.len() && (#[trigger] pre.buckets@[j]).key@
            == k;
        assert(post.buckets@[j].key@ == k);
        pre.lemma_bucket_at(j);
        post.lemma_bucket_at(j);
    }
}

} // verus!
