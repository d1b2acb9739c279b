//! The request store and its verification state machine. An entry is
//! issued once, may be verified at most once, and expires by comparison
//! with the caller's clock; every failure collapses to the same `false`.

use vstd::prelude::*;
use vstd::string::StringSliceAdditionalSpecFns;
use crate::otp::hash_otp_spec;
use crate::text::str_eq;

verus! {

/// Represents an OTP request: one issued code, bound to a user, stored
/// only as a hash, expiring at an absolute time.
pub struct OtpRequest {
    pub request_id: String,
    pub user_id: String,
    pub otp_hash: String,
    pub expires_at: u64,
    pub used: bool,
    pub counter: u64,
}

/// The mathematical form of an entry: every text field as its character
/// sequence.
pub struct OtpEntryModel {
    pub request_id: Seq<char>,
    pub user_id: Seq<char>,
    pub otp_hash: Seq<char>,
    pub expires_at: u64,
    pub used: bool,
    pub counter: u64,
}

impl View for OtpRequest {
    type V = OtpEntryModel;

    open spec fn view(&self) -> OtpEntryModel {
        OtpEntryModel {
            request_id: self.request_id@,
            user_id: self.user_id@,
            otp_hash: self.otp_hash@,
            expires_at: self.expires_at,
            used: self.used,
            counter: self.counter,
        }
    }
}

impl Clone for OtpRequest {
    fn clone(&self) -> (res: Self)
        ensures
            res@ == self@,
    {
        OtpRequest {
            request_id: self.request_id.clone(),
            user_id: self.user_id.clone(),
            otp_hash: self.otp_hash.clone(),
            expires_at: self.expires_at,
            used: self.used,
            counter: self.counter,
        }
    }
}

/// Whether a verification of `entry` with hash `candidate` may succeed at
/// `now`: the entry is unspent, unexpired, and the hashes agree.
pub open spec fn entry_accepts(entry: OtpEntryModel, candidate: Seq<char>, now: u64) -> bool {
    &&& !entry.used
    &&& now <= entry.expires_at
    &&& candidate == entry.otp_hash
}

/// Whether a verification of `id` with candidate hash `candidate` at
/// `now` succeeds against the store: an entry with this id exists and
/// accepts it.
pub open spec fn try_verify_ok(pre: RequestStore, id: Seq<char>, candidate: Seq<char>, now: u64) -> bool {
    pre.contains_id(id) && entry_accepts(pre.entry_of(id), candidate, now)
}

/// What one verification attempt of `id` does to the store: on success
/// the entry's used flag is set; nothing else, and no other entry, ever
/// changes, and no entry appears or disappears.
pub open spec fn after_try_verify(
    pre: RequestStore,
    post: RequestStore,
    id: Seq<char>,
    candidate: Seq<char>,
    now: u64,
) -> bool {
    &&& post.wf()
    &&& forall|k: Seq<char>| #[trigger] post.contains_id(k) == pre.contains_id(k)
    &&& (try_verify_ok(pre, id, candidate, now) ==> post.entry_of(id) == (OtpEntryModel {
        used: true,
        ..pre.entry_of(id)
    }))
    &&& forall|k: Seq<char>|
        (!try_verify_ok(pre, id, candidate, now) || k != id) && pre.contains_id(k)
            ==> #[trigger] post.entry_of(k) == pre.entry_of(k)
}

/// Holds one entry per issued request id.
pub struct RequestStore {
    entries: Vec<OtpRequest>,
}

impl RequestStore {
    /// At most one entry per request id.
    pub closed spec fn wf(self) -> bool {
        forall|i: int, j: int|
            0 <= i < j < self.entries@.len() ==> (#[trigger] self.entries@[i]).request_id@ != (
            #[trigger] self.entries@[j]).request_id@
    }

    /// Whether an entry with this id is stored.
    pub closed spec fn contains_id(self, id: Seq<char>) -> bool {
        exists|i: int|
            0 <= i < self.entries@.len() && (#[trigger] self.entries@[i]).request_id@ == id
    }

    /// The stored entry with this id, when one is stored.
    pub closed spec fn entry_of(self, id: Seq<char>) -> OtpEntryModel {
        self.entries@[self.spec_index_of(id)]@
    }

    /// The position of the entry with this id, when one is stored.
    pub closed spec fn spec_index_of(self, id: Seq<char>) -> int {
        choose|i: int|
            0 <= i < self.entries@.len() && (#[trigger] self.entries@[i]).request_id@ == id
    }

    /// The number of stored entries.
    pub closed spec fn len(self) -> nat {
        self.entries@.len()
    }

    /// The entry at a position is the entry of its id.
    proof fn lemma_entry_at(self, i: int)
        requires
            self.wf(),
            0 <= i < self.entries@.len(),
        ensures
            self.contains_id(self.entries@[i].request_id@),
            self.entry_of(self.entries@[i].request_id@) == self.entries@[i]@,
    {
        let id = self.entries@[i].request_id@;
        assert(self.contains_id(id));
        let j = self.spec_index_of(id);
        assert(0 <= j < self.entries@.len() && self.entries@[j].request_id@ == id);
        if i != j {
            assert(self.entries@[i].request_id@ != self.entries@[j].request_id@);
        }
    }

    /// Creates an empty store.
    pub fn new() -> (s: Self)
        ensures
            s.wf(),
            s.len() == 0,
            forall|id: Seq<char>| !s.contains_id(id),
    {
        RequestStore { entries: Vec::new() }
    }

    /// Finds the position of the entry with the given id.
    fn index_of(&self, request_id: &str) -> (r: Option<usize>)
        requires
            self.wf(),
        ensures
            match r {
                Some(i) => i < self.entries@.len() && self.entries@[i as int].request_id@
                    == request_id@,
                None => !self.contains_id(request_id@),
            },
    {
        let n = self.entries.len();
        let mut i: usize = 0;
        while i < n
            invariant
                i <= n,
                n == self.entries@.len(),
                forall|j: int|
                    0 <= j < i ==> (#[trigger] self.entries@[j]).request_id@ != request_id@,
            decreases n - i,
        {
            if str_eq(self.entries[i].request_id.as_str(), request_id) {
                return Some(i);
            }
            i = i + 1;
        }
        None
    }

    /// Inserts or replaces an OTP request under its id.
    pub fn insert_request(&mut self, request: OtpRequest)
        requires
            old(self).wf(),
        ensures
            final(self).wf(),
            final(self).contains_id(request@.request_id),
            final(self).entry_of(request@.request_id) == request@,
            forall|id: Seq<char>|
                id != request@.request_id ==> #[trigger] final(self).contains_id(id)
                    == old(self).contains_id(id),
            forall|id: Seq<char>|
                id != request@.request_id && old(self).contains_id(id)
                    ==> #[trigger] final(self).entry_of(id) == old(self).entry_of(id),
    {
        let ghost pre = *self;
        let ghost req = request;
        let found = self.index_of(request.request_id.as_str());
        match found {
            Some(i) => {
                self.entries[i] = request;
                proof {
                    lemma_update_preserves(pre, *self, i as int, req);
                }
            },
            None => {
                self.entries.push(request);
                proof {
                    lemma_push_preserves(pre, *self, req);
                }
            },
        }
    }

    /// Returns a copy of the stored entry, primarily for inspection.
    pub fn snapshot_request(&self, request_id: &str) -> (r: Option<OtpRequest>)
        requires
            self.wf(),
        ensures
            match r {
                Some(e) => self.contains_id(request_id@) && e@ == self.entry_of(request_id@),
                None => !self.contains_id(request_id@),
            },
    {
        let found = self.index_of(request_id);
        match found {
            Some(i) => {
                proof {
                    self.lemma_entry_at(i as int);
                }
                Some(self.entries[i].clone())
            },
            None => None,
        }
    }

    /// Attempts to verify a candidate code hash against the stored entry.
    ///
    /// Succeeds exactly when an entry with this id exists, is unspent and
    /// unexpired, and its stored hash equals `candidate_hash`; success
    /// sets the used flag, and nothing else ever changes. Every failure
    /// is the same `false`, so the caller learns nothing about why.
    pub fn try_verify_hashed(&mut self, request_id: &str, candidate_hash: &String, now: u64) -> (
        verified: bool)
        requires
            old(self).wf(),
        ensures
            final(self).wf(),
            verified == try_verify_ok(*old(self), request_id@, candidate_hash@, now),
            after_try_verify(*old(self), *final(self), request_id@, candidate_hash@, now),
    {
        let ghost pre = *self;
        let found = self.index_of(request_id);
        match found {
            Some(i) => {
                proof {
                    self.lemma_entry_at(i as int);
                }
                let entry = &self.entries[i];
                if entry.used || now > entry.expires_at {
                    return false;
                }
                let matches_hash = candidate_hash.eq(&entry.otp_hash);
                if matches_hash {
                    let updated = OtpRequest {
                        request_id: self.entries[i].request_id.clone(),
                        user_id: self.entries[i].user_id.clone(),
                        otp_hash: self.entries[i].otp_hash.clone(),
                        expires_at: self.entries[i].expires_at,
                        used: true,
                        counter: self.entries[i].counter,
                    };
                    let ghost upd = updated;
                    self.entries[i] = updated;
                    proof {
                        lemma_update_preserves(pre, *self, i as int, upd);
                        assert((*self).entry_of(request_id@) == OtpEntryModel {
                            used: true,
                            ..pre.entry_of(request_id@)
                        });
                    }
                    true
                } else {
                    false
                }
            },
            None => false,
        }
    }

    /// Looks up the entry, hashes the candidate code, and runs the
    /// verification transition.
    pub fn try_verify(&mut self, request_id: &str, otp: &str, now: u64) -> (verified: bool)
        requires
            old(self).wf(),
        ensures
            final(self).wf(),
            verified == try_verify_ok(
                *old(self),
                request_id@,
                hash_otp_spec(otp.spec_bytes()),
                now,
            ),
            after_try_verify(
                *old(self),
                *final(self),
                request_id@,
                hash_otp_spec(otp.spec_bytes()),
                now,
            ),
    {
        let candidate_hash = crate::otp::hash_otp(otp);
        self.try_verify_hashed(request_id, &candidate_hash, now)
    }
}

/// Replacing the entry at `i` with one of the same id leaves every other
/// id's entry as it was.
proof fn lemma_update_preserves(pre: RequestStore, post: RequestStore, i: int, e: OtpRequest)
    requires
        pre.wf(),
        0 <= i < pre.entries@.len(),
        post.entries@ == pre.entries@.update(i, e),
        e.request_id@ == pre.entries@[i].request_id@,
    ensures
        post.wf(),
        post.contains_id(e.request_id@),
        post.entry_of(e.request_id@) == e@,
        forall|id: Seq<char>|
            id != e.request_id@ ==> #[trigger] post.contains_id(id) == pre.contains_id(id),
        forall|id: Seq<char>|
            id != e.request_id@ && pre.contains_id(id) ==> #[trigger] post.entry_of(id)
                == pre.entry_of(id),
{
    assert(post.wf());
    post.lemma_entry_at(i);
    assert forall|id: Seq<char>| id != e.request_id@ implies #[trigger] post.contains_id(id)
        == pre.contains_id(id) by {
        if pre.contains_id(id) {
            let j = choose|j: int|
                0 <= j < pre.entries@.len() && (#[trigger] pre.entries@[j]).request_id@ == id;
            assert(post.entries@[j].request_id@ == id);
        }
        if post.contains_id(id) {
            let j = choose|j: int|
                0 <= j < post.entries@.len() && (#[trigger] post.entries@[j]).request_id@ == id;
            assert(pre.entries@[j].request_id@ == id);
        }
    }
    assert forall|id: Seq<char>| id != e.request_id@ && pre.contains_id(id) implies #[trigger] post
        .entry_of(id) == pre.entry_of(id) by {
        let j = choose|j: int|
            0 <= j < pre.entries@.len() && (#[trigger] pre.entries@[j]).request_id@ == id;
        assert(post.entries@[j].request_id@ == id);
        pre.lemma_entry_at(j);
        post.lemma_entry_at(j);
    }
}

/// Appending an entry with a fresh id leaves every other id's entry as it
/// was.
proof fn lemma_push_preserves(pre: RequestStore, post: RequestStore, e: OtpRequest)
    requires
        pre.wf(),
        !pre.contains_id(e.request_id@),
        post.entries@ == pre.entries@.push(e),
    ensures
        post.wf(),
        post.contains_id(e.request_id@),
        post.entry_of(e.request_id@) == e@,
        forall|id: Seq<char>|
            id != e.request_id@ ==> #[trigger] post.contains_id(id) == pre.contains_id(id),
        forall|id: Seq<char>|
            id != e.request_id@ && pre.contains_id(id) ==> #[trigger] post.entry_of(id)
                == pre.entry_of(id),
{
    let n = pre.entries@.len() as int;
    assert forall|i: int, j: int| 0 <= i < j < post.entries@.len() implies (
    #[trigger] post.entries@[i]).request_id@ != (#[trigger] post.entries@[j]).request_id@ by {
        if j < n {
            assert(pre.entries@[i].request_id@ != pre.entries@[j].request_id@);
        } else {
            assert(post.entries@[j] == e);
            assert(post.entries@[i] == pre.entries@[i]);
            if pre.entries@[i].request_id@ == e.request_id@ {
                assert(pre.contains_id(e.request_id@));
            }
        }
    }
    post.lemma_entry_at(n);
    assert forall|id: Seq<char>| id != e.request_id@ implies #[trigger] post.contains_id(id)
        == pre.contains_id(id) by {
        if pre.contains_id(id) {
            let j = choose|j: int|
                0 <= j < pre.entries@.len() && (#[trigger] pre.entries@[j]).request_id@ == id;
            assert(post.entries@[j].request_id@ == id);
        }
        if post.contains_id(id) {
            let j = choose|j: int|
                0 <= j < post.entries@.len() && (#[trigger] post.entries@[j]).request_id@ == id;
            assert(j < n);
            assert(pre.entries@[j].request_id@ == id);
        }
    }
    assert forall|id: Seq<char>| id != e.request_id@ && pre.contains_id(id) implies #[trigger] post
        .entry_of(id) == pre.entry_of(id) by {
        let j = choose|j: int|
            0 <= j < pre.entries@.len() && (#[trigger] pre.entries@[j]).request_id@ == id;
        assert(post.entries@[j].request_id@ == id);
        pre.lemma_entry_at(j);
        post.lemma_entry_at(j);
    }
}

/// At most one verification of a given request id ever succeeds: if one
/// attempt succeeded, then after it the entry's used flag stands, so any
/// later attempt on the same id, with any candidate and any clock, fails.
pub proof fn lemma_at_most_one_success(
    s0: RequestStore,
    s1: RequestStore,
    id: Seq<char>,
    c1: Seq<char>,
    now1: u64,
    c2: Seq<char>,
    now2: u64,
)
    requires
        try_verify_ok(s0, id, c1, now1),
        after_try_verify(s0, s1, id, c1, now1),
    ensures
        !try_verify_ok(s1, id, c2, now2),
{
}

/// An expired entry never verifies, whatever the candidate.
pub proof fn lemma_expired_never_verifies(s: RequestStore, id: Seq<char>, c: Seq<char>, now: u64)
    requires
        s.contains_id(id),
        now > s.entry_of(id).expires_at,
    ensures
        !try_verify_ok(s, id, c, now),
{
}

/// A used entry never verifies again, whatever the candidate.
pub proof fn lemma_used_never_verifies(s: RequestStore, id: Seq<char>, c: Seq<char>, now: u64)
    requires
        s.contains_id(id),
        s.entry_of(id).used,
    ensures
        !try_verify_ok(s, id, c, now),
{
}

} // verus!
