//! The one-time-code store: per email, the single outstanding (login attempt,
//! code) pair of a two-factor login, valid for a bounded time.
use crate::domain::{Email, LoginAttemptId, TwoFACode};
use vstd::prelude::*;

verus! {

/// Failures of the one-time-code store.
#[derive(Debug, Clone, Copy, PartialEq, Eq, Structural)]
pub enum TwoFACodeStoreError {
    LoginAttemptIdNotFound,
    UnexpectedError,
}

/// How long, in seconds, an issued challenge stays valid.
pub const CODE_TTL_SECS: u64 = 600;

/// What the store holds for one email.
pub ghost struct ChallengeView {
    pub login_attempt_id: Seq<char>,
    pub code: Seq<char>,
    pub expires_at: nat,
}

/// The instant, in seconds, at which a challenge issued at `now` expires.
pub open spec fn expiry_after(now: u64) -> nat {
    if now as nat + CODE_TTL_SECS as nat > u64::MAX as nat {
        u64::MAX as nat
    } else {
        now as nat + CODE_TTL_SECS as nat
    }
}

/// Whether the store `m` has a challenge for `email` that has not expired at `now`.
pub open spec fn is_pending(m: Map<Seq<char>, ChallengeView>, email: Seq<char>, now: u64) -> bool {
    m.contains_key(email) && (now as nat) < m[email].expires_at
}

/// The key under which a cache with native key expiry keeps the challenge of `email`.
pub fn two_fa_code_key(email: &Email) -> (r: String)
    ensures
        r@ == "two_fa_code:"@ + email@,
{
    let mut key = String::from_str("two_fa_code:");
    key.append(email.as_str());
    key
}

struct CodeEntry {
    email: Email,
    login_attempt_id: LoginAttemptId,
    code: TwoFACode,
    expires_at: u64,
}

impl CodeEntry {
    spec fn summary(&self) -> ChallengeView {
        ChallengeView {
            login_attempt_id: self.login_attempt_id@,
            code: self.code@,
            expires_at: self.expires_at as nat,
        }
    }
}

/// In-memory one-time-code store.
pub struct HashmapTwoFACodeStore {
    entries: Vec<CodeEntry>,
    model: Ghost<Map<Seq<char>, ChallengeView>>,
}

impl View for HashmapTwoFACodeStore {
    type V = Map<Seq<char>, ChallengeView>;

    closed spec fn view(&self) -> Map<Seq<char>, ChallengeView> {
        self.model@
    }
}

impl HashmapTwoFACodeStore {
    /// The entry vector and the map agree, one entry per email.
    pub closed spec fn wf(&self) -> bool {
        &&& forall|i: int|
            0 <= i < self.entries@.len() ==> self.model@.contains_key(
                #[trigger] self.entries@[i].email@,
            ) && self.model@[self.entries@[i].email@] == self.entries@[i].summary()
        &&& forall|k: Seq<char>|
            #[trigger] self.model@.contains_key(k) ==> exists|i: int|
                0 <= i < self.entries@.len() && #[trigger] self.entries@[i].email@ == k
        &&& forall|i: int, j: int|
            0 <= i < self.entries@.len() && 0 <= j < self.entries@.len()
                && #[trigger] self.entries@[i].email@ == #[trigger] self.entries@[j].email@ ==> i
                == j
    }

    pub fn new() -> (r: HashmapTwoFACodeStore)
        ensures
            r.wf(),
            r@ == Map::<Seq<char>, ChallengeView>::empty(),
    {
        HashmapTwoFACodeStore { entries: Vec::new(), model: Ghost(Map::empty()) }
    }

    fn find(&self, email: &Email) -> (r: Option<usize>)
        requires
            self.wf(),
        ensures
            r is None <==> !self@.contains_key(email@),
            r matches Some(i) ==> i < self.entries@.len() && self.entries@[i as int].email@
                == email@ && self@[email@] == self.entries@[i as int].summary(),
    {
        let mut i: usize = 0;
        while i < self.entries.len()
            invariant
                self.wf(),
                i <= self.entries@.len(),
                forall|j: int| 0 <= j < i ==> self.entries@[j].email@ != email@,
            decreases self.entries@.len() - i,
        {
            if self.entries[i].email == *email {
                return Some(i);
            }
            i = i + 1;
        }
        None
    }

    /// Issues a challenge for `email` at instant `now`, replacing any earlier one.
    pub fn add_code(
        &mut self,
        email: Email,
        login_attempt_id: LoginAttemptId,
        code: TwoFACode,
        now: u64,
    ) -> (r: Result<(), TwoFACodeStoreError>)
        requires
            old(self).wf(),
        ensures
            final(self).wf(),
            r is Ok,
            final(self)@ == old(self)@.insert(
                email@,
                ChallengeView {
                    login_attempt_id: login_attempt_id@,
                    code: code@,
                    expires_at: expiry_after(now),
                },
            ),
    {
        let expires_at = now.saturating_add(CODE_TTL_SECS);
        let ghost key = email@;
        let entry = CodeEntry { email, login_attempt_id, code, expires_at };
        let ghost v = entry.summary();
        let ghost old_entries = self.entries@;
        match self.find(&entry.email) {
            Some(i) => {
                self.entries.set(i, entry);
                self.model = Ghost(self.model@.insert(key, v));
                proof {
                    assert forall|j: int|
                        0 <= j < self.entries@.len() implies self.model@.contains_key(
                        #[trigger] self.entries@[j].email@,
                    ) && self.model@[self.entries@[j].email@] == self.entries@[j].summary() by {
                        if j != i {
                            assert(self.entries@[j] == old_entries[j]);
                        }
                    }
                    assert forall|k: Seq<char>| #[trigger] self.model@.contains_key(k) implies exists|j: int|
                        0 <= j < self.entries@.len() && #[trigger] self.entries@[j].email@ == k by {
                        if k == key {
                            assert(self.entries@[i as int].email@ == k);
                        } else {
                            let j = choose|j: int| 0 <= j < old_entries.len() && #[trigger] old_entries[j].email@ == k;
                            assert(self.entries@[j] == old_entries[j]);
                        }
                    }
                    assert forall|a: int, b: int|
                        0 <= a < self.entries@.len() && 0 <= b < self.entries@.len()
                            && #[trigger] self.entries@[a].email@ == #[trigger] self.entries@[b].email@ implies a == b by {
                        assert(old_entries[a].email@ == self.entries@[a].email@);
                        assert(old_entries[b].email@ == self.entries@[b].email@);
                    }
                }
            },
            None => {
                self.entries.push(entry);
                self.model = Ghost(self.model@.insert(key, v));
                proof {
                    let n = old_entries.len() as int;
                    assert(self.entries@[n].email@ == key);
                    assert forall|j: int|
                        0 <= j < self.entries@.len() implies self.model@.contains_key(
                        #[trigger] self.entries@[j].email@,
                    ) && self.model@[self.entries@[j].email@] == self.entries@[j].summary() by {
                        if j < n {
                            assert(self.entries@[j] == old_entries[j]);
                        }
                    }
                    assert forall|k: Seq<char>| #[trigger] self.model@.contains_key(k) implies exists|j: int|
                        0 <= j < self.entries@.len() && #[trigger] self.entries@[j].email@ == k by {
                        if k == key {
                            assert(self.entries@[n].email@ == k);
                        } else {
                            let j = choose|j: int| 0 <= j < old_entries.len() && #[trigger] old_entries[j].email@ == k;
                            assert(self.entries@[j] == old_entries[j]);
                        }
                    }
                    assert forall|a: int, b: int|
                        0 <= a < self.entries@.len() && 0 <= b < self.entries@.len()
                            && #[trigger] self.entries@[a].email@ == #[trigger] self.entries@[b].email@ implies a == b by {
                        if a < n {
                            assert(self.entries@[a] == old_entries[a]);
                        }
                        if b < n {
                            assert(self.entries@[b] == old_entries[b]);
                        }
                    }
                }
            },
        }
        Ok(())
    }

    /// The pending challenge of `email` at instant `now`; none, or an expired
    /// one, is `LoginAttemptIdNotFound`.
    pub fn get_code(&self, email: &Email, now: u64) -> (r: Result<
        (LoginAttemptId, TwoFACode),
        TwoFACodeStoreError,
    >)
        requires
            self.wf(),
        ensures
            r is Ok <==> is_pending(self@, email@, now),
            r is Err ==> r == Err::<(LoginAttemptId, TwoFACode), TwoFACodeStoreError>(
                TwoFACodeStoreError::LoginAttemptIdNotFound,
            ),
            r matches Ok((id, code)) ==> id@ == self@[email@].login_attempt_id && code@
                == self@[email@].code,
    {
        match self.find(email) {
            None => Err(TwoFACodeStoreError::LoginAttemptIdNotFound),
            Some(i) => {
                let e = &self.entries[i];
                if now < e.expires_at {
                    Ok((e.login_attempt_id.clone(), e.code.clone()))
                } else {
                    Err(TwoFACodeStoreError::LoginAttemptIdNotFound)
                }
            },
        }
    }

    /// Consumes the challenge of `email`: the entry is gone afterwards, and the
    /// call fails with `LoginAttemptIdNotFound` unless it was pending at `now`.
    pub fn remove_code(&mut self, email: &Email, now: u64) -> (r: Result<(), TwoFACodeStoreError>)
        requires
            old(self).wf(),
        ensures
            final(self).wf(),
            final(self)@ == old(self)@.remove(email@),
            r is Ok <==> is_pending(old(self)@, email@, now),
            r is Err ==> r == Err::<(), TwoFACodeStoreError>(
                TwoFACodeStoreError::LoginAttemptIdNotFound,
            ),
    {
        match self.find(email) {
            None => {
                assert(self@.remove(email@) =~= self@);
                Err(TwoFACodeStoreError::LoginAttemptIdNotFound)
            },
            Some(i) => {
                let ghost key = email@;
                let ghost old_entries = self.entries@;
                let pending = now < self.entries[i].expires_at;
                self.entries.remove(i);
                self.model = Ghost(self.model@.remove(key));
                proof {
                    let n = old_entries.len() as int;
                    assert forall|j: int|
                        0 <= j < self.entries@.len() implies self.model@.contains_key(
                        #[trigger] self.entries@[j].email@,
                    ) && self.model@[self.entries@[j].email@] == self.entries@[j].summary() by {
                        if j < i {
                            assert(self.entries@[j] == old_entries[j]);
                        } else {
                            assert(self.entries@[j] == old_entries[j + 1]);
                        }
                    }
                    assert forall|k: Seq<char>| #[trigger] self.model@.contains_key(k) implies exists|j: int|
                        0 <= j < self.entries@.len() && #[trigger] self.entries@[j].email@ == k by {
                        let j = choose|j: int| 0 <= j < old_entries.len() && #[trigger] old_entries[j].email@ == k;
                        assert(j != i);
                        if j < i {
                            assert(self.entries@[j] == old_entries[j]);
                        } else {
                            assert(self.entries@[j - 1] == old_entries[j]);
                        }
                    }
                    assert forall|a: int, b: int|
                        0 <= a < self.entries@.len() && 0 <= b < self.entries@.len()
                            && #[trigger] self.entries@[a].email@ == #[trigger] self.entries@[b].email@ implies a == b by {
                        let a0 = if a < i { a } else { a + 1 };
                        let b0 = if b < i { b } else { b + 1 };
                        assert(self.entries@[a] == old_entries[a0]);
                        assert(self.entries@[b] == old_entries[b0]);
                    }
                }
                if pending {
                    Ok(())
                } else {
                    Err(TwoFACodeStoreError::LoginAttemptIdNotFound)
                }
            },
        }
    }
}

/// A consumed challenge cannot be read again: after removal, nothing is pending
/// for that email at any instant.
pub proof fn lemma_consumed_challenge_gone(m: Map<Seq<char>, ChallengeView>, email: Seq<char>, now: u64)
    ensures
        !is_pending(m.remove(email), email, now),
{
}

/// Issuing a new challenge replaces the old one: only the latest identifier and
/// code are stored for the email.
pub proof fn lemma_reissue_replaces(
    m: Map<Seq<char>, ChallengeView>,
    email: Seq<char>,
    first: ChallengeView,
    second: ChallengeView,
)
    ensures
        m.insert(email, first).insert(email, second)[email] == second,
        m.insert(email, first).insert(email, second) == m.insert(email, second),
{
    assert(m.insert(email, first).insert(email, second) =~= m.insert(email, second));
}

} // verus!
