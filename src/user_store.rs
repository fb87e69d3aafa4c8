//! The user store: one account per email address, with the password kept
//! only as an Argon2 hash.
use crate::domain::{Email, Password, User};
use crate::hashing::{
    argon2_check, compute_password_hash, verify_password_hash, MAX_HASHABLE_PASSWORD_CHARS,
};
use vstd::prelude::*;

verus! {

/// Failures of the user store.
#[derive(Debug, Clone, Copy, PartialEq, Eq, Structural)]
pub enum UserStoreError {
    UserAlreadyExists,
    UserNotFound,
    InvalidCredentials,
    UnexpectedError,
}

/// A stored account.
pub struct Account {
    pub email: Email,
    pub password_hash: String,
    pub requires_2fa: bool,
}

/// What the store holds for one email.
pub ghost struct AccountView {
    pub password_hash: Seq<char>,
    pub requires_2fa: bool,
}

impl Account {
    pub open spec fn summary(&self) -> AccountView {
        AccountView { password_hash: self.password_hash@, requires_2fa: self.requires_2fa }
    }
}

/// The outcome of checking a password against the accounts `m`.
pub open spec fn validate_outcome(m: Map<Seq<char>, AccountView>, email: Seq<char>, password: Seq<char>) -> Result<(), UserStoreError> {
    if !m.contains_key(email) {
        Err(UserStoreError::UserNotFound)
    } else {
        check_outcome(argon2_check(m[email].password_hash, password))
    }
}

/// How the hash check's verdict maps to the store's answer.
pub open spec fn check_outcome(check: Option<bool>) -> Result<(), UserStoreError> {
    match check {
        Some(true) => Ok(()),
        Some(false) => Err(UserStoreError::InvalidCredentials),
        None => Err(UserStoreError::UnexpectedError),
    }
}

/// Maps the hash check's verdict to the store's answer: a mismatch is
/// `InvalidCredentials`, an unusable stored hash `UnexpectedError`.
pub fn credential_outcome(check: Option<bool>) -> (r: Result<(), UserStoreError>)
    ensures
        r == check_outcome(check),
{
    match check {
        Some(true) => Ok(()),
        Some(false) => Err(UserStoreError::InvalidCredentials),
        None => Err(UserStoreError::UnexpectedError),
    }
}

/// Hashes `password` for storage; a hashing failure is `UnexpectedError`.
pub fn hash_new_password(password: &Password) -> (r: Result<String, UserStoreError>)
    ensures
        password@.len() <= MAX_HASHABLE_PASSWORD_CHARS ==> r is Ok,
        r matches Ok(h) ==> argon2_check(h@, password@) == Some(true) && h@.len() >= 10
            && h@.subrange(0, 10) == "$argon2id$"@,
        r is Err ==> r == Err::<String, UserStoreError>(UserStoreError::UnexpectedError),
{
    match compute_password_hash(password.as_str()) {
        Some(h) => Ok(h),
        None => Err(UserStoreError::UnexpectedError),
    }
}

/// Checks `candidate` against the stored hash text `password_hash`.
pub fn check_password(password_hash: &str, candidate: &Password) -> (r: Result<(), UserStoreError>)
    ensures
        r == check_outcome(argon2_check(password_hash@, candidate@)),
{
    credential_outcome(verify_password_hash(password_hash, candidate.as_str()))
}

/// How a relational backend reads its insert: no row written means that the
/// email was taken in the meantime.
pub fn insert_outcome(rows_affected: u64) -> (r: Result<(), UserStoreError>)
    ensures
        rows_affected == 0 ==> r == Err::<(), UserStoreError>(UserStoreError::UserAlreadyExists),
        rows_affected > 0 ==> r is Ok,
{
    if rows_affected == 0 {
        Err(UserStoreError::UserAlreadyExists)
    } else {
        Ok(())
    }
}

/// In-memory user store.
pub struct HashmapUserStore {
    users: Vec<Account>,
    model: Ghost<Map<Seq<char>, AccountView>>,
}

impl View for HashmapUserStore {
    type V = Map<Seq<char>, AccountView>;

    closed spec fn view(&self) -> Map<Seq<char>, AccountView> {
        self.model@
    }
}

impl HashmapUserStore {
    /// The accounts vector and the map agree, one entry per email.
    pub closed spec fn wf(&self) -> bool {
        &&& forall|i: int|
            0 <= i < self.users@.len() ==> self.model@.contains_key(
                #[trigger] self.users@[i].email@,
            ) && self.model@[self.users@[i].email@] == self.users@[i].summary()
        &&& forall|k: Seq<char>|
            #[trigger] self.model@.contains_key(k) ==> exists|i: int|
                0 <= i < self.users@.len() && #[trigger] self.users@[i].email@ == k
        &&& forall|i: int, j: int|
            0 <= i < self.users@.len() && 0 <= j < self.users@.len() && #[trigger] self.users@[i].email@
                == #[trigger] self.users@[j].email@ ==> i == j
    }

    pub fn new() -> (r: HashmapUserStore)
        ensures
            r.wf(),
            r@ == Map::<Seq<char>, AccountView>::empty(),
    {
        HashmapUserStore { users: Vec::new(), model: Ghost(Map::empty()) }
    }

    fn find(&self, email: &Email) -> (r: Option<usize>)
        requires
            self.wf(),
        ensures
            r is None <==> !self@.contains_key(email@),
            r matches Some(i) ==> i < self.users@.len() && self.users@[i as int].email@ == email@
                && self@[email@] == self.users@[i as int].summary(),
    {
        let mut i: usize = 0;
        while i < self.users.len()
            invariant
                self.wf(),
                i <= self.users@.len(),
                forall|j: int| 0 <= j < i ==> self.users@[j].email@ != email@,
            decreases self.users@.len() - i,
        {
            if self.users[i].email == *email {
                return Some(i);
            }
            i = i + 1;
        }
        None
    }

    /// Stores an account whose password is already hashed; refuses a known email.
    pub fn insert_account(&mut self, account: Account) -> (r: Result<(), UserStoreError>)
        requires
            old(self).wf(),
        ensures
            final(self).wf(),
            old(self)@.contains_key(account.email@) ==> r == Err::<(), UserStoreError>(
                UserStoreError::UserAlreadyExists,
            ) && final(self)@ == old(self)@,
            !old(self)@.contains_key(account.email@) ==> r is Ok && final(self)@ == old(self)@.insert(
                account.email@,
                account.summary(),
            ),
    {
        if self.find(&account.email).is_some() {
            return Err(UserStoreError::UserAlreadyExists);
        }
        let ghost key = account.email@;
        let ghost v = account.summary();
        let ghost old_users = self.users@;
        self.users.push(account);
        self.model = Ghost(self.model@.insert(key, v));
        proof {
            let n = old_users.len() as int;
            assert(self.users@[n].email@ == key);
            assert forall|k: Seq<char>| #[trigger] self.model@.contains_key(k) implies exists|i: int|
                0 <= i < self.users@.len() && #[trigger] self.users@[i].email@ == k by {
                if k == key {
                    assert(self.users@[n].email@ == k);
                } else {
                    let i = choose|i: int| 0 <= i < old_users.len() && #[trigger] old_users[i].email@ == k;
                    assert(self.users@[i].email@ == k);
                }
            }
            assert forall|i: int|
                0 <= i < self.users@.len() implies self.model@.contains_key(
                #[trigger] self.users@[i].email@,
            ) && self.model@[self.users@[i].email@] == self.users@[i].summary() by {
                if i < n {
                    assert(self.users@[i] == old_users[i]);
                }
            }
            assert forall|i: int, j: int|
                0 <= i < self.users@.len() && 0 <= j < self.users@.len() && #[trigger] self.users@[i].email@
                    == #[trigger] self.users@[j].email@ implies i == j by {
                if i < n && j < n {
                    assert(self.users@[i] == old_users[i]);
                    assert(self.users@[j] == old_users[j]);
                } else if i < n {
                    assert(self.users@[i] == old_users[i]);
                    assert(old_users[i].email@ == key);
                } else if j < n {
                    assert(self.users@[j] == old_users[j]);
                    assert(old_users[j].email@ == key);
                }
            }
        }
        Ok(())
    }

    /// Adds the user with its password hashed. Refuses a known email with
    /// `UserAlreadyExists`; a hashing failure is `UnexpectedError`.
    pub fn add_user(&mut self, user: User) -> (r: Result<(), UserStoreError>)
        requires
            old(self).wf(),
        ensures
            final(self).wf(),
            old(self)@.contains_key(user.email@) ==> r == Err::<(), UserStoreError>(
                UserStoreError::UserAlreadyExists,
            ),
            r is Err ==> final(self)@ == old(self)@,
            r is Err && !old(self)@.contains_key(user.email@) ==> r == Err::<(), UserStoreError>(
                UserStoreError::UnexpectedError,
            ),
            !old(self)@.contains_key(user.email@) && user.password@.len()
                <= MAX_HASHABLE_PASSWORD_CHARS ==> r is Ok,
            r is Ok ==> !old(self)@.contains_key(user.email@) && final(self)@ == old(self)@.insert(
                user.email@,
                final(self)@[user.email@],
            ) && final(self)@[user.email@].requires_2fa == user.requires_2fa && argon2_check(
                final(self)@[user.email@].password_hash,
                user.password@,
            ) == Some(true) && final(self)@[user.email@].password_hash.len() >= 10
                && final(self)@[user.email@].password_hash.subrange(0, 10) == "$argon2id$"@,
    {
        if self.find(&user.email).is_some() {
            return Err(UserStoreError::UserAlreadyExists);
        }
        match hash_new_password(&user.password) {
            Err(e) => Err(e),
            Ok(password_hash) => {
                let account = Account {
                    email: user.email,
                    password_hash,
                    requires_2fa: user.requires_2fa,
                };
                self.insert_account(account)
            },
        }
    }

    /// The account stored for `email`, or `UserNotFound`.
    pub fn get_user(&self, email: &Email) -> (r: Result<Account, UserStoreError>)
        requires
            self.wf(),
        ensures
            r is Err <==> !self@.contains_key(email@),
            r is Err ==> r == Err::<Account, UserStoreError>(UserStoreError::UserNotFound),
            r matches Ok(a) ==> a.email@ == email@ && a.summary() == self@[email@],
    {
        match self.find(email) {
            None => Err(UserStoreError::UserNotFound),
            Some(i) => {
                let a = &self.users[i];
                Ok(
                    Account {
                        email: a.email.clone(),
                        password_hash: a.password_hash.clone(),
                        requires_2fa: a.requires_2fa,
                    },
                )
            },
        }
    }

    /// Checks `password` against the hash stored for `email`.
    pub fn validate_user(&self, email: &Email, password: &Password) -> (r: Result<(), UserStoreError>)
        requires
            self.wf(),
        ensures
            r == validate_outcome(self@, email@, password@),
    {
        match self.find(email) {
            None => Err(UserStoreError::UserNotFound),
            Some(i) => {
                check_password(self.users[i].password_hash.as_str(), password)
            },
        }
    }
}

/// An account added with a password validates with that same password.
pub proof fn lemma_added_user_validates(
    before: Map<Seq<char>, AccountView>,
    after: Map<Seq<char>, AccountView>,
    email: Seq<char>,
    password: Seq<char>,
)
    requires
        after == before.insert(email, after[email]),
        argon2_check(after[email].password_hash, password) == Some(true),
    ensures
        validate_outcome(after, email, password) == Ok::<(), UserStoreError>(()),
{
}

/// Once an email is stored, adding it again is refused, whatever the password.
pub proof fn lemma_add_not_idempotent(
    before: Map<Seq<char>, AccountView>,
    after: Map<Seq<char>, AccountView>,
    email: Seq<char>,
)
    requires
        after == before.insert(email, after[email]),
    ensures
        after.contains_key(email),
{
}

} // verus!
