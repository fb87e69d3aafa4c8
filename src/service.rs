//! The login and two-factor protocol over the three stores and the token issuer.
use crate::banned_token_store::HashsetBannedTokenStore;
use crate::domain::{
    is_code_text, is_uuid_text, is_valid_email, Email, LoginAttemptId, Password, TwoFACode, User,
    MIN_PASSWORD_LEN,
};
use crate::hashing::{argon2_check, MAX_HASHABLE_PASSWORD_CHARS};
use crate::token::{lemma_issued_token_accepted, token_outcome, token_text, TokenError, TokenIssuer};
use crate::two_fa_code_store::{expiry_after, is_pending, ChallengeView, HashmapTwoFACodeStore};
use crate::user_store::{
    hash_new_password, validate_outcome, Account, AccountView, HashmapUserStore, UserStoreError,
};
use vstd::prelude::*;

verus! {

/// Failures that the protocol reports to its caller.
#[derive(Debug, Clone, Copy, PartialEq, Eq, Structural)]
pub enum AuthAPIError {
    UserAlreadyExists,
    /// A malformed input value, refused before any store is touched.
    InvalidCredentials,
    /// Unknown email, wrong password or wrong second factor, told apart nowhere.
    IncorrectCredentials,
    /// No session token came with the request.
    MissingToken,
    InvalidToken,
    UnexpectedError,
}

/// The body of a successful signup.
pub struct SignupResponse {
    pub message: String,
}

/// The fields of a two-factor verification.
pub struct Verify2FARequest {
    pub email: String,
    pub login_attempt_id: String,
    pub two_fa_code: String,
}

/// The field of a token check.
pub struct VerifyTokenRequest {
    pub token: String,
}

/// What a successful login hands back.
pub enum LoginOutcome {
    /// No second factor: the session token.
    Authenticated(String),
    /// A second factor is needed: the identifier of the challenge that was issued.
    TwoFactorRequired(LoginAttemptId),
}

/// Whether `s` parses as a password.
pub open spec fn is_password_text(s: Seq<char>) -> bool {
    s.len() >= MIN_PASSWORD_LEN
}

/// The first login step on the accounts `users`: `Ok` with the account's
/// second-factor flag when the credentials hold.
pub open spec fn credentials_outcome(users: Map<Seq<char>, AccountView>, email: Seq<char>, password: Seq<char>) -> Result<bool, AuthAPIError> {
    if !is_valid_email(email) || !is_password_text(password) {
        Err(AuthAPIError::InvalidCredentials)
    } else {
        match validate_outcome(users, email, password) {
            Ok(()) => Ok(users[email].requires_2fa),
            Err(UserStoreError::UnexpectedError) => Err(AuthAPIError::UnexpectedError),
            Err(_) => Err(AuthAPIError::IncorrectCredentials),
        }
    }
}

/// The verdict on a second-factor submission at instant `now` against the challenges `codes`.
pub open spec fn second_factor_outcome(
    codes: Map<Seq<char>, ChallengeView>,
    email: Seq<char>,
    login_attempt_id: Seq<char>,
    code: Seq<char>,
    now: u64,
) -> Result<(), AuthAPIError> {
    if !is_valid_email(email) || !is_uuid_text(login_attempt_id) || !is_code_text(code) {
        Err(AuthAPIError::InvalidCredentials)
    } else if !is_pending(codes, email, now) || codes[email].login_attempt_id != login_attempt_id
        || codes[email].code != code {
        Err(AuthAPIError::IncorrectCredentials)
    } else {
        Ok(())
    }
}

/// How a store failure of the credential check is reported.
pub fn credentials_error(e: UserStoreError) -> (r: AuthAPIError)
    ensures
        e == UserStoreError::UnexpectedError ==> r == AuthAPIError::UnexpectedError,
        e != UserStoreError::UnexpectedError ==> r == AuthAPIError::IncorrectCredentials,
{
    match e {
        UserStoreError::UnexpectedError => AuthAPIError::UnexpectedError,
        _ => AuthAPIError::IncorrectCredentials,
    }
}

/// The slow half of a signup, which touches no store: parses the fields and
/// hashes the password.
pub fn prepare_signup(email: String, password: String) -> (r: Result<(Email, String), AuthAPIError>)
    ensures
        !is_valid_email(email@) || !is_password_text(password@) ==> r == Err::<
            (Email, String),
            AuthAPIError,
        >(AuthAPIError::InvalidCredentials),
        is_valid_email(email@) && is_password_text(password@) && password@.len()
            <= MAX_HASHABLE_PASSWORD_CHARS ==> r is Ok,
        r is Err && is_valid_email(email@) && is_password_text(password@) ==> r == Err::<
            (Email, String),
            AuthAPIError,
        >(AuthAPIError::UnexpectedError),
        r matches Ok((e, h)) ==> e@ == email@ && argon2_check(h@, password@) == Some(true),
{
    let email = match Email::parse(email) {
        Ok(e) => e,
        Err(_) => return Err(AuthAPIError::InvalidCredentials),
    };
    let password = match Password::parse(password) {
        Ok(p) => p,
        Err(_) => return Err(AuthAPIError::InvalidCredentials),
    };
    match hash_new_password(&password) {
        Ok(h) => Ok((email, h)),
        Err(_) => Err(AuthAPIError::UnexpectedError),
    }
}

/// The authentication core: the stores, the token issuer, and the protocol.
pub struct AuthService {
    pub user_store: HashmapUserStore,
    pub banned_token_store: HashsetBannedTokenStore,
    pub two_fa_code_store: HashmapTwoFACodeStore,
    pub token_issuer: TokenIssuer,
}

impl AuthService {
    pub open spec fn wf(&self) -> bool {
        &&& self.user_store.wf()
        &&& self.banned_token_store.wf()
        &&& self.two_fa_code_store.wf()
    }

    /// A service with empty stores and the given issuer.
    pub fn new(token_issuer: TokenIssuer) -> (r: AuthService)
        ensures
            r.wf(),
            r.user_store@ == Map::<Seq<char>, AccountView>::empty(),
            r.banned_token_store@ == Set::<Seq<char>>::empty(),
            r.two_fa_code_store@ == Map::<Seq<char>, ChallengeView>::empty(),
            r.token_issuer == token_issuer,
    {
        AuthService {
            user_store: HashmapUserStore::new(),
            banned_token_store: HashsetBannedTokenStore::new(),
            two_fa_code_store: HashmapTwoFACodeStore::new(),
            token_issuer,
        }
    }

    /// Registers an account. A malformed email or password is
    /// `InvalidCredentials`, a known email `UserAlreadyExists`, a hashing
    /// failure `UnexpectedError`.
    pub fn signup(&mut self, email: String, password: String, requires_2fa: bool) -> (r: Result<
        SignupResponse,
        AuthAPIError,
    >)
        requires
            old(self).wf(),
        ensures
            final(self).wf(),
            final(self).banned_token_store@ == old(self).banned_token_store@,
            final(self).two_fa_code_store@ == old(self).two_fa_code_store@,
            final(self).token_issuer == old(self).token_issuer,
            !is_valid_email(email@) || !is_password_text(password@) ==> r
                == Err::<SignupResponse, AuthAPIError>(AuthAPIError::InvalidCredentials),
            is_valid_email(email@) && is_password_text(password@) && old(self).user_store@.contains_key(
                email@,
            ) ==> r == Err::<SignupResponse, AuthAPIError>(AuthAPIError::UserAlreadyExists),
            r is Err ==> final(self).user_store@ == old(self).user_store@,
            r is Err && is_valid_email(email@) && is_password_text(password@)
                && !old(self).user_store@.contains_key(email@) ==> r == Err::<
                SignupResponse,
                AuthAPIError,
            >(AuthAPIError::UnexpectedError),
            is_valid_email(email@) && is_password_text(password@) && password@.len()
                <= MAX_HASHABLE_PASSWORD_CHARS && !old(self).user_store@.contains_key(email@) ==> r is Ok,
            r is Ok ==> is_valid_email(email@) && is_password_text(password@)
                && !old(self).user_store@.contains_key(email@) && final(self).user_store@ == old(self).user_store@.insert(email@, final(self).user_store@[email@])
                && final(self).user_store@[email@].requires_2fa == requires_2fa && argon2_check(
                final(self).user_store@[email@].password_hash,
                password@,
            ) == Some(true),
    {
        let ghost email_text = email@;
        let ghost password_text = password@;
        let email = match Email::parse(email) {
            Ok(e) => e,
            Err(_) => return Err(AuthAPIError::InvalidCredentials),
        };
        let password = match Password::parse(password) {
            Ok(p) => p,
            Err(_) => return Err(AuthAPIError::InvalidCredentials),
        };
        let user = User::new(email, password, requires_2fa);
        match self.user_store.add_user(user) {
            Ok(()) => Ok(SignupResponse { message: String::from_str("User created successfully!") }),
            Err(UserStoreError::UserAlreadyExists) => Err(AuthAPIError::UserAlreadyExists),
            Err(_) => Err(AuthAPIError::UnexpectedError),
        }
    }

    /// The fast half of a signup: stores an account whose password was hashed
    /// by `prepare_signup`, unless the email is known.
    pub fn register_hashed(&mut self, email: Email, password_hash: String, requires_2fa: bool) -> (r: Result<
        SignupResponse,
        AuthAPIError,
    >)
        requires
            old(self).wf(),
        ensures
            final(self).wf(),
            final(self).banned_token_store@ == old(self).banned_token_store@,
            final(self).two_fa_code_store@ == old(self).two_fa_code_store@,
            final(self).token_issuer == old(self).token_issuer,
            old(self).user_store@.contains_key(email@) ==> r == Err::<SignupResponse, AuthAPIError>(
                AuthAPIError::UserAlreadyExists,
            ) && final(self).user_store@ == old(self).user_store@,
            !old(self).user_store@.contains_key(email@) ==> r is Ok && final(self).user_store@
                == old(self).user_store@.insert(
                email@,
                AccountView { password_hash: password_hash@, requires_2fa },
            ),
    {
        let account = Account { email, password_hash, requires_2fa };
        match self.user_store.insert_account(account) {
            Ok(()) => Ok(SignupResponse { message: String::from_str("User created successfully!") }),
            Err(_) => Err(AuthAPIError::UserAlreadyExists),
        }
    }

    /// The first login step, which changes nothing: `Ok` with the parsed email
    /// and the account's second-factor flag when the credentials hold.
    pub fn check_credentials(&self, email: String, password: String) -> (r: Result<(Email, bool), AuthAPIError>)
        requires
            self.wf(),
        ensures
            r is Ok <==> credentials_outcome(self.user_store@, email@, password@) is Ok,
            r matches Ok((e, b)) ==> e@ == email@ && credentials_outcome(
                self.user_store@,
                email@,
                password@,
            ) == Ok::<bool, AuthAPIError>(b),
            r matches Err(x) ==> credentials_outcome(self.user_store@, email@, password@) == Err::<
                bool,
                AuthAPIError,
            >(x),
    {
        let email = match Email::parse(email) {
            Ok(e) => e,
            Err(_) => return Err(AuthAPIError::InvalidCredentials),
        };
        let password = match Password::parse(password) {
            Ok(p) => p,
            Err(_) => return Err(AuthAPIError::InvalidCredentials),
        };
        match self.user_store.validate_user(&email, &password) {
            Ok(()) => {},
            Err(e) => return Err(credentials_error(e)),
        }
        match self.user_store.get_user(&email) {
            Ok(a) => Ok((email, a.requires_2fa)),
            Err(_) => Err(AuthAPIError::UnexpectedError),
        }
    }

    /// The second login step, after the credentials held: without a second
    /// factor, the session token issued at `now`; with one, the given challenge
    /// is issued and its identifier returned.
    pub fn start_session(
        &mut self,
        email: Email,
        requires_2fa: bool,
        now: u64,
        login_attempt_id: LoginAttemptId,
        code: TwoFACode,
    ) -> (r: Result<LoginOutcome, AuthAPIError>)
        requires
            old(self).wf(),
        ensures
            final(self).wf(),
            final(self).user_store@ == old(self).user_store@,
            final(self).banned_token_store@ == old(self).banned_token_store@,
            final(self).token_issuer == old(self).token_issuer,
            !requires_2fa ==> (r matches Ok(LoginOutcome::Authenticated(t)) && t@ == token_text(
                old(self).token_issuer.key(),
                now as nat + old(self).token_issuer.ttl(),
                email@,
            )) && final(self).two_fa_code_store@ == old(self).two_fa_code_store@,
            requires_2fa ==> (r matches Ok(LoginOutcome::TwoFactorRequired(id)) && id@
                == login_attempt_id@) && final(self).two_fa_code_store@
                == old(self).two_fa_code_store@.insert(
                email@,
                ChallengeView {
                    login_attempt_id: login_attempt_id@,
                    code: code@,
                    expires_at: expiry_after(now),
                },
            ),
    {
        if !requires_2fa {
            let token = self.token_issuer.issue(&email, now);
            return Ok(LoginOutcome::Authenticated(token));
        }
        let id = login_attempt_id.clone();
        match self.two_fa_code_store.add_code(email, login_attempt_id, code, now) {
            Ok(()) => Ok(LoginOutcome::TwoFactorRequired(id)),
            Err(_) => Err(AuthAPIError::UnexpectedError),
        }
    }

    /// Logs in with the given challenge identifier and code for the case that
    /// the account needs a second factor: without one, the session token issued
    /// at `now`; with one, that challenge is issued and its identifier returned.
    pub fn login_with(
        &mut self,
        email: String,
        password: String,
        now: u64,
        login_attempt_id: LoginAttemptId,
        code: TwoFACode,
    ) -> (r: Result<LoginOutcome, AuthAPIError>)
        requires
            old(self).wf(),
        ensures
            final(self).wf(),
            final(self).user_store@ == old(self).user_store@,
            final(self).banned_token_store@ == old(self).banned_token_store@,
            final(self).token_issuer == old(self).token_issuer,
            credentials_outcome(old(self).user_store@, email@, password@) matches Err(x) ==> r
                == Err::<LoginOutcome, AuthAPIError>(x) && final(self).two_fa_code_store@ == old(self).two_fa_code_store@,
            credentials_outcome(old(self).user_store@, email@, password@) == Ok::<
                bool,
                AuthAPIError,
            >(false) ==> (r matches Ok(LoginOutcome::Authenticated(t)) && t@ == token_text(
                old(self).token_issuer.key(),
                now as nat + old(self).token_issuer.ttl(),
                email@,
            )) && final(self).two_fa_code_store@ == old(self).two_fa_code_store@,
            credentials_outcome(old(self).user_store@, email@, password@) == Ok::<
                bool,
                AuthAPIError,
            >(true) ==> (r matches Ok(LoginOutcome::TwoFactorRequired(id)) && id@
                == login_attempt_id@) && final(self).two_fa_code_store@ == old(self).two_fa_code_store@.insert(
                email@,
                ChallengeView {
                    login_attempt_id: login_attempt_id@,
                    code: code@,
                    expires_at: expiry_after(now),
                },
            ),
    {
        let (email, requires_2fa) = match self.check_credentials(email, password) {
            Ok(found) => found,
            Err(e) => return Err(e),
        };
        self.start_session(email, requires_2fa, now, login_attempt_id, code)
    }

    /// Logs in at instant `now`. Where a second factor is needed, a fresh random
    /// challenge identifier and code are drawn and issued.
    pub fn login(&mut self, email: String, password: String, now: u64) -> (r: Result<
        LoginOutcome,
        AuthAPIError,
    >)
        requires
            old(self).wf(),
        ensures
            final(self).wf(),
            final(self).user_store@ == old(self).user_store@,
            final(self).banned_token_store@ == old(self).banned_token_store@,
            final(self).token_issuer == old(self).token_issuer,
            credentials_outcome(old(self).user_store@, email@, password@) matches Err(x) ==> r
                == Err::<LoginOutcome, AuthAPIError>(x) && final(self).two_fa_code_store@ == old(self).two_fa_code_store@,
            credentials_outcome(old(self).user_store@, email@, password@) == Ok::<
                bool,
                AuthAPIError,
            >(false) ==> (r matches Ok(LoginOutcome::Authenticated(t)) && t@ == token_text(
                old(self).token_issuer.key(),
                now as nat + old(self).token_issuer.ttl(),
                email@,
            )) && final(self).two_fa_code_store@ == old(self).two_fa_code_store@,
            credentials_outcome(old(self).user_store@, email@, password@) == Ok::<
                bool,
                AuthAPIError,
            >(true) ==> (r matches Ok(LoginOutcome::TwoFactorRequired(id)) && is_uuid_text(id@)
                && final(self).two_fa_code_store@ == old(self).two_fa_code_store@.insert(
                email@,
                ChallengeView {
                    login_attempt_id: id@,
                    code: final(self).two_fa_code_store@[email@].code,
                    expires_at: expiry_after(now),
                },
            ) && is_code_text(final(self).two_fa_code_store@[email@].code)),
    {
        let login_attempt_id = LoginAttemptId::default();
        let code = TwoFACode::default();
        self.login_with(email, password, now, login_attempt_id, code)
    }

    /// Completes a two-factor login at instant `now`: malformed fields are
    /// `InvalidCredentials`; no pending challenge or a mismatch is
    /// `IncorrectCredentials` and leaves the challenge as it was; a match
    /// consumes the challenge and returns a session token.
    pub fn verify_2fa(&mut self, request: Verify2FARequest, now: u64) -> (r: Result<String, AuthAPIError>)
        requires
            old(self).wf(),
        ensures
            final(self).wf(),
            final(self).user_store@ == old(self).user_store@,
            final(self).banned_token_store@ == old(self).banned_token_store@,
            final(self).token_issuer == old(self).token_issuer,
            second_factor_outcome(
                old(self).two_fa_code_store@,
                request.email@,
                request.login_attempt_id@,
                request.two_fa_code@,
                now,
            ) matches Err(x) ==> r == Err::<String, AuthAPIError>(x) && final(self).two_fa_code_store@ == old(self).two_fa_code_store@,
            second_factor_outcome(
                old(self).two_fa_code_store@,
                request.email@,
                request.login_attempt_id@,
                request.two_fa_code@,
                now,
            ) is Ok ==> (r matches Ok(t) && t@ == token_text(
                old(self).token_issuer.key(),
                now as nat + old(self).token_issuer.ttl(),
                request.email@,
            )) && final(self).two_fa_code_store@ == old(self).two_fa_code_store@.remove(
                request.email@,
            ),
    {
        let email = match Email::parse(request.email) {
            Ok(e) => e,
            Err(_) => return Err(AuthAPIError::InvalidCredentials),
        };
        let login_attempt_id = match LoginAttemptId::parse(request.login_attempt_id) {
            Ok(id) => id,
            Err(_) => return Err(AuthAPIError::InvalidCredentials),
        };
        let code = match TwoFACode::parse(request.two_fa_code) {
            Ok(c) => c,
            Err(_) => return Err(AuthAPIError::InvalidCredentials),
        };
        let (stored_id, stored_code) = match self.two_fa_code_store.get_code(&email, now) {
            Ok(pair) => pair,
            Err(_) => return Err(AuthAPIError::IncorrectCredentials),
        };
        if !(stored_id == login_attempt_id) || !(stored_code == code) {
            return Err(AuthAPIError::IncorrectCredentials);
        }
        match self.two_fa_code_store.remove_code(&email, now) {
            Ok(()) => {},
            Err(_) => return Err(AuthAPIError::IncorrectCredentials),
        }
        Ok(self.token_issuer.issue(&email, now))
    }

    /// The email of a token that is valid at instant `now`, else `InvalidToken`.
    pub fn verify_token(&self, request: &VerifyTokenRequest, now: u64) -> (r: Result<Email, AuthAPIError>)
        requires
            self.wf(),
        ensures
            r is Ok <==> token_outcome(
                self.token_issuer.key(),
                request.token@,
                now,
                self.banned_token_store@,
            ) is Ok,
            r matches Ok(e) ==> token_outcome(
                self.token_issuer.key(),
                request.token@,
                now,
                self.banned_token_store@,
            ) == Ok::<Seq<char>, TokenError>(e@),
            r is Err ==> r == Err::<Email, AuthAPIError>(AuthAPIError::InvalidToken),
    {
        match self.token_issuer.validate(request.token.as_str(), now, &self.banned_token_store) {
            Ok(e) => Ok(e),
            Err(_) => Err(AuthAPIError::InvalidToken),
        }
    }

    /// Ends a session: a token that is valid at instant `now` is revoked;
    /// any other is `InvalidToken` and nothing changes.
    pub fn logout(&mut self, token: String, now: u64) -> (r: Result<(), AuthAPIError>)
        requires
            old(self).wf(),
        ensures
            final(self).wf(),
            final(self).user_store@ == old(self).user_store@,
            final(self).two_fa_code_store@ == old(self).two_fa_code_store@,
            final(self).token_issuer == old(self).token_issuer,
            r is Ok <==> token_outcome(
                old(self).token_issuer.key(),
                token@,
                now,
                old(self).banned_token_store@,
            ) is Ok,
            r is Ok ==> final(self).banned_token_store@ == old(self).banned_token_store@.insert(
                token@,
            ),
            r is Err ==> r == Err::<(), AuthAPIError>(AuthAPIError::InvalidToken) && final(self).banned_token_store@ == old(self).banned_token_store@,
    {
        match self.token_issuer.validate(token.as_str(), now, &self.banned_token_store) {
            Ok(_) => {},
            Err(_) => return Err(AuthAPIError::InvalidToken),
        }
        self.banned_token_store.ban_token(token);
        Ok(())
    }
}

/// Signing up without a second factor, then logging in with the same
/// password, passes the credential step with no second factor, and the session
/// token issued then is accepted for that email until it expires.
pub proof fn lemma_login_without_second_factor(
    before: Map<Seq<char>, AccountView>,
    after: Map<Seq<char>, AccountView>,
    email: Seq<char>,
    password: Seq<char>,
    key: Seq<u8>,
    ttl: u64,
    login_at: u64,
    check_at: u64,
    revoked: Set<Seq<char>>,
)
    requires
        is_valid_email(email),
        is_password_text(password),
        after == before.insert(email, after[email]),
        !after[email].requires_2fa,
        argon2_check(after[email].password_hash, password) == Some(true),
        (check_at as nat) < login_at as nat + ttl as nat,
        !revoked.contains(token_text(key, login_at as nat + ttl as nat, email)),
    ensures
        credentials_outcome(after, email, password) == Ok::<bool, AuthAPIError>(false),
        token_outcome(key, token_text(key, login_at as nat + ttl as nat, email), check_at, revoked)
            == Ok::<Seq<char>, TokenError>(email),
{
    lemma_issued_token_accepted(key, email, login_at, ttl, check_at, revoked);
}

/// Signing up with a second factor, then logging in, passes the credential
/// step asking for the second factor; the challenge then issued is accepted
/// once before it expires, and a second submission of the same values is refused.
pub proof fn lemma_second_factor_accepted_once(
    before: Map<Seq<char>, AccountView>,
    after: Map<Seq<char>, AccountView>,
    codes: Map<Seq<char>, ChallengeView>,
    email: Seq<char>,
    password: Seq<char>,
    login_attempt_id: Seq<char>,
    code: Seq<char>,
    issued_at: u64,
    now: u64,
    later: u64,
)
    requires
        is_valid_email(email),
        is_password_text(password),
        is_uuid_text(login_attempt_id),
        is_code_text(code),
        after == before.insert(email, after[email]),
        after[email].requires_2fa,
        argon2_check(after[email].password_hash, password) == Some(true),
        (now as nat) < expiry_after(issued_at),
    ensures
        credentials_outcome(after, email, password) == Ok::<bool, AuthAPIError>(true),
        second_factor_outcome(
            codes.insert(
                email,
                ChallengeView { login_attempt_id, code, expires_at: expiry_after(issued_at) },
            ),
            email,
            login_attempt_id,
            code,
            now,
        ) == Ok::<(), AuthAPIError>(()),
        second_factor_outcome(
            codes.insert(
                email,
                ChallengeView { login_attempt_id, code, expires_at: expiry_after(issued_at) },
            ).remove(email),
            email,
            login_attempt_id,
            code,
            later,
        ) == Err::<(), AuthAPIError>(AuthAPIError::IncorrectCredentials),
{
}

/// A new challenge for an email replaces the earlier one: submitting the
/// earlier identifier and code is refused when either differs from the new ones.
pub proof fn lemma_reissue_invalidates(
    codes: Map<Seq<char>, ChallengeView>,
    email: Seq<char>,
    first: ChallengeView,
    second: ChallengeView,
    now: u64,
)
    requires
        first.login_attempt_id != second.login_attempt_id || first.code != second.code,
    ensures
        second_factor_outcome(
            codes.insert(email, first).insert(email, second),
            email,
            first.login_attempt_id,
            first.code,
            now,
        ) is Err,
{
}

} // verus!
