//! Session tokens: a signed text that embeds an email address and an absolute
//! expiry. Its layout is the expiry as 20 decimal digits, then the 64-character
//! lower-case hex HMAC-SHA256 tag of expiry digits followed by the email, then
//! the email itself.
use crate::banned_token_store::HashsetBannedTokenStore;
use crate::domain::{is_valid_email, Email};
use crate::text::{
    all_digits, decimal_digits, decimal_prefix_value, decimal_text, decimal_value, digits_prefix,
    hex_of, hex_text, lemma_decimal_digits_all_digits, lemma_decimal_digits_len,
    lemma_decimal_round_trip, lemma_hex_of_len, pow10, same_text,
};
use hmac::{Hmac, Mac};
use sha2::Sha256;
use vstd::prelude::*;

verus! {

/// Number of decimal digits that hold the expiry.
pub const EXPIRY_DIGITS: usize = 20;

/// Number of hexadecimal characters that hold the tag.
pub const TAG_CHARS: usize = 64;

/// Where the email starts in a token.
pub const SUBJECT_START: usize = 84;

/// What `Hmac<Sha256>` computes over the UTF-8 bytes of `msg` with `key`.
pub uninterp spec fn hmac_sha256_of(key: Seq<u8>, msg: Seq<char>) -> Seq<u8>;

/// The 32-byte authentication tag of `msg` under `key`.
pub open spec fn tag_of(key: Seq<u8>, msg: Seq<char>) -> Seq<u8> {
    let t = hmac_sha256_of(key, msg);
    if t.len() == 32 {
        t
    } else {
        Seq::new(32, |_i: int| 0u8)
    }
}

/// Relies on hmac's `Hmac<Sha256>`: `Mac::new_from_slice` (which takes a key of
/// any length), `update` with the UTF-8 bytes of `msg`, then `finalize`, whose
/// output is the 32-byte SHA-256 size.
#[verifier::external_body]
fn hmac_sha256(key: &Vec<u8>, msg: &str) -> (r: Vec<u8>)
    ensures
        r@ == hmac_sha256_of(key@, msg@),
        r@.len() == 32,
{
    match <Hmac<Sha256> as Mac>::new_from_slice(key.as_slice()) {
        Ok(mut m) => {
            m.update(msg.as_bytes());
            m.finalize().into_bytes().to_vec()
        },
        Err(_) => Vec::new(),
    }
}

/// Why a token was refused.
#[derive(Debug, Clone, Copy, PartialEq, Eq, Structural)]
pub enum TokenError {
    /// The layout, the tag or the embedded email is wrong.
    Malformed,
    /// The embedded expiry has passed.
    Expired,
    /// The token was revoked.
    Revoked,
}

/// The text that the tag covers: expiry digits, then the email.
pub open spec fn token_payload(expires_at: nat, email: Seq<char>) -> Seq<char> {
    decimal_digits(expires_at, EXPIRY_DIGITS as nat) + email
}

/// The token for `email` that expires at `expires_at`, signed with `key`.
pub open spec fn token_text(key: Seq<u8>, expires_at: nat, email: Seq<char>) -> Seq<char> {
    decimal_digits(expires_at, EXPIRY_DIGITS as nat) + hex_of(
        tag_of(key, token_payload(expires_at, email)),
    ) + email
}

/// The expiry digits of a token.
pub open spec fn expiry_part(t: Seq<char>) -> Seq<char> {
    t.subrange(0, EXPIRY_DIGITS as int)
}

/// The tag characters of a token.
pub open spec fn tag_part(t: Seq<char>) -> Seq<char> {
    t.subrange(EXPIRY_DIGITS as int, SUBJECT_START as int)
}

/// The email of a token.
pub open spec fn subject_part(t: Seq<char>) -> Seq<char> {
    t.subrange(SUBJECT_START as int, t.len() as int)
}

/// Whether `t` has the token layout, a tag that `key` made, and a valid email.
pub open spec fn is_well_formed(key: Seq<u8>, t: Seq<char>) -> bool {
    &&& t.len() >= SUBJECT_START
    &&& all_digits(expiry_part(t))
    &&& tag_part(t) == hex_of(tag_of(key, expiry_part(t) + subject_part(t)))
    &&& is_valid_email(subject_part(t))
}

/// The verdict on token `t` at instant `now`: the layout and signature first,
/// then the expiry, then revocation.
pub open spec fn token_outcome(key: Seq<u8>, t: Seq<char>, now: u64, revoked: Set<Seq<char>>) -> Result<Seq<char>, TokenError> {
    if !is_well_formed(key, t) {
        Err(TokenError::Malformed)
    } else if decimal_value(expiry_part(t)) <= now as nat {
        Err(TokenError::Expired)
    } else if revoked.contains(t) {
        Err(TokenError::Revoked)
    } else {
        Ok(subject_part(t))
    }
}

/// Mints and checks session tokens with one signing key and one validity window.
pub struct TokenIssuer {
    key: Vec<u8>,
    ttl_secs: u64,
}

impl TokenIssuer {
    pub closed spec fn key(&self) -> Seq<u8> {
        self.key@
    }

    pub closed spec fn ttl(&self) -> nat {
        self.ttl_secs as nat
    }

    /// The validity window is a 64-bit number of seconds.
    pub proof fn lemma_ttl_bounded(&self)
        ensures
            self.ttl() <= u64::MAX as nat,
    {
    }

    /// An issuer that signs with `key` and makes tokens valid for `ttl_secs` seconds.
    pub fn new(key: Vec<u8>, ttl_secs: u64) -> (r: TokenIssuer)
        ensures
            r.key() == key@,
            r.ttl() == ttl_secs as nat,
    {
        TokenIssuer { key, ttl_secs }
    }

    /// The token for `email`, issued at instant `now`.
    pub fn issue(&self, email: &Email, now: u64) -> (r: String)
        ensures
            r@ == token_text(self.key(), now as nat + self.ttl(), email@),
    {
        let expires_at: u128 = now as u128 + self.ttl_secs as u128;
        let digits = decimal_text(expires_at, EXPIRY_DIGITS);
        let mut payload = digits.clone();
        payload.append(email.as_str());
        let tag = hmac_sha256(&self.key, payload.as_str());
        let tag_hex = hex_text(&tag);
        let mut token = digits;
        token.append(tag_hex.as_str());
        token.append(email.as_str());
        token
    }

    /// Checks `token` at instant `now`: `Malformed` unless it has the layout, a
    /// tag made with this key and a valid email; then `Expired` once its expiry
    /// is reached; then `Revoked` if `revoked` holds it; else its email.
    pub fn validate(&self, token: &str, now: u64, revoked: &HashsetBannedTokenStore) -> (r: Result<
        Email,
        TokenError,
    >)
        requires
            revoked.wf(),
        ensures
            r is Ok <==> token_outcome(self.key(), token@, now, revoked@) is Ok,
            r matches Ok(e) ==> token_outcome(self.key(), token@, now, revoked@) == Ok::<
                Seq<char>,
                TokenError,
            >(e@),
            r matches Err(x) ==> token_outcome(self.key(), token@, now, revoked@) == Err::<
                Seq<char>,
                TokenError,
            >(x),
    {
        let n = token.unicode_len();
        if n < SUBJECT_START {
            return Err(TokenError::Malformed);
        }
        if !digits_prefix(token, EXPIRY_DIGITS) {
            return Err(TokenError::Malformed);
        }
        let digits = token.substring_char(0, EXPIRY_DIGITS);
        let given_tag = token.substring_char(EXPIRY_DIGITS, SUBJECT_START);
        let subject = token.substring_char(SUBJECT_START, n);
        let mut payload = String::from_str(digits);
        payload.append(subject);
        let tag = hmac_sha256(&self.key, payload.as_str());
        let expected_tag = hex_text(&tag);
        if !same_text(expected_tag.as_str(), given_tag) {
            return Err(TokenError::Malformed);
        }
        let email = match Email::parse(String::from_str(subject)) {
            Ok(e) => e,
            Err(_) => return Err(TokenError::Malformed),
        };
        let expires_at = decimal_prefix_value(token, EXPIRY_DIGITS);
        if expires_at <= now as u128 {
            return Err(TokenError::Expired);
        }
        if revoked.is_banned(token) {
            return Err(TokenError::Revoked);
        }
        Ok(email)
    }
}

/// The parts of a freshly issued token read back as what went in.
pub proof fn lemma_token_parts(key: Seq<u8>, expires_at: nat, email: Seq<char>)
    requires
        expires_at < pow10(EXPIRY_DIGITS as nat),
    ensures
        token_text(key, expires_at, email).len() >= SUBJECT_START,
        expiry_part(token_text(key, expires_at, email)) == decimal_digits(
            expires_at,
            EXPIRY_DIGITS as nat,
        ),
        all_digits(expiry_part(token_text(key, expires_at, email))),
        decimal_value(expiry_part(token_text(key, expires_at, email))) == expires_at,
        tag_part(token_text(key, expires_at, email)) == hex_of(
            tag_of(key, token_payload(expires_at, email)),
        ),
        subject_part(token_text(key, expires_at, email)) == email,
{
    let d = decimal_digits(expires_at, EXPIRY_DIGITS as nat);
    let h = hex_of(tag_of(key, token_payload(expires_at, email)));
    lemma_decimal_digits_len(expires_at, EXPIRY_DIGITS as nat);
    lemma_decimal_digits_all_digits(expires_at, EXPIRY_DIGITS as nat);
    lemma_decimal_round_trip(expires_at, EXPIRY_DIGITS as nat);
    lemma_hex_of_len(tag_of(key, token_payload(expires_at, email)));
    let t = token_text(key, expires_at, email);
    assert(t == d + h + email);
    assert(expiry_part(t) =~= d);
    assert(tag_part(t) =~= h);
    assert(subject_part(t) =~= email);
}

/// Issue instants are seconds on a 64-bit clock, so any expiry fits the digits.
pub proof fn lemma_expiry_fits(now: u64, ttl: u64)
    ensures
        (now as nat + ttl as nat) < pow10(EXPIRY_DIGITS as nat),
{
    reveal_with_fuel(pow10, 21);
    assert(pow10(20) == 100000000000000000000nat);
}

/// A token is accepted until its expiry while it is not revoked: checked at an
/// instant before `issued_at + ttl`, the token issued for `email` gives `email` back.
pub proof fn lemma_issued_token_accepted(
    key: Seq<u8>,
    email: Seq<char>,
    issued_at: u64,
    ttl: u64,
    now: u64,
    revoked: Set<Seq<char>>,
)
    requires
        is_valid_email(email),
        (now as nat) < issued_at as nat + ttl as nat,
        !revoked.contains(token_text(key, issued_at as nat + ttl as nat, email)),
    ensures
        token_outcome(key, token_text(key, issued_at as nat + ttl as nat, email), now, revoked)
            == Ok::<Seq<char>, TokenError>(email),
{
    lemma_expiry_fits(issued_at, ttl);
    lemma_token_parts(key, issued_at as nat + ttl as nat, email);
}

/// A revoked token is refused as `Revoked` even while its signature and expiry
/// still hold.
pub proof fn lemma_revoked_token_refused(
    key: Seq<u8>,
    email: Seq<char>,
    issued_at: u64,
    ttl: u64,
    now: u64,
    revoked: Set<Seq<char>>,
)
    requires
        is_valid_email(email),
        (now as nat) < issued_at as nat + ttl as nat,
        revoked.contains(token_text(key, issued_at as nat + ttl as nat, email)),
    ensures
        token_outcome(key, token_text(key, issued_at as nat + ttl as nat, email), now, revoked)
            == Err::<Seq<char>, TokenError>(TokenError::Revoked),
{
    lemma_expiry_fits(issued_at, ttl);
    lemma_token_parts(key, issued_at as nat + ttl as nat, email);
}

/// Whatever a token is, once it is revoked it is refused.
pub proof fn lemma_revocation_refuses(key: Seq<u8>, t: Seq<char>, now: u64, revoked: Set<Seq<char>>)
    ensures
        token_outcome(key, t, now, revoked.insert(t)) is Err,
{
}

/// A token that `issuer` issued for `email` at `issued_at` is accepted, with
/// that email, at any instant before its validity window ends while it is not revoked.
pub proof fn lemma_issuer_token_accepted(
    issuer: TokenIssuer,
    email: Seq<char>,
    issued_at: u64,
    now: u64,
    revoked: Set<Seq<char>>,
)
    requires
        is_valid_email(email),
        (now as nat) < issued_at as nat + issuer.ttl(),
        !revoked.contains(token_text(issuer.key(), issued_at as nat + issuer.ttl(), email)),
    ensures
        token_outcome(
            issuer.key(),
            token_text(issuer.key(), issued_at as nat + issuer.ttl(), email),
            now,
            revoked,
        ) == Ok::<Seq<char>, TokenError>(email),
{
    lemma_issued_token_accepted(issuer.key(), email, issued_at, issuer.ttl_secs, now, revoked);
}

} // verus!
