//! Validated identity values: email address, password, one-time code and
//! login-attempt (challenge) identifier, and the signup record `User`.
use crate::text::{
    all_digits, decimal_digits, decimal_text, is_digit, lemma_decimal_digits_all_digits,
    lemma_decimal_digits_len,
};
use rand::Rng;
use vstd::prelude::*;

verus! {

/// Why a raw value was rejected.
#[derive(Debug, Clone, Copy, PartialEq, Eq, Structural)]
pub enum ParseError {
    InvalidEmail,
    InvalidPassword,
    InvalidTwoFACode,
    InvalidLoginAttemptId,
}

/// What `validator::validate_email` decides of a text.
pub uninterp spec fn is_valid_email(s: Seq<char>) -> bool;

/// Whether `c` is a hexadecimal digit, in either case.
pub open spec fn is_hex_char(c: char) -> bool {
    ('0' <= c && c <= '9') || ('a' <= c && c <= 'f') || ('A' <= c && c <= 'F')
}

/// Whether `s` is 32 hexadecimal digits.
pub open spec fn is_simple_uuid(s: Seq<char>) -> bool {
    s.len() == 32 && forall|i: int| 0 <= i < 32 ==> is_hex_char(#[trigger] s[i])
}

/// Whether `s` is 32 hexadecimal digits in groups of 8-4-4-4-12 joined by hyphens.
pub open spec fn is_hyphenated_uuid(s: Seq<char>) -> bool {
    &&& s.len() == 36
    &&& forall|i: int|
        0 <= i < 36 ==> if i == 8 || i == 13 || i == 18 || i == 23 {
            #[trigger] s[i] == '-'
        } else {
            is_hex_char(s[i])
        }
}

/// Whether `c` is the character `lower` in either case.
pub open spec fn same_letter_any_case(c: char, lower: char) -> bool {
    c == lower || (('a' <= lower && lower <= 'z') && c as int == lower as int - 32)
}

/// Whether `s` starts with `urn:uuid:` in any case.
pub open spec fn has_urn_prefix(s: Seq<char>) -> bool {
    s.len() >= 9 && forall|i: int| 0 <= i < 9 ==> same_letter_any_case(#[trigger] s[i], "urn:uuid:"@[i])
}

/// The UUID texts: simple, hyphenated, hyphenated in braces, or hyphenated
/// after a `urn:uuid:` prefix.
pub open spec fn is_uuid_text(s: Seq<char>) -> bool {
    ||| is_simple_uuid(s)
    ||| is_hyphenated_uuid(s)
    ||| (s.len() == 38 && s[0] == '{' && s[37] == '}' && is_hyphenated_uuid(s.subrange(1, 37)))
    ||| (s.len() == 45 && has_urn_prefix(s) && is_hyphenated_uuid(s.subrange(9, 45)))
}

/// Relies on `validator::validate_email` (HTML5 address shape); it rejects the empty text first.
#[verifier::external_body]
fn email_shape_ok(s: &str) -> (r: bool)
    ensures
        r == is_valid_email(s@),
        s@.len() == 0 ==> !r,
{
    validator::validate_email(s)
}

/// Relies on `uuid::Uuid::parse_str`: by length, 32 hex digits, or 36 bytes
/// with hyphens at 8, 13, 18 and 23 and hex digits elsewhere, or that in braces
/// (38), or that after `urn:uuid:` in any case (45). Hex digits are decoded in
/// either case, and every accepted text is ASCII, so bytes and characters agree.
#[verifier::external_body]
fn uuid_parses(s: &str) -> (r: bool)
    ensures
        r == is_uuid_text(s@),
{
    uuid::Uuid::parse_str(s).is_ok()
}

/// Relies on `uuid::Uuid::new_v4`: a fresh random UUID, whose text form is the
/// lower-case hyphenated one.
#[verifier::external_body]
fn new_uuid_text() -> (r: String)
    ensures
        is_hyphenated_uuid(r@),
{
    uuid::Uuid::new_v4().to_string()
}

/// Relies on `rand::thread_rng` and `Rng::gen_range`: a value drawn below `bound`.
#[verifier::external_body]
fn random_below(bound: u32) -> (r: u32)
    requires
        bound > 0,
    ensures
        r < bound,
{
    rand::thread_rng().gen_range(0..bound)
}

/// An email address accepted by the address validator. Equality is exact text equality.
#[derive(Debug)]
pub struct Email {
    text: String,
}

impl View for Email {
    type V = Seq<char>;

    closed spec fn view(&self) -> Seq<char> {
        self.text@
    }
}

impl Email {
    #[verifier::type_invariant]
    spec fn inv(&self) -> bool {
        is_valid_email(self.text@)
    }

    /// Accepts exactly the texts that the address validator accepts.
    pub fn parse(s: String) -> (r: Result<Email, ParseError>)
        ensures
            r is Ok <==> is_valid_email(s@),
            s@.len() == 0 ==> r is Err,
            r is Ok ==> r->Ok_0@ == s@,
            r is Err ==> r == Err::<Email, ParseError>(ParseError::InvalidEmail),
    {
        if email_shape_ok(s.as_str()) {
            Ok(Email { text: s })
        } else {
            Err(ParseError::InvalidEmail)
        }
    }

    pub fn as_str(&self) -> (r: &str)
        ensures
            r@ == self@,
            is_valid_email(r@),
    {
        proof {
            use_type_invariant(self);
        }
        self.text.as_str()
    }
}

impl Clone for Email {
    fn clone(&self) -> (r: Self)
        ensures
            r@ == self@,
    {
        proof {
            use_type_invariant(self);
        }
        Email { text: self.text.clone() }
    }
}

impl PartialEq for Email {
    fn eq(&self, other: &Email) -> (r: bool) {
        self.text == other.text
    }
}

impl vstd::std_specs::cmp::PartialEqSpecImpl for Email {
    open spec fn obeys_eq_spec() -> bool {
        true
    }

    open spec fn eq_spec(&self, other: &Email) -> bool {
        self@ == other@
    }
}

/// A password of at least eight characters, held as plain text only until it is hashed.
pub struct Password {
    text: String,
}

/// The fewest characters a password may have.
pub const MIN_PASSWORD_LEN: usize = 8;

impl View for Password {
    type V = Seq<char>;

    closed spec fn view(&self) -> Seq<char> {
        self.text@
    }
}

impl Password {
    #[verifier::type_invariant]
    spec fn inv(&self) -> bool {
        self.text@.len() >= MIN_PASSWORD_LEN
    }

    /// Accepts exactly the texts of at least eight characters.
    pub fn parse(s: String) -> (r: Result<Password, ParseError>)
        ensures
            r is Ok <==> s@.len() >= MIN_PASSWORD_LEN,
            r is Ok ==> r->Ok_0@ == s@,
            r is Err ==> r == Err::<Password, ParseError>(ParseError::InvalidPassword),
    {
        if s.as_str().unicode_len() < MIN_PASSWORD_LEN {
            Err(ParseError::InvalidPassword)
        } else {
            Ok(Password { text: s })
        }
    }

    /// The plain text, exposed for hashing or comparison.
    pub fn as_str(&self) -> (r: &str)
        ensures
            r@ == self@,
            r@.len() >= MIN_PASSWORD_LEN,
    {
        proof {
            use_type_invariant(self);
        }
        self.text.as_str()
    }
}

impl Clone for Password {
    fn clone(&self) -> (r: Self)
        ensures
            r@ == self@,
    {
        proof {
            use_type_invariant(self);
        }
        Password { text: self.text.clone() }
    }
}

impl PartialEq for Password {
    fn eq(&self, other: &Password) -> (r: bool) {
        self.text == other.text
    }
}

impl vstd::std_specs::cmp::PartialEqSpecImpl for Password {
    open spec fn obeys_eq_spec() -> bool {
        true
    }

    open spec fn eq_spec(&self, other: &Password) -> bool {
        self@ == other@
    }
}

/// Number of digits of a one-time code.
pub const CODE_LEN: usize = 6;

/// Number of distinct one-time codes, `000000` to `999999`.
pub const CODE_SPACE: u32 = 1000000;

/// Whether `s` is a one-time code: exactly six ASCII digits.
pub open spec fn is_code_text(s: Seq<char>) -> bool {
    s.len() == CODE_LEN && all_digits(s)
}

/// A one-time code: exactly six ASCII digits, leading zeros included.
pub struct TwoFACode {
    text: String,
}

impl View for TwoFACode {
    type V = Seq<char>;

    closed spec fn view(&self) -> Seq<char> {
        self.text@
    }
}

impl TwoFACode {
    #[verifier::type_invariant]
    spec fn inv(&self) -> bool {
        is_code_text(self.text@)
    }

    /// Accepts exactly the texts of six ASCII digits.
    pub fn parse(s: String) -> (r: Result<TwoFACode, ParseError>)
        ensures
            r is Ok <==> is_code_text(s@),
            r is Ok ==> r->Ok_0@ == s@,
            r is Err ==> r == Err::<TwoFACode, ParseError>(ParseError::InvalidTwoFACode),
    {
        let n = s.as_str().unicode_len();
        if n != CODE_LEN {
            return Err(ParseError::InvalidTwoFACode);
        }
        let mut i: usize = 0;
        while i < n
            invariant
                i <= n,
                n == s@.len(),
                forall|j: int| 0 <= j < i ==> is_digit(#[trigger] s@[j]),
            decreases n - i,
        {
            let c = s.as_str().get_char(i);
            if !('0' <= c && c <= '9') {
                return Err(ParseError::InvalidTwoFACode);
            }
            i = i + 1;
        }
        Ok(TwoFACode { text: s })
    }

    /// The code whose six digits spell `n`, zero-padded.
    pub fn from_number(n: u32) -> (r: TwoFACode)
        requires
            n < CODE_SPACE,
        ensures
            r@ == decimal_digits(n as nat, CODE_LEN as nat),
            is_code_text(r@),
    {
        let text = decimal_text(n as u128, CODE_LEN);
        proof {
            lemma_decimal_digits_len(n as nat, CODE_LEN as nat);
            lemma_decimal_digits_all_digits(n as nat, CODE_LEN as nat);
        }
        TwoFACode { text }
    }

    pub fn as_str(&self) -> (r: &str)
        ensures
            r@ == self@,
            is_code_text(r@),
    {
        proof {
            use_type_invariant(self);
        }
        self.text.as_str()
    }
}

impl Default for TwoFACode {
    /// A code drawn from all one million six-digit values.
    fn default() -> (r: Self)
        ensures
            is_code_text(r@),
    {
        let n = random_below(CODE_SPACE);
        TwoFACode::from_number(n)
    }
}

impl Clone for TwoFACode {
    fn clone(&self) -> (r: Self)
        ensures
            r@ == self@,
    {
        proof {
            use_type_invariant(self);
        }
        TwoFACode { text: self.text.clone() }
    }
}

impl PartialEq for TwoFACode {
    fn eq(&self, other: &TwoFACode) -> (r: bool) {
        self.text == other.text
    }
}

impl vstd::std_specs::cmp::PartialEqSpecImpl for TwoFACode {
    open spec fn obeys_eq_spec() -> bool {
        true
    }

    open spec fn eq_spec(&self, other: &TwoFACode) -> bool {
        self@ == other@
    }
}

/// Identifier of one login attempt (a two-factor challenge): a UUID text.
#[derive(Debug)]
pub struct LoginAttemptId {
    text: String,
}

impl View for LoginAttemptId {
    type V = Seq<char>;

    closed spec fn view(&self) -> Seq<char> {
        self.text@
    }
}

impl LoginAttemptId {
    #[verifier::type_invariant]
    spec fn inv(&self) -> bool {
        is_uuid_text(self.text@)
    }

    /// Accepts exactly the UUID texts, kept as given.
    pub fn parse(s: String) -> (r: Result<LoginAttemptId, ParseError>)
        ensures
            r is Ok <==> is_uuid_text(s@),
            r is Ok ==> r->Ok_0@ == s@,
            r is Err ==> r == Err::<LoginAttemptId, ParseError>(
                ParseError::InvalidLoginAttemptId,
            ),
    {
        if uuid_parses(s.as_str()) {
            Ok(LoginAttemptId { text: s })
        } else {
            Err(ParseError::InvalidLoginAttemptId)
        }
    }

    pub fn as_str(&self) -> (r: &str)
        ensures
            r@ == self@,
            is_uuid_text(r@),
    {
        proof {
            use_type_invariant(self);
        }
        self.text.as_str()
    }
}

impl Default for LoginAttemptId {
    /// A fresh random identifier.
    fn default() -> (r: Self)
        ensures
            is_uuid_text(r@),
    {
        LoginAttemptId { text: new_uuid_text() }
    }
}

impl Clone for LoginAttemptId {
    fn clone(&self) -> (r: Self)
        ensures
            r@ == self@,
    {
        proof {
            use_type_invariant(self);
        }
        LoginAttemptId { text: self.text.clone() }
    }
}

impl PartialEq for LoginAttemptId {
    fn eq(&self, other: &LoginAttemptId) -> (r: bool) {
        self.text == other.text
    }
}

impl vstd::std_specs::cmp::PartialEqSpecImpl for LoginAttemptId {
    open spec fn obeys_eq_spec() -> bool {
        true
    }

    open spec fn eq_spec(&self, other: &LoginAttemptId) -> bool {
        self@ == other@
    }
}

/// What a signup hands to the user store: the address, the password in plain
/// text, and whether logins need a second factor.
pub struct User {
    pub email: Email,
    pub password: Password,
    pub requires_2fa: bool,
}

impl User {
    pub fn new(email: Email, password: Password, requires_2fa: bool) -> (r: User)
        ensures
            r.email@ == email@,
            r.password@ == password@,
            r.requires_2fa == requires_2fa,
    {
        User { email, password, requires_2fa }
    }
}

} // verus!
