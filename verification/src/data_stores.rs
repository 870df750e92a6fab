use vstd::prelude::*;
use vstd::string::StrSliceExecFns;
use vstd::string::StringExecFns;

use rand::Rng;

use crate::codec::is_dec_digit;
use crate::codec::nibble_of;
use crate::codec::to_dec_fixed;
use crate::credentials::MAX_DIGEST_LEN;
use crate::email::Email;
use crate::password::Password;
use crate::user::User;

verus! {

// The three store interfaces the flows are wired over, and the two
// short-lived identifiers a second-factor challenge consists of.

/// What a credential store remembers per account: the credential text at
/// rest and the second-factor flag.
pub ghost struct StoredUser {
    pub credential: Seq<char>,
    pub requires_2fa: bool,
}

#[derive(Debug, Clone, Copy, PartialEq, Eq, Structural)]
pub enum UserStoreError {
    UserAlreadyExists,
    UserNotFound,
    InvalidCredentials,
    UnexpectedError,
}

#[derive(Debug, Clone, Copy, PartialEq, Eq, Structural)]
pub enum BannedTokenStoreError {
    UnexpectedError,
}

#[derive(Debug, Clone, Copy, PartialEq, Eq, Structural)]
pub enum TwoFACodeStoreError {
    LoginAttemptIdNotFound,
    UnexpectedError,
}

/// A credential store: one record per email, a credential at rest whose
/// meaning (`stored_matches`) the implementation picks, and atomic
/// insert-unless-present.
pub trait UserStore: Sized {
    /// The accounts at rest, keyed by email.
    spec fn users(&self) -> Map<Seq<char>, StoredUser>;

    /// Whether a credential at rest belongs to a submitted password.
    spec fn stored_matches(stored: Seq<char>, password: Seq<char>) -> bool;

    /// Registers the account unless its email is already taken.
    fn add_user(&mut self, user: User) -> (r: Result<(), UserStoreError>)
        requires
            user@.credential.len() <= MAX_DIGEST_LEN,
        ensures
            r is Ok <==> !old(self).users().contains_key(user@.email),
            r is Err ==> r == Err::<(), UserStoreError>(UserStoreError::UserAlreadyExists)
                && final(self).users() == old(self).users(),
            r is Ok ==> exists|cred: Seq<char>|
                final(self).users() == old(self).users().insert(
                    user@.email,
                    StoredUser { credential: cred, requires_2fa: user@.requires_2fa },
                ) && #[trigger] Self::stored_matches(cred, user@.credential),
    ;

    /// Returns the stored account, or `UserNotFound`.
    fn get_user(&self, email: &Email) -> (r: Result<User, UserStoreError>)
        ensures
            r is Ok <==> self.users().contains_key(email@),
            r matches Ok(u) ==> u@.email == email@ && u@.credential == self.users()[
                email@
            ].credential && u@.requires_2fa == self.users()[email@].requires_2fa,
            r is Err ==> r == Err::<User, UserStoreError>(UserStoreError::UserNotFound),
    ;

    /// Checks a password: `UserNotFound` for an unknown email,
    /// `InvalidCredentials` when the credential at rest does not match.
    fn validate_user(&self, email: &Email, password: &Password) -> (r: Result<
        (),
        UserStoreError,
    >)
        requires
            password@.len() <= MAX_DIGEST_LEN,
        ensures
            r is Ok <==> (self.users().contains_key(email@) && Self::stored_matches(
                self.users()[email@].credential,
                password@,
            )),
            r == Err::<(), UserStoreError>(UserStoreError::UserNotFound) <==> !self.users(
            ).contains_key(email@),
            r == Err::<(), UserStoreError>(UserStoreError::InvalidCredentials) <==> (self.users(
            ).contains_key(email@) && !Self::stored_matches(
                self.users()[email@].credential,
                password@,
            )),
    ;
}

/// A revocation store: the set of tokens that must no longer validate.
pub trait BannedTokenStore: Sized {
    /// The revoked tokens.
    spec fn tokens(&self) -> Set<Seq<char>>;

    /// Files a token as revoked.
    fn store_token(&mut self, token: String) -> (r: Result<(), BannedTokenStoreError>)
        ensures
            r is Ok,
            final(self).tokens() == old(self).tokens().insert(token@),
    ;

    /// Whether a token has been revoked.
    fn check_token(&self, token: &str) -> (r: Result<bool, BannedTokenStoreError>)
        ensures
            r is Ok,
            r matches Ok(b) ==> b == self.tokens().contains(token@),
    ;
}

/// A challenge store: at most one pending second-factor challenge per email;
/// a new one silently replaces any older one.
pub trait TwoFACodeStore: Sized {
    /// The pending challenges: email to attempt id and code.
    spec fn codes(&self) -> Map<Seq<char>, (Seq<char>, Seq<char>)>;

    /// Stores the challenge, replacing any pending one for this email.
    fn add_code(&mut self, email: Email, login_attempt_id: LoginAttemptId, code: TwoFACode) -> (r:
        Result<(), TwoFACodeStoreError>)
        ensures
            r is Ok,
            final(self).codes() == old(self).codes().insert(email@, (login_attempt_id@, code@)),
    ;

    /// Drops the pending challenge; called exactly once, after a successful
    /// verification, to enforce single use.
    fn remove_code(&mut self, email: &Email) -> (r: Result<(), TwoFACodeStoreError>)
        ensures
            r is Ok,
            final(self).codes() == old(self).codes().remove(email@),
    ;

    /// Returns the pending challenge, or `LoginAttemptIdNotFound`.
    fn get_code(&self, email: &Email) -> (r: Result<
        (LoginAttemptId, TwoFACode),
        TwoFACodeStoreError,
    >)
        ensures
            r is Ok <==> self.codes().contains_key(email@),
            r matches Ok(p) ==> p.0@ == self.codes()[email@].0 && p.1@ == self.codes()[email@].1,
            r is Err ==> r == Err::<(LoginAttemptId, TwoFACode), TwoFACodeStoreError>(
                TwoFACodeStoreError::LoginAttemptIdNotFound,
            ),
    ;
}

/// The key under which a keyed durable backend files a revoked token.
pub fn get_key(token: &str) -> (r: String)
    ensures
        r@ == "banned_token:"@ + token@,
{
    let mut s = String::from_str("banned_token:");
    s.append(token);
    s
}

/// Whether a text reads as a UUID. Decided by `uuid::Uuid::parse_str` and a
/// function of the text alone; named here, not restated.
pub uninterp spec fn is_uuid_text(s: Seq<char>) -> bool;

/// Relies on `uuid::Uuid::parse_str`: a deterministic check whether the text
/// reads as a UUID in one of the formats that crate accepts.
#[verifier::external_body]
fn uuid_shape_ok(s: &str) -> (r: bool)
    ensures
        r == is_uuid_text(s@),
{
    uuid::Uuid::parse_str(s).is_ok()
}

/// Relies on `uuid::Uuid::new_v4` and `uuid::Uuid::to_string`: the printed
/// hyphenated form is one of the formats `Uuid::parse_str` accepts back.
#[verifier::external_body]
fn random_uuid_text() -> (r: String)
    ensures
        is_uuid_text(r@),
{
    uuid::Uuid::new_v4().to_string()
}

/// Relies on `rand::Rng::gen_range` over the thread generator: the draw
/// lies within the given (non-empty) range.
#[verifier::external_body]
fn random_code_number() -> (r: u32)
    ensures
        100_000 <= r <= 999_999,
{
    rand::thread_rng().gen_range(100_000..=999_999)
}

/// The identifier minted for one login attempt that waits on its second
/// factor.
#[derive(Debug)]
pub struct LoginAttemptId(String);

impl View for LoginAttemptId {
    type V = Seq<char>;

    closed spec fn view(&self) -> Seq<char> {
        self.0@
    }
}

impl Clone for LoginAttemptId {
    fn clone(&self) -> (r: Self)
        ensures
            r@ == self@,
    {
        LoginAttemptId(self.0.clone())
    }
}

impl PartialEq for LoginAttemptId {
    fn eq(&self, other: &Self) -> (r: bool) {
        self.0 == other.0
    }
}

impl vstd::std_specs::cmp::PartialEqSpecImpl for LoginAttemptId {
    open spec fn obeys_eq_spec() -> bool {
        true
    }

    open spec fn eq_spec(&self, other: &Self) -> bool {
        self@ == other@
    }
}

impl LoginAttemptId {
    /// Accepts the input only if it reads as a UUID.
    pub fn parse(id: String) -> (r: Result<LoginAttemptId, String>)
        ensures
            r is Ok <==> is_uuid_text(id@),
            r is Ok ==> r->Ok_0@ == id@,
    {
        if uuid_shape_ok(id.as_str()) {
            Ok(LoginAttemptId(id))
        } else {
            Err(String::from_str("Invalid UUID"))
        }
    }

    pub fn as_str(&self) -> (r: &str)
        ensures
            r@ == self@,
    {
        self.0.as_str()
    }
}

impl Default for LoginAttemptId {
    /// A fresh random identifier; whatever was drawn, it reads as a UUID.
    fn default() -> (r: Self)
        ensures
            is_uuid_text(r@),
    {
        LoginAttemptId(random_uuid_text())
    }
}

/// The shape of a second-factor code: exactly six decimal digits.
pub open spec fn is_two_fa_code(s: Seq<char>) -> bool {
    s.len() == 6 && forall|i: int| 0 <= i < 6 ==> is_dec_digit(#[trigger] s[i])
}

/// The code sent over the second channel for one login attempt.
#[derive(Debug)]
pub struct TwoFACode(String);

impl View for TwoFACode {
    type V = Seq<char>;

    closed spec fn view(&self) -> Seq<char> {
        self.0@
    }
}

impl Clone for TwoFACode {
    fn clone(&self) -> (r: Self)
        ensures
            r@ == self@,
    {
        TwoFACode(self.0.clone())
    }
}

impl PartialEq for TwoFACode {
    fn eq(&self, other: &Self) -> (r: bool) {
        self.0 == other.0
    }
}

impl vstd::std_specs::cmp::PartialEqSpecImpl for TwoFACode {
    open spec fn obeys_eq_spec() -> bool {
        true
    }

    open spec fn eq_spec(&self, other: &Self) -> bool {
        self@ == other@
    }
}

impl TwoFACode {
    /// Accepts the input only if it is exactly six decimal digits.
    pub fn parse(code: String) -> (r: Result<TwoFACode, String>)
        ensures
            r is Ok <==> is_two_fa_code(code@),
            r is Ok ==> r->Ok_0@ == code@,
    {
        let n = code.as_str().unicode_len();
        if n != 6 {
            return Err(String::from_str("Not valid 6-digit code"));
        }
        let mut i: usize = 0;
        while i < 6
            invariant
                0 <= i <= 6,
                code@.len() == 6,
                forall|j: int| 0 <= j < i ==> is_dec_digit(#[trigger] code@[j]),
            decreases 6 - i,
        {
            let c = code.as_str().get_char(i);
            let d = digit_value(c);
            if d < 0 || d > 9 {
                proof {
                    assert(!is_dec_digit(code@[i as int]));
                }
                return Err(String::from_str("Not valid 6-digit code"));
            }
            i = i + 1;
        }
        Ok(TwoFACode(code))
    }

    pub fn as_str(&self) -> (r: &str)
        ensures
            r@ == self@,
    {
        self.0.as_str()
    }
}

/// The value of a decimal digit character, and -1 for any other character.
fn digit_value(c: char) -> (r: i32)
    ensures
        r as int == nibble_of(c) || (r == -1 && nibble_of(c) > 9),
        (0 <= r <= 9) == is_dec_digit(c),
{
    if c == '0' { 0 }
    else if c == '1' { 1 }
    else if c == '2' { 2 }
    else if c == '3' { 3 }
    else if c == '4' { 4 }
    else if c == '5' { 5 }
    else if c == '6' { 6 }
    else if c == '7' { 7 }
    else if c == '8' { 8 }
    else if c == '9' { 9 }
    else { -1 }
}

impl Default for TwoFACode {
    /// A fresh random six-digit code.
    fn default() -> (r: Self)
        ensures
            is_two_fa_code(r@),
    {
        let n = random_code_number();
        let s = to_dec_fixed(n as u64, 6);
        proof {
            crate::codec::lemma_dec_fixed_shape(n as int, 6);
        }
        TwoFACode(s)
    }
}

} // verus!
