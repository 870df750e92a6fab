use vstd::prelude::*;
use vstd::string::StringExecFns;

use crate::credentials::MAX_DIGEST_LEN;
use crate::data_stores::is_two_fa_code;
use crate::data_stores::is_uuid_text;
use crate::data_stores::BannedTokenStore;
use crate::data_stores::LoginAttemptId;
use crate::data_stores::TwoFACode;
use crate::data_stores::TwoFACodeStore;
use crate::data_stores::UserStore;
use crate::data_stores::UserStoreError;
use crate::email::is_valid_email;
use crate::email::Email;
use crate::email_client::EmailClient;
use crate::errors::AuthAPIError;
use crate::password::is_valid_password;
use crate::password::Password;
use crate::token::is_token_for;
use crate::token::token_accepted;
use crate::token::TokenAuthority;
use crate::token::TOKEN_TTL_SECONDS;
use crate::user::User;

verus! {

// The flows: signup, login with its optional second factor, challenge
// verification, logout and token verification, wired over the store
// interfaces. Input is rejected before any store is consulted; every outcome
// is stated against the stores' maps and the token specification.

pub struct SignupRequest {
    pub email: String,
    pub password: String,
    pub requires_2fa: bool,
}

#[derive(Debug, PartialEq)]
pub struct SignupResponse {
    pub message: String,
}

pub struct LoginRequest {
    pub email: String,
    pub password: String,
}

/// The body answered on a login that waits for its second factor.
#[derive(Debug)]
pub struct TwoFactorAuthResponse {
    pub message: String,
    pub login_attempt_id: String,
}

/// The two shapes of a successful login answer.
#[derive(Debug)]
pub enum LoginResponse {
    RegularAuth,
    TwoFactorAuth(TwoFactorAuthResponse),
}

pub struct Verify2FARequest {
    pub email: String,
    pub login_attempt_id: String,
    pub two_fa_code: String,
}

pub struct VerifyTokenRequest {
    pub token: String,
}

/// Registers an account: malformed input is rejected before the store is
/// consulted, a taken email fails, and otherwise the account is stored.
pub fn signup<U: UserStore>(user_store: &mut U, request: SignupRequest) -> (r: Result<
    SignupResponse,
    AuthAPIError,
>)
    requires
        request.password@.len() <= MAX_DIGEST_LEN,
    ensures
        !(is_valid_email(request.email@) && is_valid_password(request.password@)) <==> r == Err::<
            SignupResponse,
            AuthAPIError,
        >(AuthAPIError::InvalidCredentials),
        (is_valid_email(request.email@) && is_valid_password(request.password@) && old(user_store).users().contains_key(request.email@)) <==> r == Err::<SignupResponse, AuthAPIError>(
            AuthAPIError::UserAlreadyExists,
        ),
        r is Ok <==> (is_valid_email(request.email@) && is_valid_password(request.password@)
            && !old(user_store).users().contains_key(request.email@)),
        r is Err ==> final(user_store).users() == old(user_store).users(),
        r is Ok ==> exists|cred: Seq<char>|
            final(user_store).users() == old(user_store).users().insert(
                request.email@,
                crate::data_stores::StoredUser {
                    credential: cred,
                    requires_2fa: request.requires_2fa,
                },
            ) && #[trigger] U::stored_matches(cred, request.password@),
        r matches Ok(resp) ==> resp.message@ == "User created successfully!"@,
{
    let email = match Email::parse(request.email) {
        Ok(e) => e,
        Err(_) => {
            return Err(AuthAPIError::InvalidCredentials);
        },
    };
    let password = match Password::parse(request.password) {
        Ok(p) => p,
        Err(_) => {
            return Err(AuthAPIError::InvalidCredentials);
        },
    };
    let new_user = User { email, password, requires_2fa: request.requires_2fa };
    match user_store.add_user(new_user) {
        Ok(()) => Ok(SignupResponse { message: String::from_str("User created successfully!") }),
        Err(UserStoreError::UserAlreadyExists) => Err(AuthAPIError::UserAlreadyExists),
        Err(_) => Err(AuthAPIError::UnexpectedError),
    }
}

/// Authenticates a login: bad shape and bad credentials fail without a
/// trace; a two-factor account gets a fresh challenge stored and mailed; any
/// other account gets a session token.
pub fn login<U: UserStore, T: TwoFACodeStore, E: EmailClient>(
    user_store: &U,
    two_fa_code_store: &mut T,
    email_client: &E,
    authority: &TokenAuthority,
    request: LoginRequest,
    now: u64,
) -> (r: Result<(LoginResponse, Option<String>), AuthAPIError>)
    requires
        authority.wf(),
        now <= u64::MAX - TOKEN_TTL_SECONDS,
        request.password@.len() <= MAX_DIGEST_LEN,
        request.email@.len() <= MAX_DIGEST_LEN - 21,
    ensures
        ({
            let users = user_store.users();
            let shape_ok = is_valid_email(request.email@) && is_valid_password(request.password@);
            let known = users.contains_key(request.email@);
            let pw_ok = known && U::stored_matches(
                users[request.email@].credential,
                request.password@,
            );
            &&& (!shape_ok <==> r == Err::<(LoginResponse, Option<String>), AuthAPIError>(
                AuthAPIError::InvalidCredentials,
            ))
            &&& ((shape_ok && !pw_ok) <==> r == Err::<
                (LoginResponse, Option<String>),
                AuthAPIError,
            >(AuthAPIError::IncorrectCredentials))
            &&& (!(shape_ok && pw_ok) ==> final(two_fa_code_store).codes() == old(two_fa_code_store).codes())
            &&& ((shape_ok && pw_ok && !users[request.email@].requires_2fa) ==> (
            r matches Ok(p) && p.0 is RegularAuth))
            &&& ((shape_ok && pw_ok && !users[request.email@].requires_2fa) ==> final(two_fa_code_store).codes() == old(two_fa_code_store).codes())
            &&& (r matches Ok(p) ==> (p.0 is RegularAuth ==> (p.1 matches Some(t)
                && is_token_for(
                authority.secret(),
                t@,
                request.email@,
                (now + TOKEN_TTL_SECONDS) as u64,
            ))))
            &&& ((shape_ok && pw_ok && users[request.email@].requires_2fa) ==> (exists|
                id: Seq<char>,
                code: Seq<char>,
            |
                #![trigger old(two_fa_code_store).codes().insert(request.email@, (id, code))]
                {
                    &&& is_uuid_text(id)
                    &&& is_two_fa_code(code)
                    &&& final(two_fa_code_store).codes() == old(two_fa_code_store).codes().insert(
                        request.email@,
                        (id, code),
                    )
                    &&& r_names_attempt(r, id)
                }) && (r is Err ==> r == Err::<(LoginResponse, Option<String>), AuthAPIError>(
                AuthAPIError::UnexpectedError,
            )))
            &&& ((shape_ok && pw_ok && users[request.email@].requires_2fa && r is Ok) ==> (
            r matches Ok(p) && p.0 is TwoFactorAuth && p.1 is None))
        }),
{
    let email = match Email::parse(request.email) {
        Ok(e) => e,
        Err(_) => {
            return Err(AuthAPIError::InvalidCredentials);
        },
    };
    let password = match Password::parse(request.password) {
        Ok(p) => p,
        Err(_) => {
            return Err(AuthAPIError::InvalidCredentials);
        },
    };
    match user_store.validate_user(&email, &password) {
        Ok(()) => (),
        Err(UserStoreError::UserNotFound) => {
            return Err(AuthAPIError::IncorrectCredentials);
        },
        Err(UserStoreError::InvalidCredentials) => {
            return Err(AuthAPIError::IncorrectCredentials);
        },
        Err(_) => {
            return Err(AuthAPIError::UnexpectedError);
        },
    }
    let user = match user_store.get_user(&email) {
        Ok(u) => u,
        Err(_) => {
            return Err(AuthAPIError::IncorrectCredentials);
        },
    };
    if user.requires_2fa {
        handle_2fa(two_fa_code_store, email_client, &email)
    } else {
        Ok(handle_no_2fa(authority, &email, now))
    }
}

/// Whether a login answer carries this attempt id in a two-factor body.
pub open spec fn r_names_attempt(
    r: Result<(LoginResponse, Option<String>), AuthAPIError>,
    id: Seq<char>,
) -> bool {
    r matches Ok(p) ==> (p.0 matches LoginResponse::TwoFactorAuth(t) && t.login_attempt_id@ == id
        && t.message@ == "2FA required"@)
}

/// The plain branch: a session token, nothing stored.
fn handle_no_2fa(authority: &TokenAuthority, email: &Email, now: u64) -> (r: (
    LoginResponse,
    Option<String>,
))
    requires
        authority.wf(),
        now <= u64::MAX - TOKEN_TTL_SECONDS,
        email@.len() <= MAX_DIGEST_LEN - 21,
    ensures
        r.0 is RegularAuth,
        r.1 matches Some(t) && is_token_for(
            authority.secret(),
            t@,
            email@,
            (now + TOKEN_TTL_SECONDS) as u64,
        ),
{
    let token = authority.issue(email.as_str(), now);
    (LoginResponse::RegularAuth, Some(token))
}

/// The second-factor branch: mint a fresh attempt id and code, store them
/// (replacing any pending challenge), and hand the code to the mail channel.
/// A delivery failure aborts the flow but the stored challenge remains.
fn handle_2fa<T: TwoFACodeStore, E: EmailClient>(
    two_fa_code_store: &mut T,
    email_client: &E,
    email: &Email,
) -> (r: Result<(LoginResponse, Option<String>), AuthAPIError>)
    ensures
        exists|id: Seq<char>, code: Seq<char>|
            #![trigger old(two_fa_code_store).codes().insert(email@, (id, code))]
            {
                &&& is_uuid_text(id)
                &&& is_two_fa_code(code)
                &&& final(two_fa_code_store).codes() == old(two_fa_code_store).codes().insert(
                    email@,
                    (id, code),
                )
                &&& r_names_attempt(r, id)
            },
        r is Err ==> r == Err::<(LoginResponse, Option<String>), AuthAPIError>(
            AuthAPIError::UnexpectedError,
        ),
        r matches Ok(p) ==> p.0 is TwoFactorAuth && p.1 is None,
{
    let login_attempt_id = LoginAttemptId::default();
    let two_fa_code = TwoFACode::default();
    let ghost idv = login_attempt_id@;
    let ghost codev = two_fa_code@;
    match two_fa_code_store.add_code(
        email.clone(),
        login_attempt_id.clone(),
        two_fa_code.clone(),
    ) {
        Ok(()) => (),
        Err(_) => {
            return Err(AuthAPIError::UnexpectedError);
        },
    }
    match email_client.send_email(email, "2FA Code", two_fa_code.as_str()) {
        Ok(()) => (),
        Err(_) => {
            proof {
                assert(is_uuid_text(idv) && is_two_fa_code(codev) && final(two_fa_code_store).codes() == old(two_fa_code_store).codes().insert(email@, (idv, codev))
                    && r_names_attempt(
                    Err::<(LoginResponse, Option<String>), AuthAPIError>(
                        AuthAPIError::UnexpectedError,
                    ),
                    idv,
                ));
            }
            return Err(AuthAPIError::UnexpectedError);
        },
    }
    let response = TwoFactorAuthResponse {
        message: String::from_str("2FA required"),
        login_attempt_id: String::from_str(login_attempt_id.as_str()),
    };
    let r = Ok((LoginResponse::TwoFactorAuth(response), None));
    proof {
        assert(is_uuid_text(idv) && is_two_fa_code(codev) && final(two_fa_code_store).codes()
            == old(two_fa_code_store).codes().insert(email@, (idv, codev)) && r_names_attempt(
            r,
            idv,
        ));
    }
    r
}

/// Verifies a pending second-factor challenge: on the exact match of email,
/// attempt id and code the challenge is consumed and a session is issued.
pub fn verify_2fa<T: TwoFACodeStore>(
    two_fa_code_store: &mut T,
    authority: &TokenAuthority,
    request: Verify2FARequest,
    now: u64,
) -> (r: Result<String, AuthAPIError>)
    requires
        authority.wf(),
        now <= u64::MAX - TOKEN_TTL_SECONDS,
        request.email@.len() <= MAX_DIGEST_LEN - 21,
    ensures
        ({
            let codes = old(two_fa_code_store).codes();
            let shape_ok = is_valid_email(request.email@) && is_uuid_text(
                request.login_attempt_id@,
            ) && is_two_fa_code(request.two_fa_code@);
            let matching = codes.contains_key(request.email@) && codes[request.email@] == (
                request.login_attempt_id@,
                request.two_fa_code@,
            );
            &&& (!shape_ok <==> r == Err::<String, AuthAPIError>(AuthAPIError::InvalidCredentials))
            &&& ((shape_ok && !matching) <==> r == Err::<String, AuthAPIError>(
                AuthAPIError::IncorrectCredentials,
            ))
            &&& (r is Ok <==> (shape_ok && matching))
            &&& (r is Err ==> final(two_fa_code_store).codes() == codes)
            &&& (r is Ok ==> final(two_fa_code_store).codes() == codes.remove(request.email@))
            &&& (r matches Ok(t) ==> is_token_for(
                authority.secret(),
                t@,
                request.email@,
                (now + TOKEN_TTL_SECONDS) as u64,
            ))
        }),
{
    let email = match Email::parse(request.email) {
        Ok(e) => e,
        Err(_) => {
            return Err(AuthAPIError::InvalidCredentials);
        },
    };
    let login_attempt_id = match LoginAttemptId::parse(request.login_attempt_id) {
        Ok(l) => l,
        Err(_) => {
            return Err(AuthAPIError::InvalidCredentials);
        },
    };
    let two_fa_code = match TwoFACode::parse(request.two_fa_code) {
        Ok(t) => t,
        Err(_) => {
            return Err(AuthAPIError::InvalidCredentials);
        },
    };
    let code_tuple = match two_fa_code_store.get_code(&email) {
        Ok(p) => p,
        Err(_) => {
            return Err(AuthAPIError::IncorrectCredentials);
        },
    };
    if !(code_tuple.0 == login_attempt_id) {
        return Err(AuthAPIError::IncorrectCredentials);
    }
    if !(code_tuple.1 == two_fa_code) {
        return Err(AuthAPIError::IncorrectCredentials);
    }
    match two_fa_code_store.remove_code(&email) {
        Ok(()) => (),
        Err(_) => {
            return Err(AuthAPIError::UnexpectedError);
        },
    }
    Ok(authority.issue(email.as_str(), now))
}

/// Decides whether a presented token passes: revoked tokens fail first, then
/// the signature and the expiry; the subject comes back on success.
pub fn validate_token<B: BannedTokenStore>(
    authority: &TokenAuthority,
    banned_token_store: &B,
    token: &str,
    now: u64,
) -> (r: Option<String>)
    requires
        authority.wf(),
        token@.len() <= MAX_DIGEST_LEN,
    ensures
        r is Some <==> token_accepted(
            authority.secret(),
            token@,
            now,
            banned_token_store.tokens(),
        ),
        r matches Some(s) ==> forall|sub: Seq<char>, exp: u64|
            is_token_for(authority.secret(), token@, sub, exp) ==> sub == s@,
{
    match banned_token_store.check_token(token) {
        Ok(true) => None,
        Ok(false) => authority.validate(token, now),
        Err(_) => None,
    }
}

/// Revokes the presented session: a missing token, a revoked token and an
/// invalid or expired one each fail; only a live session is filed as
/// revoked. A second logout with the same token meets the revocation entry
/// and fails.
pub fn logout<B: BannedTokenStore>(
    banned_token_store: &mut B,
    authority: &TokenAuthority,
    token: Option<String>,
    now: u64,
) -> (r: Result<(), AuthAPIError>)
    requires
        authority.wf(),
        token matches Some(t) ==> t@.len() <= MAX_DIGEST_LEN,
    ensures
        token is None <==> r == Err::<(), AuthAPIError>(AuthAPIError::MissingToken),
        token matches Some(t) ==> (r is Ok <==> token_accepted(
            authority.secret(),
            t@,
            now,
            old(banned_token_store).tokens(),
        )),
        token matches Some(t) && r is Err ==> r == Err::<(), AuthAPIError>(
            AuthAPIError::InvalidToken,
        ) && final(banned_token_store).tokens() == old(banned_token_store).tokens(),
        token is None ==> final(banned_token_store).tokens() == old(banned_token_store).tokens(),
        token matches Some(t) ==> (r is Ok ==> final(banned_token_store).tokens() == old(
            banned_token_store,
        ).tokens().insert(t@)),
{
    let token = match token {
        Some(t) => t,
        None => {
            return Err(AuthAPIError::MissingToken);
        },
    };
    match validate_token(authority, banned_token_store, token.as_str(), now) {
        Some(_) => (),
        None => {
            return Err(AuthAPIError::InvalidToken);
        },
    }
    match banned_token_store.store_token(token) {
        Ok(()) => Ok(()),
        Err(_) => Err(AuthAPIError::UnexpectedError),
    }
}

/// Answers whether the presented token is a live session.
pub fn verify_token<B: BannedTokenStore>(
    banned_token_store: &B,
    authority: &TokenAuthority,
    request: VerifyTokenRequest,
    now: u64,
) -> (r: Result<(), AuthAPIError>)
    requires
        authority.wf(),
        request.token@.len() <= MAX_DIGEST_LEN,
    ensures
        r is Ok <==> token_accepted(
            authority.secret(),
            request.token@,
            now,
            banned_token_store.tokens(),
        ),
        r is Err ==> r == Err::<(), AuthAPIError>(AuthAPIError::InvalidToken),
{
    match validate_token(authority, banned_token_store, request.token.as_str(), now) {
        Some(_) => Ok(()),
        None => Err(AuthAPIError::InvalidToken),
    }
}

} // verus!
