use auth_service::login;
use auth_service::logout;
use auth_service::signup;
use auth_service::validate_token;
use auth_service::verify_2fa;
use auth_service::verify_token;
use auth_service::AuthAPIError;
use auth_service::Email;
use auth_service::EmailClient;
use auth_service::HashMapTwoFACodeStore;
use auth_service::HashMapUserStore;
use auth_service::HashsetBannedTokenStore;
use auth_service::LoginRequest;
use auth_service::LoginResponse;
use auth_service::MockEmailClient;
use auth_service::SignupRequest;
use auth_service::TokenAuthority;
use auth_service::TwoFACodeStore;
use auth_service::Verify2FARequest;
use auth_service::VerifyTokenRequest;
use auth_service::TOKEN_TTL_SECONDS;

const NOW: u64 = 1_700_000_000;

fn authority() -> TokenAuthority {
    TokenAuthority::new(b"a-test-signing-secret".to_vec())
}

/// A delivery channel that always fails, for the abort path.
struct FailingEmailClient;

impl EmailClient for FailingEmailClient {
    fn send_email(&self, _recipient: &Email, _subject: &str, _content: &str) -> Result<(), String> {
        Err("the channel is down".to_string())
    }
}

#[test]
fn signup_rejects_malformed_input_before_the_store() {
    let mut users = HashMapUserStore::new();

    let bad_email = SignupRequest {
        email: "emaildoesnotcontainat.com".to_string(),
        password: "password@1234".to_string(),
        requires_2fa: false,
    };
    assert_eq!(signup(&mut users, bad_email), Err(AuthAPIError::InvalidCredentials));

    let bad_password = SignupRequest {
        email: "emailcontainat@test.com".to_string(),
        password: "small".to_string(),
        requires_2fa: false,
    };
    assert_eq!(signup(&mut users, bad_password), Err(AuthAPIError::InvalidCredentials));

    // Nothing was stored by the rejected attempts: the same email still
    // registers cleanly.
    let good = SignupRequest {
        email: "emailcontainat@test.com".to_string(),
        password: "password@1234".to_string(),
        requires_2fa: false,
    };
    assert!(signup(&mut users, good).is_ok());
}

#[test]
fn signup_rejects_a_taken_email() {
    let mut users = HashMapUserStore::new();
    let first = SignupRequest {
        email: "a@b.com".to_string(),
        password: "password123".to_string(),
        requires_2fa: false,
    };
    let again = SignupRequest {
        email: "a@b.com".to_string(),
        password: "otherpassword456".to_string(),
        requires_2fa: true,
    };
    let response = signup(&mut users, first).unwrap();
    assert_eq!(response.message, "User created successfully!");
    assert_eq!(signup(&mut users, again), Err(AuthAPIError::UserAlreadyExists));
}

#[test]
fn login_should_return_400_if_invalid_input() {
    let users = HashMapUserStore::new();
    let mut codes = HashMapTwoFACodeStore::new();
    let mail = MockEmailClient;
    let auth = authority();

    let bad_email = LoginRequest {
        email: "emaildoesnotcontainat.com".to_string(),
        password: "password@1234".to_string(),
    };
    assert!(matches!(
        login(&users, &mut codes, &mail, &auth, bad_email, NOW),
        Err(AuthAPIError::InvalidCredentials)
    ));

    let bad_password = LoginRequest {
        email: "emailcontainat@test.com".to_string(),
        password: "small".to_string(),
    };
    assert!(matches!(
        login(&users, &mut codes, &mail, &auth, bad_password, NOW),
        Err(AuthAPIError::InvalidCredentials)
    ));
}

#[test]
fn should_return_401_if_incorrect_credentials() {
    let mut users = HashMapUserStore::new();
    let mut codes = HashMapTwoFACodeStore::new();
    let mail = MockEmailClient;
    let auth = authority();

    let request = SignupRequest {
        email: "emailcontainat@test.com".to_string(),
        password: "regularpassword@1234".to_string(),
        requires_2fa: false,
    };
    signup(&mut users, request).unwrap();

    // A wrong password and an unknown email both answer the same way.
    let wrong_password = LoginRequest {
        email: "emailcontainat@test.com".to_string(),
        password: "password@1234".to_string(),
    };
    assert!(matches!(
        login(&users, &mut codes, &mail, &auth, wrong_password, NOW),
        Err(AuthAPIError::IncorrectCredentials)
    ));

    let unknown_email = LoginRequest {
        email: "email@test.com".to_string(),
        password: "password@1234".to_string(),
    };
    assert!(matches!(
        login(&users, &mut codes, &mail, &auth, unknown_email, NOW),
        Err(AuthAPIError::IncorrectCredentials)
    ));
}

#[test]
fn should_return_200_if_valid_credentials_and_2fa_disabled() {
    let mut users = HashMapUserStore::new();
    let mut codes = HashMapTwoFACodeStore::new();
    let mail = MockEmailClient;
    let auth = authority();

    let request = SignupRequest {
        email: "a@b.com".to_string(),
        password: "password123".to_string(),
        requires_2fa: false,
    };
    signup(&mut users, request).unwrap();

    let attempt = LoginRequest { email: "a@b.com".to_string(), password: "password123".to_string() };
    let (response, cookie) = login(&users, &mut codes, &mail, &auth, attempt, NOW).unwrap();
    assert!(matches!(response, LoginResponse::RegularAuth));
    let token = cookie.expect("a session token must come with a plain login");
    assert_eq!(validate_token(&auth, &HashsetBannedTokenStore::new(), &token, NOW), Some("a@b.com".to_string()));
}

#[test]
fn should_return_206_if_valid_credentials_and_2fa_enabled() {
    let mut users = HashMapUserStore::new();
    let mut codes = HashMapTwoFACodeStore::new();
    let mail = MockEmailClient;
    let auth = authority();

    let request = SignupRequest {
        email: "a@b.com".to_string(),
        password: "longpasswordforme".to_string(),
        requires_2fa: true,
    };
    signup(&mut users, request).unwrap();

    let attempt = LoginRequest {
        email: "a@b.com".to_string(),
        password: "longpasswordforme".to_string(),
    };
    let (response, cookie) = login(&users, &mut codes, &mail, &auth, attempt, NOW).unwrap();
    assert!(cookie.is_none());
    let body = match response {
        LoginResponse::TwoFactorAuth(body) => body,
        LoginResponse::RegularAuth => panic!("a two-factor account must get a challenge"),
    };
    assert_eq!(body.message, "2FA required");

    let email = Email::parse("a@b.com".to_string()).unwrap();
    let (stored_id, _stored_code) = codes.get_code(&email).unwrap();
    assert_eq!(stored_id.as_str(), body.login_attempt_id);
}

#[test]
fn two_factor_flow_consumes_the_challenge() {
    let mut users = HashMapUserStore::new();
    let mut codes = HashMapTwoFACodeStore::new();
    let mail = MockEmailClient;
    let auth = authority();

    let request = SignupRequest {
        email: "a@b.com".to_string(),
        password: "longpasswordforme".to_string(),
        requires_2fa: true,
    };
    signup(&mut users, request).unwrap();

    let attempt = LoginRequest {
        email: "a@b.com".to_string(),
        password: "longpasswordforme".to_string(),
    };
    let (response, _) = login(&users, &mut codes, &mail, &auth, attempt, NOW).unwrap();
    let body = match response {
        LoginResponse::TwoFactorAuth(body) => body,
        LoginResponse::RegularAuth => panic!("a two-factor account must get a challenge"),
    };

    let email = Email::parse("a@b.com".to_string()).unwrap();
    let (_, stored_code) = codes.get_code(&email).unwrap();
    let code_text = stored_code.as_str().to_string();

    // A mismatched attempt id with the correct code is rejected.
    let mismatched = Verify2FARequest {
        email: "a@b.com".to_string(),
        login_attempt_id: "123e4567-e89b-12d3-a456-426614174000".to_string(),
        two_fa_code: code_text.clone(),
    };
    assert!(matches!(
        verify_2fa(&mut codes, &auth, mismatched, NOW),
        Err(AuthAPIError::IncorrectCredentials)
    ));

    // Both correct: a session is issued.
    let correct = Verify2FARequest {
        email: "a@b.com".to_string(),
        login_attempt_id: body.login_attempt_id.clone(),
        two_fa_code: code_text.clone(),
    };
    let token = verify_2fa(&mut codes, &auth, correct, NOW).unwrap();
    assert_eq!(
        validate_token(&auth, &HashsetBannedTokenStore::new(), &token, NOW),
        Some("a@b.com".to_string())
    );

    // The challenge was consumed: the same pair no longer verifies.
    let replay = Verify2FARequest {
        email: "a@b.com".to_string(),
        login_attempt_id: body.login_attempt_id,
        two_fa_code: code_text,
    };
    assert!(matches!(
        verify_2fa(&mut codes, &auth, replay, NOW),
        Err(AuthAPIError::IncorrectCredentials)
    ));
}

#[test]
fn verify_2fa_should_return_400_if_invalid_input() {
    let mut codes = HashMapTwoFACodeStore::new();
    let auth = authority();

    // A malformed email.
    let bad_email = Verify2FARequest {
        email: "test.com".to_string(),
        login_attempt_id: "123e4567-e89b-12d3-a456-426614174000".to_string(),
        two_fa_code: "123456".to_string(),
    };
    assert!(matches!(
        verify_2fa(&mut codes, &auth, bad_email, NOW),
        Err(AuthAPIError::InvalidCredentials)
    ));

    // A malformed attempt id.
    let bad_id = Verify2FARequest {
        email: "email@test.com".to_string(),
        login_attempt_id: "InvalidLoginAttemptId".to_string(),
        two_fa_code: "123456".to_string(),
    };
    assert!(matches!(
        verify_2fa(&mut codes, &auth, bad_id, NOW),
        Err(AuthAPIError::InvalidCredentials)
    ));

    // A malformed code.
    let bad_code = Verify2FARequest {
        email: "email@test.com".to_string(),
        login_attempt_id: "123e4567-e89b-12d3-a456-426614174000".to_string(),
        two_fa_code: "Invalid2FA".to_string(),
    };
    assert!(matches!(
        verify_2fa(&mut codes, &auth, bad_code, NOW),
        Err(AuthAPIError::InvalidCredentials)
    ));
}

#[test]
fn a_failed_delivery_aborts_the_login_but_keeps_the_challenge() {
    let mut users = HashMapUserStore::new();
    let mut codes = HashMapTwoFACodeStore::new();
    let mail = FailingEmailClient;
    let auth = authority();

    let request = SignupRequest {
        email: "a@b.com".to_string(),
        password: "longpasswordforme".to_string(),
        requires_2fa: true,
    };
    signup(&mut users, request).unwrap();

    let attempt = LoginRequest {
        email: "a@b.com".to_string(),
        password: "longpasswordforme".to_string(),
    };
    assert!(matches!(
        login(&users, &mut codes, &mail, &auth, attempt, NOW),
        Err(AuthAPIError::UnexpectedError)
    ));

    // The stale challenge record is still there.
    let email = Email::parse("a@b.com".to_string()).unwrap();
    assert!(codes.get_code(&email).is_ok());
}

#[test]
fn should_return_400_if_jwt_cookie_missing() {
    let mut banned = HashsetBannedTokenStore::new();
    let auth = authority();
    assert_eq!(logout(&mut banned, &auth, None, NOW), Err(AuthAPIError::MissingToken));
}

#[test]
fn logout_should_return_401_if_invalid_token() {
    let mut banned = HashsetBannedTokenStore::new();
    let auth = authority();
    assert_eq!(
        logout(&mut banned, &auth, Some("invalid".to_string()), NOW),
        Err(AuthAPIError::InvalidToken)
    );
}

#[test]
fn should_return_200_if_valid_jwt_cookie() {
    let mut banned = HashsetBannedTokenStore::new();
    let auth = authority();
    let token = issue_for(&auth, "a@b.com");
    assert_eq!(logout(&mut banned, &auth, Some(token), NOW), Ok(()));
}

#[test]
fn should_return_400_if_logout_called_twice_in_a_row() {
    let mut users = HashMapUserStore::new();
    let mut codes = HashMapTwoFACodeStore::new();
    let mut banned = HashsetBannedTokenStore::new();
    let mail = MockEmailClient;
    let auth = authority();

    // The whole plain lifecycle: signup, login, logout, logout again.
    let request = SignupRequest {
        email: "a@b.com".to_string(),
        password: "password123".to_string(),
        requires_2fa: false,
    };
    signup(&mut users, request).unwrap();

    let attempt = LoginRequest { email: "a@b.com".to_string(), password: "password123".to_string() };
    let (_, cookie) = login(&users, &mut codes, &mail, &auth, attempt, NOW).unwrap();
    let token = cookie.unwrap();

    assert_eq!(logout(&mut banned, &auth, Some(token.clone()), NOW), Ok(()));
    // The second logout meets the revocation entry: a failure, never a second
    // success.
    assert_eq!(
        logout(&mut banned, &auth, Some(token), NOW),
        Err(AuthAPIError::InvalidToken)
    );
}

#[test]
fn should_return_200_valid_token() {
    let banned = HashsetBannedTokenStore::new();
    let auth = authority();
    let token = issue_for(&auth, "subject@test.com");
    let request = VerifyTokenRequest { token };
    assert_eq!(verify_token(&banned, &auth, request, NOW), Ok(()));
}

#[test]
fn verify_token_should_return_401_if_invalid_token() {
    let banned = HashsetBannedTokenStore::new();
    let auth = authority();
    for bad in ["invalid1", "invalid2", ""] {
        let request = VerifyTokenRequest { token: bad.to_string() };
        assert_eq!(
            verify_token(&banned, &auth, request, NOW),
            Err(AuthAPIError::InvalidToken)
        );
    }
}

#[test]
fn a_revoked_token_fails_for_the_rest_of_its_window() {
    let mut banned = HashsetBannedTokenStore::new();
    let auth = authority();
    let token = issue_for(&auth, "a@b.com");

    assert!(validate_token(&auth, &banned, &token, NOW).is_some());
    logout(&mut banned, &auth, Some(token.clone()), NOW).unwrap();
    // Still inside the validity window, but revoked.
    assert!(validate_token(&auth, &banned, &token, NOW + TOKEN_TTL_SECONDS - 1).is_none());
    // Past the window the token fails on its own, revocation entry or not.
    let empty = HashsetBannedTokenStore::new();
    assert!(validate_token(&auth, &empty, &token, NOW + TOKEN_TTL_SECONDS).is_none());
}

#[test]
fn a_token_round_trips_to_its_subject_until_expiry() {
    let banned = HashsetBannedTokenStore::new();
    let auth = authority();
    let token = issue_for(&auth, "round@trip.example");

    assert_eq!(
        validate_token(&auth, &banned, &token, NOW),
        Some("round@trip.example".to_string())
    );
    assert_eq!(
        validate_token(&auth, &banned, &token, NOW + TOKEN_TTL_SECONDS - 1),
        Some("round@trip.example".to_string())
    );
    assert_eq!(validate_token(&auth, &banned, &token, NOW + TOKEN_TTL_SECONDS), None);
}

#[test]
fn a_tampered_token_fails_validation() {
    let banned = HashsetBannedTokenStore::new();
    let auth = authority();
    let token = issue_for(&auth, "a@b.com");

    // Changing the subject invalidates the tag.
    let mut forged = token[..token.len() - 7].to_string();
    forged.push_str("x@b.com");
    assert_eq!(validate_token(&auth, &banned, &forged, NOW), None);

    // So does changing the expiry digits.
    let mut early = String::new();
    early.push(if token.starts_with('9') { '8' } else { '9' });
    early.push_str(&token[1..]);
    assert_eq!(validate_token(&auth, &banned, &early, NOW), None);

    // And a token from another authority is refused.
    let other = TokenAuthority::new(b"a-different-secret".to_vec());
    let foreign = issue_for(&other, "a@b.com");
    assert_eq!(validate_token(&auth, &banned, &foreign, NOW), None);
}

#[test]
fn a_token_carries_its_expiry_in_the_open() {
    let auth = authority();
    let token = issue_for(&auth, "a@b.com");
    assert_eq!(auth_service::claimed_expiry(&token), Some(NOW + TOKEN_TTL_SECONDS));
    assert_eq!(auth_service::claimed_expiry("no-token"), None);
}

fn issue_for(auth: &TokenAuthority, subject: &str) -> String {
    auth.issue(subject, NOW)
}
