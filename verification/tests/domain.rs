use auth_service::AuthAPIError;
use auth_service::Email;
use auth_service::LoginAttemptId;
use auth_service::Password;
use auth_service::TwoFACode;

#[test]
fn test_empty_string_invalid_email() {
    let test_string = "".to_string();
    assert!(Email::parse(test_string).is_err());
}

#[test]
fn test_missing_at_invalid_email() {
    let test_string = "test.com".to_string();
    assert!(Email::parse(test_string).is_err());
}

#[test]
fn test_correct_email() {
    let test_string = "mytest@test.com".to_string();
    assert!(Email::parse(test_string).is_ok());
}

#[test]
fn parsed_email_keeps_its_text() {
    let email = Email::parse("someone@example.com".to_string()).unwrap();
    assert_eq!(email.as_str(), "someone@example.com");
}

#[test]
fn test_empty_string_invalid_password() {
    let test_string = "".to_string();
    assert!(Password::parse(test_string).is_err());
}

#[test]
fn test_less_than_8_characters_invalid_password() {
    let test_string = "e234".to_string();
    assert!(Password::parse(test_string).is_err());
}

#[test]
fn test_valid_password() {
    let test_string = "ThisIsaValidPassword".to_string();
    assert!(Password::parse(test_string).is_ok());
}

#[test]
fn password_boundary_is_eight_characters() {
    assert!(Password::parse("1234567".to_string()).is_err());
    assert!(Password::parse("12345678".to_string()).is_ok());
}

#[test]
fn login_attempt_id_rejects_non_uuid_text() {
    assert!(LoginAttemptId::parse("not-a-uuid".to_string()).is_err());
    assert!(LoginAttemptId::parse("".to_string()).is_err());
}

#[test]
fn login_attempt_id_accepts_uuid_text() {
    let id = LoginAttemptId::parse("123e4567-e89b-12d3-a456-426614174000".to_string()).unwrap();
    assert_eq!(id.as_str(), "123e4567-e89b-12d3-a456-426614174000");
}

#[test]
fn fresh_login_attempt_id_parses_back() {
    let id = LoginAttemptId::default();
    let text = id.as_str().to_string();
    let reparsed = LoginAttemptId::parse(text).unwrap();
    assert!(id == reparsed);
}

#[test]
fn two_fa_code_accepts_exactly_six_digits() {
    assert!(TwoFACode::parse("123456".to_string()).is_ok());
    assert!(TwoFACode::parse("12345".to_string()).is_err());
    assert!(TwoFACode::parse("1234567".to_string()).is_err());
    assert!(TwoFACode::parse("12a456".to_string()).is_err());
    assert!(TwoFACode::parse("".to_string()).is_err());
}

#[test]
fn fresh_two_fa_code_is_six_digits() {
    let code = TwoFACode::default();
    let text = code.as_str().to_string();
    assert_eq!(text.len(), 6);
    assert!(text.chars().all(|c| c.is_ascii_digit()));
    assert!(TwoFACode::parse(text).is_ok());
}

#[test]
fn error_status_codes_follow_the_taxonomy() {
    assert_eq!(AuthAPIError::InvalidCredentials.status_code(), 400);
    assert_eq!(AuthAPIError::UserAlreadyExists.status_code(), 409);
    assert_eq!(AuthAPIError::IncorrectCredentials.status_code(), 401);
    assert_eq!(AuthAPIError::UnexpectedError.status_code(), 500);
    assert_eq!(AuthAPIError::InvalidToken.status_code(), 401);
    assert_eq!(AuthAPIError::MissingToken.status_code(), 400);
}

#[test]
fn error_messages_follow_the_taxonomy() {
    assert_eq!(AuthAPIError::InvalidCredentials.message(), "Invalid Credentials");
    assert_eq!(AuthAPIError::UserAlreadyExists.message(), "User already exists");
    assert_eq!(AuthAPIError::IncorrectCredentials.message(), "IncorrectCredentials");
    assert_eq!(AuthAPIError::UnexpectedError.message(), "Unexpected error");
    assert_eq!(AuthAPIError::InvalidToken.message(), "InvalidToken");
    assert_eq!(AuthAPIError::MissingToken.message(), "MissingToken");
}

#[test]
fn get_key_prefixes_the_token() {
    assert_eq!(auth_service::get_key("abc"), "banned_token:abc");
    assert_eq!(auth_service::get_key(""), "banned_token:");
}
