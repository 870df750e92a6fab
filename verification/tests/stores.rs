use auth_service::credential_check;
use auth_service::hash_credential;
use auth_service::BannedTokenStore;
use auth_service::Email;
use auth_service::HashMapTwoFACodeStore;
use auth_service::HashMapUserStore;
use auth_service::HashedUserStore;
use auth_service::HashsetBannedTokenStore;
use auth_service::LoginAttemptId;
use auth_service::Password;
use auth_service::TwoFACode;
use auth_service::TwoFACodeStore;
use auth_service::TwoFACodeStoreError;
use auth_service::User;
use auth_service::UserStore;
use auth_service::UserStoreError;

#[test]
fn test_add_user() {
    let mut user_store_map = HashMapUserStore::new();

    let user_to_add = User {
        email: Email::parse("mytestemail@test.com".to_owned()).unwrap(),
        password: Password::parse("Password@12345".to_owned()).unwrap(),
        requires_2fa: false,
    };

    let _ = user_store_map.add_user(user_to_add.clone());

    assert_eq!(
        user_store_map.add_user(user_to_add),
        Err(UserStoreError::UserAlreadyExists)
    );
}

#[test]
fn test_get_user() {
    let mut user_store_map = HashMapUserStore::new();

    let user_to_add = User {
        email: Email::parse("mytestemail@test.com".to_owned()).unwrap(),
        password: Password::parse("Password@12345".to_owned()).unwrap(),
        requires_2fa: false,
    };

    assert_eq!(
        user_store_map.get_user(&user_to_add.email),
        Err(UserStoreError::UserNotFound)
    );

    let _ = user_store_map.add_user(user_to_add.clone());

    assert_eq!(user_store_map.get_user(&user_to_add.email), Ok(user_to_add));
}

#[test]
fn test_validate_user() {
    let mut user_store_map = HashMapUserStore::new();

    let test_email: Email = Email::parse("mytestemail@test.com".to_owned()).unwrap();
    let test_password: Password = Password::parse("Password@12345".to_owned()).unwrap();
    let test_incorrect_password: Password = Password::parse("wrongpass".to_owned()).unwrap();

    assert_eq!(
        user_store_map.validate_user(&test_email, &test_password),
        Err(UserStoreError::UserNotFound)
    );

    let _ = user_store_map.add_user(User {
        email: test_email.clone(),
        password: test_password.clone(),
        requires_2fa: false,
    });

    assert_eq!(user_store_map.validate_user(&test_email, &test_password), Ok(()));

    assert_eq!(
        user_store_map.validate_user(&test_email, &test_incorrect_password),
        Err(UserStoreError::InvalidCredentials)
    );
}

#[test]
fn add_and_get_code_should_succeed() {
    let mut store = HashMapTwoFACodeStore::default();

    let email = Email::parse("user@example.com".to_owned()).unwrap();
    let login_attempt_id = LoginAttemptId::default();
    let code = TwoFACode::default();

    store
        .add_code(email.clone(), login_attempt_id.clone(), code.clone())
        .unwrap();

    let retrieved = store.get_code(&email).unwrap();
    assert_eq!(retrieved.0, login_attempt_id);
    assert_eq!(retrieved.1, code);
}

#[test]
fn get_code_should_return_error_for_missing_email() {
    let store = HashMapTwoFACodeStore::default();

    let email = Email::parse("user@example.com".to_owned()).unwrap();
    let result = store.get_code(&email);

    assert!(matches!(
        result,
        Err(TwoFACodeStoreError::LoginAttemptIdNotFound)
    ));
}

#[test]
fn remove_code_should_delete_existing_entry() {
    let mut store = HashMapTwoFACodeStore::default();

    let email = Email::parse("user@example.com".to_owned()).unwrap();
    let login_attempt_id = LoginAttemptId::default();
    let code = TwoFACode::default();

    store.add_code(email.clone(), login_attempt_id, code).unwrap();

    assert!(store.get_code(&email).is_ok());

    store.remove_code(&email).unwrap();

    assert!(matches!(
        store.get_code(&email),
        Err(TwoFACodeStoreError::LoginAttemptIdNotFound)
    ));
}

#[test]
fn add_code_should_overwrite_existing_entry() {
    let mut store = HashMapTwoFACodeStore::default();

    let email = Email::parse("user@example.com".to_owned()).unwrap();

    let login_attempt_id1 = LoginAttemptId::default();
    let code1 = TwoFACode::default();

    store.add_code(email.clone(), login_attempt_id1, code1).unwrap();

    let login_attempt_id2 = LoginAttemptId::default();
    let code2 = TwoFACode::default();

    store
        .add_code(email.clone(), login_attempt_id2.clone(), code2.clone())
        .unwrap();

    let retrieved = store.get_code(&email).unwrap();
    assert_eq!(retrieved.0, login_attempt_id2);
    assert_eq!(retrieved.1, code2);
}

#[test]
fn test_store_token() {
    let mut test_store = HashsetBannedTokenStore::default();
    let test_token = "test_token".to_owned();
    let test_result = test_store.store_token(test_token.clone());
    assert!(test_result.is_ok());
}

#[test]
fn test_check_token() {
    let mut test_store = HashsetBannedTokenStore::default();
    let test_token = "test_token".to_owned();
    let test_result = test_store.store_token(test_token.clone());
    assert!(test_result.is_ok());

    let check_result = test_store.check_token(&test_token);
    assert!(check_result.is_ok());
    assert_eq!(check_result, Ok(true));
    assert_eq!(test_store.check_token("other_token"), Ok(false));
}

#[test]
fn hashed_store_validates_only_the_registered_password() {
    let mut store = HashedUserStore::new();

    let email = Email::parse("hashed@example.com".to_owned()).unwrap();
    let password = Password::parse("correct horse battery".to_owned()).unwrap();
    let wrong = Password::parse("incorrect horse".to_owned()).unwrap();

    store
        .add_user(User { email: email.clone(), password: password.clone(), requires_2fa: false })
        .unwrap();

    assert_eq!(store.validate_user(&email, &password), Ok(()));
    assert_eq!(
        store.validate_user(&email, &wrong),
        Err(UserStoreError::InvalidCredentials)
    );
}

#[test]
fn hashed_store_never_keeps_the_plaintext() {
    let mut store = HashedUserStore::new();

    let email = Email::parse("atrest@example.com".to_owned()).unwrap();
    let password = Password::parse("password123".to_owned()).unwrap();

    store
        .add_user(User { email: email.clone(), password, requires_2fa: true })
        .unwrap();

    let stored = store.get_user(&email).unwrap();
    assert!(stored.requires_2fa);
    assert_ne!(stored.password.as_str(), "password123");
    assert_eq!(stored.password.as_str().len(), 97);
}

#[test]
fn credential_hash_matches_its_own_password_only() {
    let hash = hash_credential("open sesame!");
    assert_eq!(hash.len(), 97);
    assert!(credential_check(&hash, "open sesame!"));
    assert!(!credential_check(&hash, "open sesame?"));
    assert!(!credential_check("not a credential", "open sesame!"));
}

#[test]
fn credential_hashes_are_salted() {
    let first = hash_credential("same password");
    let second = hash_credential("same password");
    assert_ne!(first, second);
    assert!(credential_check(&first, "same password"));
    assert!(credential_check(&second, "same password"));
}
