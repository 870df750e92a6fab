//! A credential-and-session authority: user registration, password login,
//! an optional second factor, and signed, revocable session tokens.
//!
//! The crate is organised around three pluggable stores (credentials, revoked
//! tokens, pending two-factor challenges), a session-token issuer/validator,
//! and the orchestration functions that wire them into the signup, login,
//! verify and logout flows.

pub mod codec;
pub mod credentials;
pub mod data_stores;
pub mod email;
pub mod email_client;
pub mod errors;
pub mod hashed_user_store;
pub mod hashmap_two_fa_code_store;
pub mod hashmap_user_store;
pub mod hashset_banned_token_store;
pub mod password;
pub mod routes;
pub mod token;
pub mod user;

pub use credentials::credential_check;
pub use credentials::hash_credential;
pub use data_stores::get_key;
pub use data_stores::BannedTokenStore;
pub use data_stores::BannedTokenStoreError;
pub use data_stores::LoginAttemptId;
pub use data_stores::StoredUser;
pub use data_stores::TwoFACode;
pub use data_stores::TwoFACodeStore;
pub use data_stores::TwoFACodeStoreError;
pub use data_stores::UserStore;
pub use data_stores::UserStoreError;
pub use email::Email;
pub use email_client::EmailClient;
pub use email_client::MockEmailClient;
pub use errors::AuthAPIError;
pub use errors::ErrorResponse;
pub use hashed_user_store::HashedUserStore;
pub use hashmap_two_fa_code_store::HashMapTwoFACodeStore;
pub use hashmap_user_store::HashMapUserStore;
pub use hashset_banned_token_store::HashsetBannedTokenStore;
pub use password::Password;
pub use routes::login;
pub use routes::logout;
pub use routes::signup;
pub use routes::validate_token;
pub use routes::verify_2fa;
pub use routes::verify_token;
pub use routes::LoginRequest;
pub use routes::LoginResponse;
pub use routes::SignupRequest;
pub use routes::SignupResponse;
pub use routes::TwoFactorAuthResponse;
pub use routes::Verify2FARequest;
pub use routes::VerifyTokenRequest;
pub use token::claimed_expiry;
pub use token::TokenAuthority;
pub use token::TOKEN_TTL_SECONDS;
pub use user::User;
