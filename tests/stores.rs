use auth_service::banned_token_store::HashsetBannedTokenStore;
use auth_service::domain::{Email, LoginAttemptId, Password, TwoFACode, User};
use auth_service::two_fa_code_store::{
    two_fa_code_key, HashmapTwoFACodeStore, TwoFACodeStoreError, CODE_TTL_SECS,
};
use auth_service::user_store::{
    check_password, credential_outcome, hash_new_password, insert_outcome, HashmapUserStore,
    UserStoreError,
};

fn email(s: &str) -> Email {
    Email::parse(s.to_string()).unwrap()
}

fn password(s: &str) -> Password {
    Password::parse(s.to_string()).unwrap()
}

#[test]
fn test_add_code() {
    let mut store = HashmapTwoFACodeStore::new();
    let email = email("user1@a.com");
    let login_attempt_id = LoginAttemptId::default();
    let code = TwoFACode::default();
    let result = store.add_code(email.clone(), login_attempt_id.clone(), code.clone(), 1000);
    assert!(result.is_ok());
    let (stored_login_attempt_id, stored_code) =
        store.get_code(&email, 1000).expect("Code not found in store");
    assert!(stored_login_attempt_id == login_attempt_id);
    assert!(stored_code == code);
}

#[test]
fn test_get_code() {
    let mut store = HashmapTwoFACodeStore::new();
    let email = email("user1@a.com");
    let login_attempt_id = LoginAttemptId::default();
    let code = TwoFACode::default();
    assert!(store
        .add_code(email.clone(), login_attempt_id.clone(), code.clone(), 1000)
        .is_ok());
    let (stored_login_attempt_id, stored_code) =
        store.get_code(&email, 1001).expect("Code not found in store");
    assert!(stored_login_attempt_id == login_attempt_id);
    assert!(stored_code == code);
}

#[test]
fn test_get_code_not_found() {
    let store = HashmapTwoFACodeStore::new();
    let email = email("user1@a.com");
    let result = store.get_code(&email, 1000);
    assert_eq!(result.err(), Some(TwoFACodeStoreError::LoginAttemptIdNotFound));
}

#[test]
fn test_remove_code() {
    let mut store = HashmapTwoFACodeStore::new();
    let email = email("user1@a.com");
    let result = store.add_code(email.clone(), LoginAttemptId::default(), TwoFACode::default(), 1000);
    assert!(result.is_ok());
    let result = store.remove_code(&email, 1000);
    assert!(result.is_ok());
    assert_eq!(store.get_code(&email, 1000).err(), Some(TwoFACodeStoreError::LoginAttemptIdNotFound));
}

#[test]
fn test_remove_code_not_found() {
    let mut store = HashmapTwoFACodeStore::new();
    let email = email("user1@a.com");
    let result = store.remove_code(&email, 1000);
    assert_eq!(result, Err(TwoFACodeStoreError::LoginAttemptIdNotFound));
}

#[test]
fn consumed_code_cannot_be_read_again() {
    let mut store = HashmapTwoFACodeStore::new();
    let e = email("user1@a.com");
    store.add_code(e.clone(), LoginAttemptId::default(), TwoFACode::from_number(123), 50).unwrap();
    assert!(store.remove_code(&e, 60).is_ok());
    assert_eq!(store.get_code(&e, 60).err(), Some(TwoFACodeStoreError::LoginAttemptIdNotFound));
    assert_eq!(store.remove_code(&e, 60), Err(TwoFACodeStoreError::LoginAttemptIdNotFound));
}

#[test]
fn second_issue_replaces_first() {
    let mut store = HashmapTwoFACodeStore::new();
    let e = email("user1@a.com");
    let first_id = LoginAttemptId::default();
    let second_id = LoginAttemptId::default();
    store.add_code(e.clone(), first_id.clone(), TwoFACode::from_number(111111), 0).unwrap();
    store.add_code(e.clone(), second_id.clone(), TwoFACode::from_number(222222), 5).unwrap();
    let (id, code) = store.get_code(&e, 5).unwrap();
    assert!(id == second_id);
    assert!(id != first_id);
    assert_eq!(code.as_str(), "222222");
}

#[test]
fn code_expires_after_ttl() {
    let mut store = HashmapTwoFACodeStore::new();
    let e = email("user1@a.com");
    store.add_code(e.clone(), LoginAttemptId::default(), TwoFACode::from_number(7), 100).unwrap();
    assert!(store.get_code(&e, 100 + CODE_TTL_SECS - 1).is_ok());
    assert_eq!(
        store.get_code(&e, 100 + CODE_TTL_SECS).err(),
        Some(TwoFACodeStoreError::LoginAttemptIdNotFound)
    );
    assert_eq!(store.remove_code(&e, 100 + CODE_TTL_SECS), Err(TwoFACodeStoreError::LoginAttemptIdNotFound));
}

#[test]
fn codes_of_other_emails_are_kept() {
    let mut store = HashmapTwoFACodeStore::new();
    let a = email("a@a.com");
    let b = email("b@a.com");
    store.add_code(a.clone(), LoginAttemptId::default(), TwoFACode::from_number(1), 0).unwrap();
    store.add_code(b.clone(), LoginAttemptId::default(), TwoFACode::from_number(2), 0).unwrap();
    assert!(store.remove_code(&a, 1).is_ok());
    assert_eq!(store.get_code(&b, 1).unwrap().1.as_str(), "000002");
}

#[test]
fn test_add_token() {
    let mut store = HashsetBannedTokenStore::new();
    let token = "test_token".to_string();
    store.ban_token(token.clone());
    assert!(store.is_banned(&token));
}

#[test]
fn test_contains_token() {
    let mut store = HashsetBannedTokenStore::new();
    let token = "test_token".to_string();
    store.ban_token(token.clone());
    assert!(store.is_banned(&token));
    assert!(!store.is_banned("other_token"));
}

#[test]
fn test_ban_token() {
    let mut store = HashsetBannedTokenStore::new();
    let token = "test_token".to_string();
    store.ban_token(token.clone());
    store.ban_token(token.clone());
    assert!(store.is_banned(&token));
}

#[test]
fn test_is_banned() {
    let mut store = HashsetBannedTokenStore::new();
    let token = "test_token".to_string();
    store.ban_token(token.clone());
    assert!(store.is_banned(&token));
    assert!(!store.is_banned("another_token"));
}

#[test]
fn test_add_user() {
    let mut store = HashmapUserStore::new();
    let user = User::new(email("user1@a.com"), password("password123"), true);
    let result = store.add_user(user);
    assert_eq!(result, Ok(()));

    let user = User::new(email("user1@a.com"), password("password123"), true);
    let result = store.add_user(user);
    assert_eq!(result, Err(UserStoreError::UserAlreadyExists));
}

#[test]
fn second_add_fails_regardless_of_password() {
    let mut store = HashmapUserStore::new();
    store.add_user(User::new(email("user1@a.com"), password("password123"), false)).unwrap();
    let result = store.add_user(User::new(email("user1@a.com"), password("another-password"), true));
    assert_eq!(result, Err(UserStoreError::UserAlreadyExists));
    assert!(!store.get_user(&email("user1@a.com")).unwrap().requires_2fa);
}

#[test]
fn test_get_user() {
    let mut store = HashmapUserStore::new();
    store.add_user(User::new(email("user1@a.com"), password("password123"), true)).unwrap();

    let account = store.get_user(&email("user1@a.com")).unwrap();
    assert!(account.email == email("user1@a.com"));
    assert!(account.requires_2fa);
    assert_ne!(account.password_hash, "password123");
    assert!(account.password_hash.starts_with("$argon2id$"));

    assert!(matches!(store.get_user(&email("user2@a.com")), Err(UserStoreError::UserNotFound)));
}

#[test]
fn test_validate_user() {
    let mut store = HashmapUserStore::new();
    store.add_user(User::new(email("user1@a.com"), password("password123"), true)).unwrap();

    let result_ok = store.validate_user(&email("user1@a.com"), &password("password123"));
    assert_eq!(result_ok, Ok(()));

    let result_invalid_cred = store.validate_user(&email("user1@a.com"), &password("password234"));
    assert_eq!(result_invalid_cred, Err(UserStoreError::InvalidCredentials));

    let result_not_found = store.validate_user(&email("user2@a.com"), &password("password234"));
    assert_eq!(result_not_found, Err(UserStoreError::UserNotFound));
}

#[test]
fn added_password_validates_and_extended_one_does_not() {
    let mut store = HashmapUserStore::new();
    store.add_user(User::new(email("e@example.com"), password("correct-horse"), false)).unwrap();
    assert_eq!(store.validate_user(&email("e@example.com"), &password("correct-horse")), Ok(()));
    assert_eq!(
        store.validate_user(&email("e@example.com"), &password("correct-horsex")),
        Err(UserStoreError::InvalidCredentials)
    );
}

#[test]
fn credential_outcome_maps_each_verdict() {
    assert_eq!(credential_outcome(Some(true)), Ok(()));
    assert_eq!(credential_outcome(Some(false)), Err(UserStoreError::InvalidCredentials));
    assert_eq!(credential_outcome(None), Err(UserStoreError::UnexpectedError));
}

#[test]
fn hash_then_check_password() {
    let hash = hash_new_password(&password("password123")).unwrap();
    assert_ne!(hash, "password123");
    assert_eq!(check_password(&hash, &password("password123")), Ok(()));
    assert_eq!(check_password(&hash, &password("password124")), Err(UserStoreError::InvalidCredentials));
}

#[test]
fn malformed_stored_hash_is_unexpected() {
    assert_eq!(check_password("not a hash", &password("password123")), Err(UserStoreError::UnexpectedError));
}

#[test]
fn insert_outcome_reads_rows_affected() {
    assert_eq!(insert_outcome(0), Err(UserStoreError::UserAlreadyExists));
    assert_eq!(insert_outcome(1), Ok(()));
}

#[test]
fn two_fa_code_key_has_prefix() {
    assert_eq!(two_fa_code_key(&email("user1@a.com")), "two_fa_code:user1@a.com");
}
