use auth_service::domain::{Email, LoginAttemptId, TwoFACode};
use auth_service::service::{
    prepare_signup, AuthAPIError, AuthService, LoginOutcome, Verify2FARequest, VerifyTokenRequest,
};
use auth_service::token::TokenIssuer;

const NOW: u64 = 1_700_000_000;

fn service() -> AuthService {
    AuthService::new(TokenIssuer::new(b"service test key".to_vec(), 600))
}

fn email(s: &str) -> Email {
    Email::parse(s.to_string()).unwrap()
}

fn token_request(token: &str) -> VerifyTokenRequest {
    VerifyTokenRequest { token: token.to_string() }
}

fn verify_request(email: &str, id: &str, code: &str) -> Verify2FARequest {
    Verify2FARequest {
        email: email.to_string(),
        login_attempt_id: id.to_string(),
        two_fa_code: code.to_string(),
    }
}

fn stored_challenge(app: &AuthService, e: &str) -> (LoginAttemptId, TwoFACode) {
    app.two_fa_code_store
        .get_code(&email(e), NOW)
        .expect("Failed to get 2FA code from store")
}

#[test]
fn should_return_201_if_valid_input() {
    let mut app = service();
    let response = app.signup("user@example.com".to_string(), "password123".to_string(), true);
    let response = response.ok().expect("signup failed");
    assert_eq!(response.message, "User created successfully!");
}

#[test]
fn signup_should_return_400_if_invalid_input() {
    let mut app = service();
    let cases = [
        ("", "password123"),
        ("a@a.com", ""),
        ("", ""),
        ("aa.com", "password123"),
        ("a@a.com", "pwd1234"),
    ];
    for (e, p) in cases {
        let r = app.signup(e.to_string(), p.to_string(), true);
        assert_eq!(r.err(), Some(AuthAPIError::InvalidCredentials), "Failed for input: {:?}", (e, p));
    }
}

#[test]
fn should_return_409_if_email_already_exists() {
    let mut app = service();
    assert!(app.signup("user@example.com".to_string(), "password123".to_string(), true).is_ok());
    let r = app.signup("user@example.com".to_string(), "password123".to_string(), true);
    assert_eq!(r.err(), Some(AuthAPIError::UserAlreadyExists));
}

#[test]
fn should_return_200_if_valid_credentials_and_2fa_disabled() {
    let mut app = service();
    app.signup("user@example.com".to_string(), "password123".to_string(), false).ok().unwrap();
    let r = app.login("user@example.com".to_string(), "password123".to_string(), NOW);
    match r {
        Ok(LoginOutcome::Authenticated(token)) => {
            assert!(!token.is_empty());
            let e = app.verify_token(&token_request(&token), NOW).unwrap();
            assert_eq!(e.as_str(), "user@example.com");
        }
        _ => panic!("expected a session token"),
    }
}

#[test]
fn should_return_206_if_valid_credentials_and_2fa_enabled() {
    let mut app = service();
    app.signup("user@example.com".to_string(), "password123".to_string(), true).ok().unwrap();
    let r = app.login("user@example.com".to_string(), "password123".to_string(), NOW);
    let id = match r {
        Ok(LoginOutcome::TwoFactorRequired(id)) => id,
        _ => panic!("expected a two-factor challenge"),
    };
    let (stored_id, _) = stored_challenge(&app, "user@example.com");
    assert_eq!(id.as_str(), stored_id.as_str());
}

#[test]
fn login_should_return_400_if_invalid_input() {
    let mut app = service();
    let cases = [
        ("", "password123"),
        ("a@a.com", ""),
        ("", ""),
        ("aa.com", "password123"),
        ("a@a.com", "passwor"),
    ];
    for (e, p) in cases {
        let r = app.login(e.to_string(), p.to_string(), NOW);
        assert!(matches!(r, Err(AuthAPIError::InvalidCredentials)), "Invalid input: {:?}", (e, p));
    }
}

#[test]
fn should_return_401_if_incorrect_credentials() {
    let mut app = service();
    app.signup("user@example.com".to_string(), "password123".to_string(), true).ok().unwrap();
    let cases = [
        ("user@example.com", "wrong_password"),
        ("wrong@email.com", "password123"),
        ("wrong@email.com", "wrong_password"),
    ];
    for (e, p) in cases {
        let r = app.login(e.to_string(), p.to_string(), NOW);
        assert!(matches!(r, Err(AuthAPIError::IncorrectCredentials)), "Failed for input: {:?}", (e, p));
    }
}

#[test]
fn should_return_200_if_correct_code() {
    let mut app = service();
    app.signup("user@example.com".to_string(), "password123".to_string(), true).ok().unwrap();
    assert!(app.login("user@example.com".to_string(), "password123".to_string(), NOW).is_ok());
    let (id, code) = stored_challenge(&app, "user@example.com");
    let token = app
        .verify_2fa(verify_request("user@example.com", id.as_str(), code.as_str()), NOW)
        .unwrap();
    assert!(!token.is_empty());
    assert_eq!(app.verify_token(&token_request(&token), NOW).unwrap().as_str(), "user@example.com");
}

#[test]
fn verify_2fa_should_return_400_if_invalid_input() {
    let mut app = service();
    let cases = [
        ("", "", ""),
        ("", "loginAttemptId", "2FACode"),
        ("email", "", "2FACode"),
        ("email", "loginAttemptId", ""),
        ("email", "loginAttemptId", "2FACode"),
    ];
    for (e, id, code) in cases {
        let r = app.verify_2fa(verify_request(e, id, code), NOW);
        assert_eq!(r, Err(AuthAPIError::InvalidCredentials), "Invalid input: {:?}", (e, id, code));
    }
}

#[test]
fn should_return_401_if_invalid_credentials() {
    let mut app = service();
    app.signup("user@example.com".to_string(), "password123".to_string(), true).ok().unwrap();
    assert!(app.login("user@example.com".to_string(), "password123".to_string(), NOW).is_ok());
    let login_attempt_id = LoginAttemptId::default();
    let two_fa_code = TwoFACode::parse("999999".to_string()).unwrap();
    let (_, stored_code) = stored_challenge(&app, "user@example.com");
    let code = if stored_code.as_str() == "999999" { "999998" } else { two_fa_code.as_str() };
    for e in ["user@example.com", "other@example.com"] {
        let r = app.verify_2fa(verify_request(e, login_attempt_id.as_str(), code), NOW);
        assert_eq!(r, Err(AuthAPIError::IncorrectCredentials), "Failed for input: {:?}", e);
    }
}

#[test]
fn should_return_401_if_old_code() {
    let mut app = service();
    app.signup("user@example.com".to_string(), "password123".to_string(), true).ok().unwrap();
    assert!(app.login("user@example.com".to_string(), "password123".to_string(), NOW).is_ok());
    let (first_id, first_code) = stored_challenge(&app, "user@example.com");
    let request = || verify_request("user@example.com", first_id.as_str(), first_code.as_str());
    assert!(app.verify_2fa(request(), NOW).is_ok());
    assert!(app.login("user@example.com".to_string(), "password123".to_string(), NOW).is_ok());
    assert_eq!(app.verify_2fa(request(), NOW), Err(AuthAPIError::IncorrectCredentials));
}

#[test]
fn should_return_401_if_same_code_twice() {
    let mut app = service();
    app.signup("user@example.com".to_string(), "password123".to_string(), true).ok().unwrap();
    assert!(app.login("user@example.com".to_string(), "password123".to_string(), NOW).is_ok());
    let (id, code) = stored_challenge(&app, "user@example.com");
    let token = app.verify_2fa(verify_request("user@example.com", id.as_str(), code.as_str()), NOW);
    assert!(token.is_ok());
    let again = app.verify_2fa(verify_request("user@example.com", id.as_str(), code.as_str()), NOW);
    assert_eq!(again, Err(AuthAPIError::IncorrectCredentials));
}

#[test]
fn earlier_challenge_is_invalidated_by_a_new_login() {
    let mut app = service();
    app.signup("user@example.com".to_string(), "password123".to_string(), true).ok().unwrap();
    assert!(app.login("user@example.com".to_string(), "password123".to_string(), NOW).is_ok());
    let (first_id, first_code) = stored_challenge(&app, "user@example.com");
    assert!(app.login("user@example.com".to_string(), "password123".to_string(), NOW + 1).is_ok());
    let r = app.verify_2fa(verify_request("user@example.com", first_id.as_str(), first_code.as_str()), NOW + 1);
    assert_eq!(r, Err(AuthAPIError::IncorrectCredentials));
    let (second_id, second_code) = stored_challenge(&app, "user@example.com");
    assert!(app
        .verify_2fa(verify_request("user@example.com", second_id.as_str(), second_code.as_str()), NOW + 1)
        .is_ok());
}

#[test]
fn login_with_issues_the_given_challenge() {
    let mut app = service();
    app.signup("user@example.com".to_string(), "password123".to_string(), true).ok().unwrap();
    let id = LoginAttemptId::default();
    let code = TwoFACode::from_number(42);
    let r = app.login_with("user@example.com".to_string(), "password123".to_string(), NOW, id.clone(), code);
    assert!(matches!(r, Ok(LoginOutcome::TwoFactorRequired(ref got)) if *got == id));
    let (stored_id, stored_code) = stored_challenge(&app, "user@example.com");
    assert!(stored_id == id);
    assert_eq!(stored_code.as_str(), "000042");
    let token = app.verify_2fa(verify_request("user@example.com", id.as_str(), "000042"), NOW + 599);
    assert!(token.is_ok());
}

#[test]
fn expired_challenge_is_refused() {
    let mut app = service();
    app.signup("user@example.com".to_string(), "password123".to_string(), true).ok().unwrap();
    let id = LoginAttemptId::default();
    let r = app.login_with("user@example.com".to_string(), "password123".to_string(), NOW, id.clone(), TwoFACode::from_number(42));
    assert!(r.is_ok());
    let late = app.verify_2fa(verify_request("user@example.com", id.as_str(), "000042"), NOW + 600);
    assert_eq!(late, Err(AuthAPIError::IncorrectCredentials));
}

#[test]
fn should_return_200_valid_token() {
    let mut app = service();
    app.signup("user@example.com".to_string(), "password123".to_string(), false).ok().unwrap();
    let token = match app.login("user@example.com".to_string(), "password123".to_string(), NOW) {
        Ok(LoginOutcome::Authenticated(t)) => t,
        _ => panic!("No auth cookie found"),
    };
    assert!(app.verify_token(&token_request(&token), NOW + 10).is_ok());
}

#[test]
fn should_return_401_if_invalid_token() {
    let app = service();
    let r = app.verify_token(&token_request("invalid_token"), NOW);
    assert_eq!(r.err(), Some(AuthAPIError::InvalidToken));
}

#[test]
fn should_return_401_if_banned_token() {
    let mut app = service();
    app.signup("user@example.com".to_string(), "password123".to_string(), false).ok().unwrap();
    let token = match app.login("user@example.com".to_string(), "password123".to_string(), NOW) {
        Ok(LoginOutcome::Authenticated(t)) => t,
        _ => panic!("No auth cookie found"),
    };
    assert_eq!(app.logout(token.clone(), NOW), Ok(()));
    assert_eq!(app.verify_token(&token_request(&token), NOW).err(), Some(AuthAPIError::InvalidToken));
    assert!(app.banned_token_store.is_banned(&token));
}

#[test]
fn logout_with_invalid_token_fails() {
    let mut app = service();
    assert_eq!(app.logout("invalid_token".to_string(), NOW), Err(AuthAPIError::InvalidToken));
    assert!(!app.banned_token_store.is_banned("invalid_token"));
}

#[test]
fn second_logout_with_same_token_fails() {
    let mut app = service();
    app.signup("user@example.com".to_string(), "password123".to_string(), false).ok().unwrap();
    let token = match app.login("user@example.com".to_string(), "password123".to_string(), NOW) {
        Ok(LoginOutcome::Authenticated(t)) => t,
        _ => panic!("expected a session token"),
    };
    assert_eq!(app.logout(token.clone(), NOW), Ok(()));
    assert_eq!(app.logout(token, NOW), Err(AuthAPIError::InvalidToken));
}

#[test]
fn expired_session_token_is_refused() {
    let mut app = service();
    app.signup("user@example.com".to_string(), "password123".to_string(), false).ok().unwrap();
    let token = match app.login("user@example.com".to_string(), "password123".to_string(), NOW) {
        Ok(LoginOutcome::Authenticated(t)) => t,
        _ => panic!("expected a session token"),
    };
    assert_eq!(app.verify_token(&token_request(&token), NOW + 600).err(), Some(AuthAPIError::InvalidToken));
}

#[test]
fn prepare_then_register_signup() {
    let mut app = service();
    assert_eq!(
        prepare_signup("aa.com".to_string(), "password123".to_string()).err(),
        Some(AuthAPIError::InvalidCredentials)
    );
    let (e, hash) = prepare_signup("user@example.com".to_string(), "password123".to_string()).unwrap();
    assert_ne!(hash, "password123");
    assert!(hash.starts_with("$argon2id$"));
    assert!(app.register_hashed(e.clone(), hash.clone(), false).is_ok());
    assert_eq!(app.register_hashed(e, hash, true).err(), Some(AuthAPIError::UserAlreadyExists));
    let r = app.login("user@example.com".to_string(), "password123".to_string(), NOW);
    assert!(matches!(r, Ok(LoginOutcome::Authenticated(_))));
}

#[test]
fn check_credentials_then_start_session() {
    let mut app = service();
    app.signup("user@example.com".to_string(), "password123".to_string(), true).ok().unwrap();
    assert_eq!(
        app.check_credentials("user@example.com".to_string(), "password124".to_string()).err(),
        Some(AuthAPIError::IncorrectCredentials)
    );
    let (e, requires_2fa) = app
        .check_credentials("user@example.com".to_string(), "password123".to_string())
        .unwrap();
    assert!(requires_2fa);
    let id = LoginAttemptId::default();
    let r = app.start_session(e, requires_2fa, NOW, id.clone(), TwoFACode::from_number(9));
    assert!(matches!(r, Ok(LoginOutcome::TwoFactorRequired(ref got)) if *got == id));
    assert_eq!(stored_challenge(&app, "user@example.com").1.as_str(), "000009");
}
