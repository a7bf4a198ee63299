use smos::auth::{
    make_totp, validate_email, validate_password, AuthError, AuthManager, SetupPlan,
};

fn unix_now() -> i64 {
    chrono::Utc::now().timestamp()
}

fn fresh() -> AuthManager {
    AuthManager::from_account("data/auth.json".to_string(), None)
}

/// Onboarding as the service runs it, without the file write in between.
fn setup(
    auth: &mut AuthManager,
    email: &str,
    password: &str,
    enable_totp: bool,
) -> Result<(smos::auth::LoginResponse, Option<smos::auth::TotpSetupResponse>), AuthError> {
    let now = unix_now();
    let plan: SetupPlan = auth.prepare_setup_at(email, password, enable_totp, now)?;
    auth.finish_setup_at(plan, now)
}

fn current_code(secret_b32: &str, email: &str) -> String {
    let secret = totp_rs::Secret::Encoded(secret_b32.to_string()).to_bytes().unwrap();
    let totp = totp_rs::TOTP::new(
        totp_rs::Algorithm::SHA1,
        6,
        1,
        30,
        secret,
        Some("SMOS".into()),
        email.to_string(),
    )
    .unwrap();
    totp.generate_current().unwrap()
}

#[test]
fn setup_login_logout_roundtrip() {
    let mut auth = fresh();
    assert!(auth.setup_required());

    let (login, totp) = setup(&mut auth, "admin@example.com", "password123", false).unwrap();
    assert!(totp.is_none());
    assert!(!auth.setup_required());
    let token = login.token.unwrap();
    assert_eq!(
        auth.validate_session(&token).as_deref(),
        Some("admin@example.com")
    );

    auth.logout(&token);
    assert!(auth.validate_session(&token).is_none());

    let again = auth.login("admin@example.com", "password123").unwrap();
    assert_eq!(again.status, "ok");
    assert!(again.token.is_some());
}

#[test]
fn rejects_short_password_and_duplicate_setup() {
    let mut auth = fresh();
    assert!(setup(&mut auth, "a@b.co", "short", false).is_err());
    setup(&mut auth, "a@b.co", "longenough", false).unwrap();
    assert!(setup(&mut auth, "other@b.co", "longenough", false).is_err());
}

#[test]
fn totp_enable_and_required_on_login() {
    let mut auth = fresh();
    let (login, _) = setup(&mut auth, "ops@example.com", "password123", false).unwrap();
    let token = login.token.unwrap();

    let now = unix_now();
    let (account, setup) = auth.begin_totp_setup_at("ops@example.com", now).unwrap();
    assert!(!setup.secret.is_empty());
    assert!(setup.otpauth_url.starts_with("otpauth://"));
    auth.install_account(account, Some(setup.secret.clone()));

    let code = current_code(&setup.secret, "ops@example.com");
    let enabled = auth.enable_totp_at("ops@example.com", &code, unix_now()).unwrap();
    auth.install_account(enabled, None);
    assert!(auth.totp_enabled());

    let step = auth.login("ops@example.com", "password123").unwrap();
    assert!(step.totp_required);
    let pending = step.pending_token.unwrap();
    let code2 = current_code(&setup.secret, "ops@example.com");
    let done = auth.verify_login_totp(&pending, &code2).unwrap();
    assert_eq!(done.status, "ok");
    assert!(done.token.is_some());

    // old session still valid until logout
    assert!(auth.validate_session(&token).is_some());
}

#[test]
fn wrong_password_fails() {
    let mut auth = fresh();
    setup(&mut auth, "a@b.co", "password123", false).unwrap();
    assert!(auth.login("a@b.co", "wrong-password").is_err());
}

#[test]
fn email_is_trimmed_and_lowercased() {
    assert_eq!(validate_email("  Admin@Example.COM \n").unwrap(), "admin@example.com");
    let mut auth = fresh();
    setup(&mut auth, " Admin@Example.com", "password123", false).unwrap();
    assert_eq!(auth.account_email().as_deref(), Some("admin@example.com"));
    let r = auth.login("ADMIN@example.com", "password123").unwrap();
    assert_eq!(r.email.as_deref(), Some("admin@example.com"));
}

#[test]
fn email_shape_errors() {
    assert_eq!(validate_email("a@b").unwrap_err(), AuthError::EmailLength);
    assert_eq!(validate_email(&format!("{}@b.co", "a".repeat(250))).unwrap_err(), AuthError::EmailLength);
    assert_eq!(validate_email("abcdef").unwrap_err(), AuthError::InvalidEmail);
    assert_eq!(validate_email("@bcdef.co").unwrap_err(), AuthError::InvalidEmail);
    assert_eq!(validate_email("abcdef@").unwrap_err(), AuthError::InvalidEmail);
    assert_eq!(validate_email("abc@defg").unwrap_err(), AuthError::InvalidEmailDomain);
    assert_eq!(validate_email("a b@c.de").unwrap_err(), AuthError::InvalidEmail);
    assert_eq!(validate_email("a@b.co").unwrap(), "a@b.co");
}

#[test]
fn password_length_is_in_bytes() {
    assert_eq!(validate_password("1234567").unwrap_err(), AuthError::PasswordLength);
    assert!(validate_password("12345678").is_ok());
    assert!(validate_password(&"x".repeat(128)).is_ok());
    assert_eq!(validate_password(&"x".repeat(129)).unwrap_err(), AuthError::PasswordLength);
    // four 2-byte characters are 8 bytes
    assert!(validate_password("éééé").is_ok());
}

#[test]
fn login_errors() {
    let mut auth = fresh();
    assert_eq!(auth.login("a@b.co", "password123").unwrap_err(), AuthError::SetupRequired);
    setup(&mut auth, "a@b.co", "password123", false).unwrap();
    assert_eq!(auth.login("x@b.co", "password123").unwrap_err(), AuthError::InvalidCredentials);
    assert_eq!(auth.login("a@b.co", "password124").unwrap_err(), AuthError::InvalidCredentials);
    assert_eq!(auth.login("bad", "password123").unwrap_err(), AuthError::EmailLength);
}

#[test]
fn setup_with_totp_returns_enrollment() {
    let mut auth = fresh();
    let (login, totp) = setup(&mut auth, "ops@example.com", "password123", true).unwrap();
    assert!(login.token.is_some());
    let t = totp.unwrap();
    assert_eq!(t.account, "ops@example.com");
    assert_eq!(t.issuer, "SMOS");
    assert_eq!(t.algorithm, "SHA1");
    assert_eq!((t.digits, t.period), (6, 30));
    assert_eq!(t.secret.len(), 32);
    assert!(t.otpauth_url.starts_with("otpauth://totp/"));
    // 2FA stays off until a code confirms it
    assert!(!auth.totp_enabled());
    let acc = auth.account().unwrap();
    assert_eq!(acc.totp_secret.as_deref(), Some(t.secret.as_str()));
}

#[test]
fn totp_code_errors() {
    let mut auth = fresh();
    setup(&mut auth, "ops@example.com", "password123", false).unwrap();
    let now = unix_now();
    assert_eq!(auth.check_totp_code_at("ops@example.com", "123456", now).unwrap_err(), AuthError::TotpNotConfigured);
    assert_eq!(auth.enable_totp_at("ops@example.com", "123456", now).unwrap_err(), AuthError::TotpSetupFirst);
    assert_eq!(auth.begin_totp_setup_at("other@example.com", now).unwrap_err(), AuthError::Unauthorized);
    let (account, s) = auth.begin_totp_setup_at("ops@example.com", now).unwrap();
    auth.install_account(account, Some(s.secret.clone()));
    assert_eq!(auth.check_totp_code_at("ops@example.com", "12345", now).unwrap_err(), AuthError::OtpFormat);
    assert_eq!(auth.check_totp_code_at("ops@example.com", "12a456", now).unwrap_err(), AuthError::OtpFormat);
    assert_eq!(auth.check_totp_code_at("x@example.com", "123456", now).unwrap_err(), AuthError::InvalidOtp);
    let good = current_code(&s.secret, "ops@example.com");
    let wrong = if good == "000000" { "111111" } else { "000000" };
    assert_eq!(auth.check_totp_code_at("ops@example.com", wrong, now).unwrap_err(), AuthError::InvalidOtpCode);
    // surrounding whitespace is trimmed
    assert!(auth.check_totp_code_at("ops@example.com", &format!(" {good} "), unix_now()).is_ok());
}

#[test]
fn pending_login_is_single_use_and_disable_needs_code() {
    let mut auth = fresh();
    setup(&mut auth, "ops@example.com", "password123", false).unwrap();
    let (account, s) = auth.begin_totp_setup_at("ops@example.com", unix_now()).unwrap();
    auth.install_account(account, Some(s.secret.clone()));
    let acc = auth.enable_totp_at("ops@example.com", &current_code(&s.secret, "ops@example.com"), unix_now()).unwrap();
    auth.install_account(acc, None);
    assert_eq!(auth.begin_totp_setup_at("ops@example.com", unix_now()).unwrap_err(), AuthError::TotpAlreadyEnabled);

    let step = auth.login("ops@example.com", "password123").unwrap();
    let pending = step.pending_token.unwrap();
    assert_eq!(auth.verify_login_totp(&pending, "abc").unwrap_err(), AuthError::OtpFormat);
    let code = current_code(&s.secret, "ops@example.com");
    assert_eq!(auth.verify_login_totp(&pending, &code).unwrap_err(), AuthError::InvalidChallenge);

    let now = unix_now();
    assert_eq!(auth.disable_totp_at("ops@example.com", "nope-nope", &code, now).unwrap_err(), AuthError::InvalidPassword);
    let off = auth.disable_totp_at("ops@example.com", "password123", &current_code(&s.secret, "ops@example.com"), unix_now()).unwrap();
    assert!(!off.totp_enabled);
    assert!(off.totp_secret.is_none());
    auth.install_account(off, None);
    let plain = auth.login("ops@example.com", "password123").unwrap();
    assert!(!plain.totp_required);
}

#[test]
fn sessions_expire_after_a_day() {
    let mut auth = fresh();
    setup(&mut auth, "a@b.co", "password123", false).unwrap();
    let now = 1_700_000_000;
    let t = auth.create_session_at("a@b.co", now).unwrap();
    assert_eq!(t.len(), 64);
    assert!(t.chars().all(|c| c.is_ascii_hexdigit() && !c.is_ascii_uppercase()));
    assert_eq!(auth.validate_session_at(&t, now + 86_399).as_deref(), Some("a@b.co"));
    assert!(auth.validate_session_at(&t, now + 86_400).is_none());
    // the expired session is gone for good
    assert!(auth.validate_session_at(&t, now).is_none());
    assert!(auth.validate_session_at("", now).is_none());
}

#[test]
fn status_reports_session() {
    let mut auth = fresh();
    let st = auth.status(None);
    assert!(st.setup_required && !st.authenticated && st.email.is_none());
    assert_eq!(st.session_ttl_hours, 24);
    let (login, _) = setup(&mut auth, "a@b.co", "password123", false).unwrap();
    let tok = login.token.unwrap();
    let st = auth.status(Some(&tok));
    assert!(!st.setup_required && st.authenticated);
    assert_eq!(st.email.as_deref(), Some("a@b.co"));
    let st = auth.status(Some("unknown"));
    assert!(!st.authenticated);
}

#[test]
fn make_totp_checks_secret_and_account() {
    // 20 bytes of base32
    let secret = "JBSWY3DPEHPK3PXPJBSWY3DPEHPK3PXP";
    assert!(make_totp(secret, "ops@example.com").is_ok());
    assert_eq!(make_totp("JBSWY3DP", "ops@example.com").err(), Some(AuthError::TotpInit));
    assert_eq!(make_totp(secret, "a:b@example.com").err(), Some(AuthError::TotpInit));
    assert_eq!(make_totp("not base32 !!", "ops@example.com").err(), Some(AuthError::InvalidTotpSecret));
}

#[test]
fn auth_path_and_messages() {
    assert_eq!(AuthManager::auth_path("/var/lib/smos"), "/var/lib/smos/auth.json");
    assert_eq!(AuthError::InvalidCredentials.message(), "invalid email or password");
    assert_eq!(AuthError::SetupAlreadyCompleted.message(), "setup already completed");
    let m = AuthManager::from_account("/var/lib/smos/auth.json".to_string(), None);
    assert_eq!(m.path(), "/var/lib/smos/auth.json");
}

#[test]
fn clock_reads_unix_seconds() {
    let t = smos::crypto::unix_now().expect("clock after 1970");
    assert!((t - unix_now()).abs() <= 2);
}

#[test]
fn totp_account_name_may_not_hold_a_colon() {
    let mut auth = fresh();
    let err = auth.prepare_setup_at("a:b@example.com", "password123", true, unix_now()).err().unwrap();
    assert_eq!(err, AuthError::TotpInit);
    assert!(auth.setup_required());
    assert!(auth.prepare_setup_at("a:b@example.com", "password123", false, unix_now()).is_ok());
}
