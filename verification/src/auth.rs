//! Operator account, sessions and offline TOTP (RFC 6238) second factor.
//!
//! The account file is written by the caller: each operation that changes
//! the account is split into a check that returns the account to persist and
//! `install_account`, which the caller runs once the file is written.

use vstd::prelude::*;
use crate::crypto::{
    argon2_accepts, argon2_hash, argon2_verify, base32_decode, base32_nopad, decode_totp_secret,
    encode_base32_nopad, encode_hex_lower, encode_salt, hex_lower, is_base32_text, otpauth_url, phc_parses,
    random_bytes, totp_accepts, totp_check, totp_url, unix_now, TotpAlgorithm,
};
use crate::text::{
    all_ws, byte_len, chars_of, contains_char, find_first, first_index_of, join_path,
    lemma_first_index_of, lowercase, opt_seq, opt_str, path_join, str_eq, to_lowercase, trim, trimmed,
    utf8_len_capped,
};
use crate::tokens::{unexpired, Grant, TokenTable};

verus! {

broadcast use vstd::string::group_string_axioms;

/// Hours a session stays valid.
pub const SESSION_TTL_HOURS: i64 = 24;

/// Seconds a session stays valid.
pub const SESSION_TTL_SECS: i64 = 86400;

/// Seconds a password-accepted login waits for its OTP.
pub const PENDING_TTL_SECS: i64 = 600;

/// Shortest accepted password, in UTF-8 bytes.
pub const MIN_PASSWORD_LEN: usize = 8;

/// Longest accepted password, in UTF-8 bytes.
pub const MAX_PASSWORD_LEN: usize = 128;

/// Digits of a one-time code.
pub const TOTP_DIGITS: usize = 6;

/// Steps of clock skew a code check allows on either side.
pub const TOTP_SKEW: u8 = 1;

/// Seconds in one TOTP step.
pub const TOTP_STEP: u64 = 30;

/// Issuer shown by authenticator apps.
pub const TOTP_ISSUER: &'static str = "SMOS";

/// The range of Unix times the clock can return (that of `chrono::DateTime<Utc>`).
pub open spec fn time_ok(now: i64) -> bool {
    -8_796_093_022_208 < now < 8_796_093_022_208
}

/// Why an authentication request is refused.
#[derive(Debug, Clone, Copy, PartialEq, Eq, Structural)]
pub enum AuthError {
    EmailLength,
    InvalidEmail,
    InvalidEmailDomain,
    PasswordLength,
    SetupAlreadyCompleted,
    SetupRequired,
    InvalidCredentials,
    InvalidStoredHash,
    Rng,
    EncodeSalt,
    HashPassword,
    InvalidTotpSecret,
    TotpInit,
    InvalidChallenge,
    NoAccount,
    InvalidOtp,
    TotpNotConfigured,
    OtpFormat,
    InvalidOtpCode,
    Unauthorized,
    TotpAlreadyEnabled,
    TotpSetupFirst,
    InvalidPassword,
    Clock,
}

impl AuthError {
    /// The message the service reports for this error.
    pub open spec fn text(self) -> Seq<char> {
        match self {
            AuthError::EmailLength => "email must be 5..=254 characters"@,
            AuthError::InvalidEmail => "invalid email"@,
            AuthError::InvalidEmailDomain => "invalid email domain"@,
            AuthError::PasswordLength => "password must be 8..=128 characters"@,
            AuthError::SetupAlreadyCompleted => "setup already completed"@,
            AuthError::SetupRequired => "setup required"@,
            AuthError::InvalidCredentials => "invalid email or password"@,
            AuthError::InvalidStoredHash => "invalid stored password hash"@,
            AuthError::Rng => "system RNG failed"@,
            AuthError::EncodeSalt => "encode salt failed"@,
            AuthError::HashPassword => "hash password failed"@,
            AuthError::InvalidTotpSecret => "invalid totp secret"@,
            AuthError::TotpInit => "totp init failed"@,
            AuthError::InvalidChallenge => "invalid or expired login challenge"@,
            AuthError::NoAccount => "no account"@,
            AuthError::InvalidOtp => "invalid OTP"@,
            AuthError::TotpNotConfigured => "TOTP not configured"@,
            AuthError::OtpFormat => "OTP must be 6 digits"@,
            AuthError::InvalidOtpCode => "invalid OTP code"@,
            AuthError::Unauthorized => "unauthorized"@,
            AuthError::TotpAlreadyEnabled => "TOTP already enabled"@,
            AuthError::TotpSetupFirst => "call totp setup first"@,
            AuthError::InvalidPassword => "invalid password"@,
            AuthError::Clock => "system clock unavailable"@,
        }
    }

    /// The message the service reports for this error.
    pub fn message(&self) -> (r: String)
        ensures
            r@ == self.text(),
    {
        match self {
            AuthError::EmailLength => "email must be 5..=254 characters".to_owned(),
            AuthError::InvalidEmail => "invalid email".to_owned(),
            AuthError::InvalidEmailDomain => "invalid email domain".to_owned(),
            AuthError::PasswordLength => "password must be 8..=128 characters".to_owned(),
            AuthError::SetupAlreadyCompleted => "setup already completed".to_owned(),
            AuthError::SetupRequired => "setup required".to_owned(),
            AuthError::InvalidCredentials => "invalid email or password".to_owned(),
            AuthError::InvalidStoredHash => "invalid stored password hash".to_owned(),
            AuthError::Rng => "system RNG failed".to_owned(),
            AuthError::EncodeSalt => "encode salt failed".to_owned(),
            AuthError::HashPassword => "hash password failed".to_owned(),
            AuthError::InvalidTotpSecret => "invalid totp secret".to_owned(),
            AuthError::TotpInit => "totp init failed".to_owned(),
            AuthError::InvalidChallenge => "invalid or expired login challenge".to_owned(),
            AuthError::NoAccount => "no account".to_owned(),
            AuthError::InvalidOtp => "invalid OTP".to_owned(),
            AuthError::TotpNotConfigured => "TOTP not configured".to_owned(),
            AuthError::OtpFormat => "OTP must be 6 digits".to_owned(),
            AuthError::InvalidOtpCode => "invalid OTP code".to_owned(),
            AuthError::Unauthorized => "unauthorized".to_owned(),
            AuthError::TotpAlreadyEnabled => "TOTP already enabled".to_owned(),
            AuthError::TotpSetupFirst => "call totp setup first".to_owned(),
            AuthError::InvalidPassword => "invalid password".to_owned(),
            AuthError::Clock => "system clock unavailable".to_owned(),
        }
    }
}

/// What `validate_email` makes of `raw`: trimmed, lower-cased, and checked.
pub open spec fn check_email(raw: Seq<char>) -> Result<Seq<char>, AuthError> {
    let e = lowercase(trimmed(raw));
    let at = first_index_of(e, '@');
    if byte_len(e) < 5 || byte_len(e) > 254 {
        Err(AuthError::EmailLength)
    } else if at == -1 || at == 0 || at == e.len() - 1 {
        Err(AuthError::InvalidEmail)
    } else if !e.skip(at + 1).contains('.') {
        Err(AuthError::InvalidEmailDomain)
    } else if e.contains(' ') {
        Err(AuthError::InvalidEmail)
    } else {
        Ok(e)
    }
}

/// An accepted email is the trimmed, lower-cased input, 5..=254 bytes long,
/// without spaces, with an `@` that is neither first nor last and no `@`
/// before it, and a `.` somewhere after that `@` (so `john.doe@localhost`
/// is refused).
pub proof fn accepted_email_shape(raw: Seq<char>, e: Seq<char>)
    requires
        check_email(raw) == Ok::<Seq<char>, AuthError>(e),
    ensures
        e == lowercase(trimmed(raw)),
        5 <= byte_len(e) <= 254,
        !e.contains(' '),
        exists|a: int|
            #![trigger e[a]]
            0 < a < e.len() - 1 && e[a] == '@' && (forall|k: int| 0 <= k < a ==> e[k] != '@') && (exists|j: int|
                a < j < e.len() && #[trigger] e[j] == '.'),
{
    lemma_first_index_of(e, '@');
    let a = first_index_of(e, '@');
    let d = e.skip(a + 1);
    let i = choose|i: int| 0 <= i < d.len() && d[i] == '.';
    assert(e[a + 1 + i] == '.');
    assert(e[a] == '@');
}

/// An address with no `.` after an `@` (as `john.doe@localhost`) is refused.
pub proof fn dotless_domain_refused(raw: Seq<char>)
    requires
        forall|a: int, j: int|
            #![trigger lowercase(trimmed(raw))[a], lowercase(trimmed(raw))[j]]
            0 <= a < j < lowercase(trimmed(raw)).len() && lowercase(trimmed(raw))[a] == '@' ==> lowercase(
                trimmed(raw),
            )[j] != '.',
    ensures
        check_email(raw) is Err,
{
    let e = lowercase(trimmed(raw));
    if check_email(raw) is Ok {
        accepted_email_shape(raw, e);
        lemma_first_index_of(e, '@');
        let a = choose|a: int|
            0 < a < e.len() - 1 && e[a] == '@' && (forall|k: int| 0 <= k < a ==> e[k] != '@') && (exists|j: int|
                a < j < e.len() && #[trigger] e[j] == '.');
        let a0 = first_index_of(e, '@');
        assert(a == a0) by {
            if a < a0 {
                assert(e[a] != '@');
            } else if a0 < a {
                assert(e[a0] == '@');
            }
        }
        let j = choose|j: int| a < j < e.len() && #[trigger] e[j] == '.';
        assert(e.skip(a + 1)[j - a - 1] == '.');
    }
}

/// A password is accepted when its UTF-8 length is 8..=128 bytes.
pub open spec fn password_ok(p: Seq<char>) -> bool {
    MIN_PASSWORD_LEN <= byte_len(p) <= MAX_PASSWORD_LEN
}

/// Trims and lower-cases an email address and checks its shape: 5..=254
/// bytes, one `@` that is neither first nor last, a `.` after it, no space.
pub fn validate_email(email: &str) -> (r: Result<String, AuthError>)
    ensures
        match r {
            Ok(e) => check_email(email@) == Ok::<Seq<char>, AuthError>(e@),
            Err(err) => check_email(email@) == Err::<Seq<char>, AuthError>(err),
        },
{
    let t = trim(email);
    let lower = to_lowercase(t.as_str());
    let ghost e = lower@;
    let v = chars_of(lower.as_str());
    let n = utf8_len_capped(&v, 254);
    if n < 5 || n > 254 {
        return Err(AuthError::EmailLength);
    }
    proof {
        lemma_first_index_of(e, '@');
    }
    let at = match find_first(&v, '@') {
        None => {
            return Err(AuthError::InvalidEmail);
        },
        Some(k) => k,
    };
    if at == 0 || at == v.len() - 1 {
        return Err(AuthError::InvalidEmail);
    }
    let mut domain_has_dot = false;
    let mut i: usize = at + 1;
    while i < v.len()
        invariant
            at + 1 <= i <= v.len(),
            v@ == e,
            domain_has_dot == e.skip(at + 1).take(i - at - 1).contains('.'),
        decreases v.len() - i,
    {
        let ghost d = e.skip(at + 1);
        let ghost j: int = i - at - 1;
        assert(d.take(j + 1) =~= d.take(j).push(v@[i as int]));
        if v[i] == '.' {
            assert(d.take(j + 1)[j] == '.');
            domain_has_dot = true;
        } else {
            proof {
                if d.take(j + 1).contains('.') {
                    let w = d.take(j + 1);
                    let k = choose|k: int| 0 <= k < w.len() && #[trigger] w[k] == '.';
                    assert(d.take(j)[k] == '.');
                }
            }
        }
        i = i + 1;
    }
    assert(e.skip(at + 1).take(i - at - 1) =~= e.skip(at + 1));
    if !domain_has_dot {
        return Err(AuthError::InvalidEmailDomain);
    }
    if contains_char(&v, ' ') {
        return Err(AuthError::InvalidEmail);
    }
    Ok(lower)
}

/// Checks the password length (8..=128 UTF-8 bytes).
pub fn validate_password(password: &str) -> (r: Result<(), AuthError>)
    ensures
        r is Ok <==> password_ok(password@),
        r matches Err(e) ==> e == AuthError::PasswordLength,
{
    let n = utf8_len_capped(&chars_of(password), MAX_PASSWORD_LEN);
    if n < MIN_PASSWORD_LEN || n > MAX_PASSWORD_LEN {
        Err(AuthError::PasswordLength)
    } else {
        Ok(())
    }
}

/// Argon2 PHC hash of `password` under 16 fresh random salt bytes. Whatever
/// salt came back, a successful hash parses and verifies against `password`.
pub fn hash_password(password: &str) -> (r: Result<String, AuthError>)
    ensures
        r matches Ok(h) ==> phc_parses(h@) && argon2_accepts(password@, h@),
        r matches Err(e) ==> e == AuthError::Rng || e == AuthError::HashPassword,
{
    let salt_bytes = match random_bytes(16) {
        Ok(b) => b,
        Err(_) => {
            return Err(AuthError::Rng);
        },
    };
    let salt = match encode_salt(salt_bytes.as_slice()) {
        Ok(s) => s,
        Err(_) => {
            return Err(AuthError::EncodeSalt);
        },
    };
    match argon2_hash(password, &salt) {
        Ok(h) => Ok(h),
        Err(_) => Err(AuthError::HashPassword),
    }
}

/// Verifies `password` against a stored PHC hash.
pub fn verify_password(password: &str, password_hash: &str) -> (r: Result<bool, AuthError>)
    ensures
        r is Ok <==> phc_parses(password_hash@),
        r matches Ok(b) ==> b == argon2_accepts(password@, password_hash@),
        r matches Err(e) ==> e == AuthError::InvalidStoredHash,
{
    match argon2_verify(password, password_hash) {
        Ok(b) => Ok(b),
        Err(_) => Err(AuthError::InvalidStoredHash),
    }
}

/// A token is 64 lower-case hex digits.
pub open spec fn is_token_text(t: Seq<char>) -> bool {
    exists|b: Seq<u8>| b.len() == 32 && t == hex_lower(b)
}

/// Hex encoding doubles the length.
pub proof fn lemma_hex_lower_len(b: Seq<u8>)
    ensures
        hex_lower(b).len() == 2 * b.len(),
    decreases b.len(),
{
    if b.len() > 0 {
        lemma_hex_lower_len(b.drop_first());
    }
}

/// 32 random bytes as 64 lower-case hex digits.
pub fn random_token() -> (r: Result<String, AuthError>)
    ensures
        r matches Ok(t) ==> is_token_text(t@) && t@.len() == 64,
        r matches Err(e) ==> e == AuthError::Rng,
{
    match random_bytes(32) {
        Ok(b) => {
            let t = encode_hex_lower(b.as_slice());
            proof {
                lemma_hex_lower_len(b@);
            }
            Ok(t)
        },
        Err(_) => Err(AuthError::Rng),
    }
}

/// 20 random bytes as base32 (no padding), as authenticator apps expect.
pub fn generate_totp_secret() -> (r: Result<String, AuthError>)
    ensures
        r matches Ok(s) ==> s@.len() == 32 && exists|b: Seq<u8>| b.len() == 20 && s@ == base32_nopad(b),
        r matches Err(e) ==> e == AuthError::Rng,
{
    match random_bytes(20) {
        Ok(b) => Ok(encode_base32_nopad(b.as_slice())),
        Err(_) => Err(AuthError::Rng),
    }
}

/// The key of a TOTP generator (SHA-1, 6 digits, 30 s steps, skew 1, issuer `SMOS`).
pub struct TotpKey {
    pub secret: Vec<u8>,
    pub account: String,
}

/// What `make_totp` gives for a stored secret and an account name: the
/// decoded secret, when it decodes, has at least 128 bits, and the account
/// name holds no `:` (the checks of `TOTP::new`).
pub open spec fn totp_key_of(secret_b32: Seq<char>, account: Seq<char>) -> Result<Seq<u8>, AuthError> {
    match base32_decode(secret_b32) {
        None => Err(AuthError::InvalidTotpSecret),
        Some(b) => if b.len() < 16 || account.contains(':') {
            Err(AuthError::TotpInit)
        } else {
            Ok(b)
        },
    }
}

/// Builds the TOTP key for a base32 secret.
pub fn make_totp(secret_b32: &str, account: &str) -> (r: Result<TotpKey, AuthError>)
    ensures
        match r {
            Ok(k) => totp_key_of(secret_b32@, account@) == Ok::<Seq<u8>, AuthError>(k.secret@)
                && k.account@ == account@,
            Err(e) => totp_key_of(secret_b32@, account@) == Err::<Seq<u8>, AuthError>(e),
        },
        is_base32_text(secret_b32@) ==> (base32_decode(secret_b32@) matches Some(v) && base32_nopad(v)
            == secret_b32@),
{
    let secret = match decode_totp_secret(secret_b32) {
        Ok(b) => b,
        Err(_) => {
            return Err(AuthError::InvalidTotpSecret);
        },
    };
    if secret.len() < 16 || contains_char(&chars_of(account), ':') {
        return Err(AuthError::TotpInit);
    }
    Ok(TotpKey { secret, account: account.to_owned() })
}

/// A one-time code has the right shape: six ASCII digits.
pub open spec fn otp_shape_ok(c: Seq<char>) -> bool {
    c.len() == 6 && forall|i: int| 0 <= i < 6 ==> crate::text::is_digit(#[trigger] c[i])
}

/// The TOTP check at one instant, skipped for instants before the first
/// step (and for the last 30 s that `u64` can hold).
pub open spec fn accepts_at(secret: Seq<u8>, code: Seq<char>, t: int) -> bool {
    30 <= t <= u64::MAX - 30 && totp_accepts(secret, code, t as u64, TotpAlgorithm::Sha1, TOTP_DIGITS, TOTP_SKEW, TOTP_STEP)
}

/// A code is accepted when the check passes at now, 30 s before or 30 s
/// after (each check itself allows one step of skew).
pub open spec fn code_accepted(secret: Seq<u8>, code: Seq<char>, now: i64) -> bool {
    now >= 0 && (accepts_at(secret, code, now as int) || accepts_at(secret, code, if now >= 30 {
        now - 30
    } else {
        0
    }) || accepts_at(secret, code, now + 30))
}


/// The operator account as stored in `auth.json`.
#[derive(Debug)]
pub struct AccountFile {
    pub email: String,
    /// Argon2 PHC string.
    pub password_hash: String,
    /// Base32 TOTP secret (set while enrolling and once enabled).
    pub totp_secret: Option<String>,
    pub totp_enabled: bool,
    /// Unix seconds.
    pub created_at: i64,
    /// Unix seconds.
    pub updated_at: i64,
}

pub ghost struct AccountView {
    pub email: Seq<char>,
    pub password_hash: Seq<char>,
    pub totp_secret: Option<Seq<char>>,
    pub totp_enabled: bool,
    pub created_at: i64,
    pub updated_at: i64,
}

impl View for AccountFile {
    type V = AccountView;

    open spec fn view(&self) -> AccountView {
        AccountView {
            email: self.email@,
            password_hash: self.password_hash@,
            totp_secret: opt_str(self.totp_secret),
            totp_enabled: self.totp_enabled,
            created_at: self.created_at,
            updated_at: self.updated_at,
        }
    }
}

fn clone_opt_str(o: &Option<String>) -> (r: Option<String>)
    ensures
        opt_str(r) == opt_str(*o),
{
    match o {
        Some(s) => Some(s.clone()),
        None => None,
    }
}

impl Clone for AccountFile {
    fn clone(&self) -> (r: Self)
        ensures
            r@ == self@,
    {
        AccountFile {
            email: self.email.clone(),
            password_hash: self.password_hash.clone(),
            totp_secret: clone_opt_str(&self.totp_secret),
            totp_enabled: self.totp_enabled,
            created_at: self.created_at,
            updated_at: self.updated_at,
        }
    }
}

/// The view of an optional account.
pub open spec fn opt_account(o: Option<AccountFile>) -> Option<AccountView> {
    match o {
        Some(a) => Some(a@),
        None => None,
    }
}

/// Whether setup is needed, the session's state and the 2FA flag.
#[derive(Debug)]
pub struct AuthStatus {
    pub setup_required: bool,
    pub authenticated: bool,
    pub email: Option<String>,
    pub totp_enabled: bool,
    pub session_ttl_hours: i64,
}

/// Answer to a login step: a session token, or a pending token awaiting an OTP.
#[derive(Debug)]
pub struct LoginResponse {
    pub status: String,
    pub token: Option<String>,
    pub pending_token: Option<String>,
    pub totp_required: bool,
    pub email: Option<String>,
}

/// What an authenticator app needs to enroll.
#[derive(Debug)]
pub struct TotpSetupResponse {
    pub secret: String,
    pub otpauth_url: String,
    pub issuer: String,
    pub account: String,
    pub algorithm: String,
    pub digits: u32,
    pub period: u64,
    pub note: String,
}

/// The authentication state as plain values.
pub ghost struct AuthView {
    /// Where the account file lives.
    pub path: Seq<char>,
    pub account: Option<AccountView>,
    pub sessions: Map<Seq<char>, Grant>,
    pub pending: Map<Seq<char>, Grant>,
    pub totp_enroll: Option<Seq<char>>,
}

/// Operator account, live sessions and pending second-factor logins.
pub struct AuthManager {
    path: String,
    account: Option<AccountFile>,
    sessions: TokenTable,
    pending: TokenTable,
    totp_enroll: Option<String>,
}

impl View for AuthManager {
    type V = AuthView;

    closed spec fn view(&self) -> AuthView {
        AuthView {
            path: self.path@,
            account: opt_account(self.account),
            sessions: self.sessions@,
            pending: self.pending@,
            totp_enroll: opt_str(self.totp_enroll),
        }
    }
}

/// The email a session token stands for at `now` (an empty token stands for nothing).
pub open spec fn session_lookup(sessions: Map<Seq<char>, Grant>, token: Seq<char>, now: i64) -> Option<Seq<char>> {
    if token.len() == 0 {
        None
    } else if unexpired(sessions, now).contains_key(token) {
        Some(sessions[token].email)
    } else {
        None
    }
}

/// The sessions left after a lookup at `now`: expired ones are dropped,
/// unless the token was empty (then nothing happens).
pub open spec fn sessions_after_lookup(sessions: Map<Seq<char>, Grant>, token: Seq<char>, now: i64) -> Map<Seq<char>, Grant> {
    if token.len() == 0 {
        sessions
    } else {
        unexpired(sessions, now)
    }
}

/// The outcome of checking an email and password against the account.
pub open spec fn login_check(account: Option<AccountView>, email: Seq<char>, password: Seq<char>) -> Result<AccountView, AuthError> {
    match check_email(email) {
        Err(e) => Err(e),
        Ok(e) => match account {
            None => Err(AuthError::SetupRequired),
            Some(a) => if a.email != e {
                Err(AuthError::InvalidCredentials)
            } else if !phc_parses(a.password_hash) {
                Err(AuthError::InvalidStoredHash)
            } else if !argon2_accepts(password, a.password_hash) {
                Err(AuthError::InvalidCredentials)
            } else {
                Ok(a)
            },
        },
    }
}

/// The outcome of checking a one-time code for `email` at `now`.
pub open spec fn totp_code_check(account: Option<AccountView>, email: Seq<char>, code: Seq<char>, now: i64) -> Result<(), AuthError> {
    match account {
        None => Err(AuthError::NoAccount),
        Some(a) => if a.email != email {
            Err(AuthError::InvalidOtp)
        } else {
            match a.totp_secret {
                None => Err(AuthError::TotpNotConfigured),
                Some(s) => match totp_key_of(s, a.email) {
                    Err(e) => Err(e),
                    Ok(secret) => if !otp_shape_ok(trimmed(code)) {
                        Err(AuthError::OtpFormat)
                    } else if code_accepted(secret, trimmed(code), now) {
                        Ok(())
                    } else {
                        Err(AuthError::InvalidOtpCode)
                    },
                },
            }
        },
    }
}

/// What a status request reports at `now`, and the sessions it leaves
/// (a lookup drops expired sessions; no token changes nothing).
pub open spec fn status_post(old_v: AuthView, new_v: AuthView, session_token: Option<Seq<char>>, r: AuthStatus, now: i64) -> bool {
    &&& r.setup_required == (old_v.account is None)
    &&& r.totp_enabled == (old_v.account matches Some(a) && a.totp_enabled)
    &&& r.session_ttl_hours == SESSION_TTL_HOURS
    &&& match session_token {
        Some(t) => {
            &&& r.authenticated == (session_lookup(old_v.sessions, t, now) is Some)
            &&& opt_str(r.email) == session_lookup(old_v.sessions, t, now)
            &&& new_v == (AuthView { sessions: sessions_after_lookup(old_v.sessions, t, now), ..old_v })
        },
        None => !r.authenticated && r.email is None && new_v == old_v,
    }
}

impl AuthManager {
    /// The manager's invariant (each token table holds every token once).
    pub closed spec fn wf(&self) -> bool {
        self.sessions.wf() && self.pending.wf()
    }

    /// Path of the account file (`<data_dir>/auth.json`).
    pub fn auth_path(data_dir: &str) -> (r: String)
        ensures
            r@ == path_join(data_dir@, "auth.json"@),
    {
        join_path(data_dir, "auth.json")
    }

    /// A manager for the account read from `path` (or none yet), with no
    /// sessions.
    pub fn from_account(path: String, account: Option<AccountFile>) -> (r: Self)
        ensures
            r.wf(),
            r@.path == path@,
            r@.account == opt_account(account),
            r@.sessions == Map::<Seq<char>, Grant>::empty(),
            r@.pending == Map::<Seq<char>, Grant>::empty(),
            r@.totp_enroll is None,
    {
        AuthManager {
            path,
            account,
            sessions: TokenTable::new(),
            pending: TokenTable::new(),
            totp_enroll: None,
        }
    }

    /// Where the account file lives.
    pub fn path(&self) -> (r: &str)
        ensures
            r@ == self@.path,
    {
        self.path.as_str()
    }

    /// True until the operator account exists.
    pub fn setup_required(&self) -> (r: bool)
        ensures
            r == (self@.account is None),
    {
        self.account.is_none()
    }

    /// The account's email, when the account exists.
    pub fn account_email(&self) -> (r: Option<String>)
        ensures
            opt_str(r) == match self@.account {
                Some(a) => Some(a.email),
                None => None::<Seq<char>>,
            },
    {
        match &self.account {
            Some(a) => Some(a.email.clone()),
            None => None,
        }
    }

    /// True when the account exists and has 2FA enabled.
    pub fn totp_enabled(&self) -> (r: bool)
        ensures
            r == (self@.account matches Some(a) && a.totp_enabled),
    {
        match &self.account {
            Some(a) => a.totp_enabled,
            None => false,
        }
    }

    /// The account, when it exists.
    pub fn account(&self) -> (r: Option<AccountFile>)
        ensures
            opt_account(r) == self@.account,
    {
        match &self.account {
            Some(a) => Some(a.clone()),
            None => None,
        }
    }

    /// The email a session token stands for at `now`; expired sessions are
    /// dropped on the way (unless the token is empty).
    pub fn validate_session_at(&mut self, token: &str, now: i64) -> (r: Option<String>)
        requires
            old(self).wf(),
        ensures
            final(self).wf(),
            opt_str(r) == session_lookup(old(self)@.sessions, token@, now),
            final(self)@ == (AuthView {
                sessions: sessions_after_lookup(old(self)@.sessions, token@, now),
                ..old(self)@
            }),
    {
        if token.is_empty() {
            return None;
        }
        self.sessions.retain_unexpired(now);
        self.sessions.get(token)
    }

    /// `validate_session_at` at the current time.
    pub fn validate_session(&mut self, token: &str) -> (r: Option<String>)
        requires
            old(self).wf(),
        ensures
            final(self).wf(),
            (exists|now: i64|
                #![trigger time_ok(now)]
                time_ok(now) && opt_str(r) == session_lookup(old(self)@.sessions, token@, now)
                    && final(self)@ == (AuthView {
                    sessions: sessions_after_lookup(old(self)@.sessions, token@, now),
                    ..old(self)@
                })) || (r is None && final(self)@ == old(self)@),
    {
        match unix_now() {
            Some(now) => {
                let r = self.validate_session_at(token, now);
                assert(time_ok(now));
                r
            },
            None => None,
        }
    }

    /// Ends a session.
    pub fn logout(&mut self, token: &str)
        requires
            old(self).wf(),
        ensures
            final(self).wf(),
            final(self)@ == (AuthView { sessions: old(self)@.sessions.remove(token@), ..old(self)@ }),
    {
        let _ = self.sessions.remove(token);
    }

    /// Opens a session for `email` that lasts 24 hours from `now`.
    pub fn create_session_at(&mut self, email: &str, now: i64) -> (r: Result<String, AuthError>)
        requires
            old(self).wf(),
            time_ok(now),
        ensures
            final(self).wf(),
            match r {
                Ok(t) => is_token_text(t@) && final(self)@ == (AuthView {
                    sessions: old(self)@.sessions.insert(
                        t@,
                        Grant { email: email@, expires_at: (now + SESSION_TTL_SECS) as i64 },
                    ),
                    ..old(self)@
                }),
                Err(e) => e == AuthError::Rng && final(self)@ == old(self)@,
            },
    {
        let token = random_token()?;
        self.sessions.insert(token.clone(), email.to_owned(), now + SESSION_TTL_SECS);
        Ok(token)
    }

    /// Session state for an optional token at `now`.
    pub fn status_at(&mut self, session_token: Option<&str>, now: i64) -> (r: AuthStatus)
        requires
            old(self).wf(),
        ensures
            final(self).wf(),
            status_post(old(self)@, final(self)@, opt_seq(session_token), r, now),
    {
        let (authenticated, email) = match session_token {
            Some(t) => {
                let first = self.validate_session_at(t, now);
                if first.is_some() {
                    proof {
                        lemma_unexpired_idempotent(old(self)@.sessions, now);
                    }
                    (true, self.validate_session_at(t, now))
                } else {
                    (false, None)
                }
            },
            None => (false, None),
        };
        AuthStatus {
            setup_required: self.setup_required(),
            authenticated,
            email,
            totp_enabled: self.totp_enabled(),
            session_ttl_hours: SESSION_TTL_HOURS,
        }
    }
}

/// What `login_at` does at time `now` (see its doc comment).
pub open spec fn login_post(old_v: AuthView, new_v: AuthView, email: Seq<char>, password: Seq<char>, r: Result<LoginResponse, AuthError>, now: i64) -> bool {
    match login_check(old_v.account, email, password) {
        Err(e) => r matches Err(x) && x == e && new_v == old_v,
        Ok(a) => match r {
            Err(e) => e == AuthError::Rng && new_v == old_v,
            Ok(resp) => opt_str(resp.email) == Some(a.email) && if a.totp_enabled {
                &&& resp.status@ == "totp_required"@
                &&& resp.totp_required
                &&& resp.token is None
                &&& resp.pending_token matches Some(p) && is_token_text(p@) && new_v
                    == (AuthView {
                    pending: old_v.pending.insert(
                        p@,
                        Grant { email: a.email, expires_at: (now + PENDING_TTL_SECS) as i64 },
                    ),
                    ..old_v
                })
            } else {
                &&& resp.status@ == "ok"@
                &&& !resp.totp_required
                &&& resp.pending_token is None
                &&& resp.token matches Some(t) && is_token_text(t@) && new_v
                    == (AuthView {
                    sessions: old_v.sessions.insert(
                        t@,
                        Grant { email: a.email, expires_at: (now + SESSION_TTL_SECS) as i64 },
                    ),
                    ..old_v
                })
            },
        },
    }
}

/// What `verify_login_totp_at` does at time `now` (see its doc comment).
pub open spec fn verify_login_post(old_v: AuthView, new_v: AuthView, pending_token: Seq<char>, code: Seq<char>, r: Result<LoginResponse, AuthError>, now: i64) -> bool {
    ({
        let live = unexpired(old_v.pending, now);
        if !live.contains_key(pending_token) {
            r matches Err(x) && x == AuthError::InvalidChallenge && new_v == (AuthView {
                pending: live,
                ..old_v
            })
        } else {
            let g = live[pending_token];
            let rest = AuthView { pending: live.remove(pending_token), ..old_v };
            match totp_code_check(old_v.account, g.email, code, now) {
                Err(e) => r matches Err(x) && x == e && new_v == rest,
                Ok(()) => match r {
                    Err(e) => e == AuthError::Rng && new_v == rest,
                    Ok(resp) => {
                        &&& resp.status@ == "ok"@
                        &&& !resp.totp_required
                        &&& resp.pending_token is None
                        &&& opt_str(resp.email) == Some(g.email)
                        &&& resp.token matches Some(t) && is_token_text(t@) && new_v
                            == (AuthView {
                            sessions: rest.sessions.insert(
                                t@,
                                Grant { email: g.email, expires_at: (now + SESSION_TTL_SECS) as i64 },
                            ),
                            ..rest
                        })
                    },
                },
            }
        }
    })
}

/// Enrollment data as authenticator apps read it: issuer `SMOS`, SHA-1,
/// 6 digits, 30-second period, a 32-character base32 secret, and the
/// `otpauth://totp/` URL of that decoded secret for the enrolled account.
pub open spec fn enrollment_shape(t: TotpSetupResponse) -> bool {
    &&& t.issuer@ == "SMOS"@
    &&& t.algorithm@ == "SHA1"@
    &&& t.digits == 6
    &&& t.period == 30
    &&& t.secret@.len() == 32
    &&& "otpauth://totp/"@.is_prefix_of(t.otpauth_url@)
    &&& base32_decode(t.secret@) matches Some(key) && t.otpauth_url@ == otpauth_url(
        key,
        t.account@,
        TOTP_ISSUER@,
        TotpAlgorithm::Sha1,
        TOTP_DIGITS,
        TOTP_STEP,
    )
}

/// The errors onboarding may still give for a free account, a valid email
/// and a valid password: the RNG or the hash failing, or, with 2FA asked
/// for, an email holding `:` (which a TOTP account name may not contain).
pub open spec fn setup_may_fail_with(email: Seq<char>, enable_totp: bool, x: AuthError) -> bool {
    ||| x == AuthError::Rng
    ||| x == AuthError::HashPassword
    ||| (x == AuthError::TotpInit && enable_totp && (check_email(email) matches Ok(e) && e.contains(':')))
}

/// An account about to be created, with the enrollment data when 2FA was asked for.
pub struct SetupPlan {
    pub account: AccountFile,
    pub totp: Option<TotpSetupResponse>,
}

/// The TOTP check at one instant; instants before the first step (or in
/// the last 30 s of `u64`) are not checked.
fn check_at(key: &TotpKey, code: &str, t: u64) -> (r: bool)
    ensures
        r == accepts_at(key.secret@, code@, t as int),
{
    if t < 30 || t > u64::MAX - 30 {
        false
    } else {
        totp_check(&key.secret, key.account.as_str(), code, t, TotpAlgorithm::Sha1, TOTP_DIGITS, TOTP_SKEW, TOTP_STEP)
    }
}

/// True when `c` is six ASCII digits.
fn otp_shape(c: &str) -> (r: bool)
    ensures
        r == otp_shape_ok(c@),
{
    let v = chars_of(c);
    if v.len() != 6 {
        return false;
    }
    let mut i: usize = 0;
    while i < 6
        invariant
            i <= 6,
            v@ == c@,
            v.len() == 6,
            forall|k: int| 0 <= k < i ==> crate::text::is_digit(#[trigger] v@[k]),
        decreases 6 - i,
    {
        let u = v[i] as u32;
        if !(0x30 <= u && u <= 0x39) {
            return false;
        }
        i = i + 1;
    }
    true
}

/// The enrollment answer for a new secret.
fn totp_payload(secret: String, key: &TotpKey, account: String, note: &str) -> (r: TotpSetupResponse)
    ensures
        r.secret@ == secret@,
        r.otpauth_url@ == otpauth_url(key.secret@, key.account@, TOTP_ISSUER@, TotpAlgorithm::Sha1, TOTP_DIGITS, TOTP_STEP),
        "otpauth://totp/"@.is_prefix_of(r.otpauth_url@),
        r.account@ == account@,
        r.issuer@ == "SMOS"@,
        r.algorithm@ == "SHA1"@,
        r.digits == 6,
        r.period == 30,
{
    TotpSetupResponse {
        secret,
        otpauth_url: totp_url(&key.secret, key.account.as_str(), TOTP_ISSUER, TotpAlgorithm::Sha1, TOTP_DIGITS, TOTP_SKEW, TOTP_STEP),
        issuer: TOTP_ISSUER.to_owned(),
        account,
        algorithm: "SHA1".to_owned(),
        digits: 6,
        period: 30,
        note: note.to_owned(),
    }
}

impl AuthManager {
    /// Checks email and password and, on success, opens a session, or a
    /// 10-minute pending login when 2FA is enabled. Errors leave the state
    /// unchanged; the same error answers an unknown email and a wrong password.
    pub fn login_at(&mut self, email: &str, password: &str, now: i64) -> (r: Result<LoginResponse, AuthError>)
        requires
            old(self).wf(),
            time_ok(now),
        ensures
            final(self).wf(),
            login_post(old(self)@, final(self)@, email@, password@, r, now),
    {
        let e = validate_email(email)?;
        let account = match &self.account {
            None => {
                return Err(AuthError::SetupRequired);
            },
            Some(a) => a.clone(),
        };
        if !str_eq(account.email.as_str(), e.as_str()) {
            return Err(AuthError::InvalidCredentials);
        }
        if !verify_password(password, account.password_hash.as_str())? {
            return Err(AuthError::InvalidCredentials);
        }
        if account.totp_enabled {
            let pending = random_token()?;
            self.pending.insert(pending.clone(), account.email.clone(), now + PENDING_TTL_SECS);
            return Ok(
                LoginResponse {
                    status: "totp_required".to_owned(),
                    token: None,
                    pending_token: Some(pending),
                    totp_required: true,
                    email: Some(account.email),
                },
            );
        }
        let token = self.create_session_at(account.email.as_str(), now)?;
        Ok(
            LoginResponse {
                status: "ok".to_owned(),
                token: Some(token),
                pending_token: None,
                totp_required: false,
                email: Some(account.email),
            },
        )
    }

    /// `login_at` at the current time.
    pub fn login(&mut self, email: &str, password: &str) -> (r: Result<LoginResponse, AuthError>)
        requires
            old(self).wf(),
        ensures
            final(self).wf(),
            (exists|now: i64|
                #![trigger time_ok(now)]
                time_ok(now) && login_post(old(self)@, final(self)@, email@, password@, r, now))
                || (r matches Err(e) && e == AuthError::Clock && final(self)@ == old(self)@),
    {
        match unix_now() {
            Some(now) => {
                let r = self.login_at(email, password, now);
                assert(time_ok(now));
                r
            },
            None => Err(AuthError::Clock),
        }
    }

    /// Checks a one-time code for `email` at `now` (six digits after
    /// trimming; accepted at now, 30 s before or 30 s after).
    pub fn check_totp_code_at(&self, email: &str, code: &str, now: i64) -> (r: Result<(), AuthError>)
        requires
            time_ok(now),
        ensures
            r == totp_code_check(self@.account, email@, code@, now),
    {
        let account = match &self.account {
            None => {
                return Err(AuthError::NoAccount);
            },
            Some(a) => a,
        };
        if !str_eq(account.email.as_str(), email) {
            return Err(AuthError::InvalidOtp);
        }
        let secret = match &account.totp_secret {
            None => {
                return Err(AuthError::TotpNotConfigured);
            },
            Some(s) => s,
        };
        let key = make_totp(secret.as_str(), account.email.as_str())?;
        let c = trim(code);
        if !otp_shape(c.as_str()) {
            return Err(AuthError::OtpFormat);
        }
        if now < 0 {
            return Err(AuthError::InvalidOtpCode);
        }
        let t = now as u64;
        let earlier = if t >= 30 { t - 30 } else { 0 };
        let ok = check_at(&key, c.as_str(), t) || check_at(&key, c.as_str(), earlier) || check_at(
            &key,
            c.as_str(),
            t + 30,
        );
        if !ok {
            return Err(AuthError::InvalidOtpCode);
        }
        Ok(())
    }

    /// Completes a 2FA login: the pending token is consumed whatever the
    /// outcome, and a correct code opens a session.
    pub fn verify_login_totp_at(&mut self, pending_token: &str, code: &str, now: i64) -> (r: Result<LoginResponse, AuthError>)
        requires
            old(self).wf(),
            time_ok(now),
        ensures
            final(self).wf(),
            verify_login_post(old(self)@, final(self)@, pending_token@, code@, r, now),
    {
        self.pending.retain_unexpired(now);
        let (email, _expires) = match self.pending.remove(pending_token) {
            None => {
                assert(self@.pending =~= unexpired(old(self)@.pending, now));
                return Err(AuthError::InvalidChallenge);
            },
            Some(x) => x,
        };
        self.check_totp_code_at(email.as_str(), code, now)?;
        let token = self.create_session_at(email.as_str(), now)?;
        Ok(
            LoginResponse {
                status: "ok".to_owned(),
                token: Some(token),
                pending_token: None,
                totp_required: false,
                email: Some(email),
            },
        )
    }

    /// `verify_login_totp_at` at the current time.
    pub fn verify_login_totp(&mut self, pending_token: &str, code: &str) -> (r: Result<LoginResponse, AuthError>)
        requires
            old(self).wf(),
        ensures
            final(self).wf(),
            (exists|now: i64|
                #![trigger time_ok(now)]
                time_ok(now) && verify_login_post(old(self)@, final(self)@, pending_token@, code@, r, now))
                || (r matches Err(e) && e == AuthError::Clock && final(self)@ == old(self)@),
            final(self)@.account == old(self)@.account,
    {
        match unix_now() {
            Some(now) => {
                let r = self.verify_login_totp_at(pending_token, code, now);
                assert(time_ok(now));
                r
            },
            None => Err(AuthError::Clock),
        }
    }

    /// Session state for an optional token at the current time.
    pub fn status(&mut self, session_token: Option<&str>) -> (r: AuthStatus)
        requires
            old(self).wf(),
        ensures
            final(self).wf(),
            (exists|now: i64|
                #![trigger time_ok(now)]
                time_ok(now) && status_post(old(self)@, final(self)@, opt_seq(session_token), r, now))
                || status_post(old(self)@, final(self)@, None, r, 0),
    {
        match unix_now() {
            Some(now) => {
                let r = self.status_at(session_token, now);
                assert(time_ok(now));
                r
            },
            None => self.status_at(None, 0),
        }
    }

    /// First-time onboarding, first half: checks that no account exists,
    /// the email and password, and builds the account to write (2FA stays
    /// off until a code confirms it). The enrollment secret, when asked
    /// for, is remembered; nothing else changes.
    pub fn prepare_setup_at(&mut self, email: &str, password: &str, enable_totp: bool, now: i64) -> (r: Result<SetupPlan, AuthError>)
        requires
            old(self).wf(),
        ensures
            final(self).wf(),
            old(self)@.account is Some ==> (r matches Err(x) && x == AuthError::SetupAlreadyCompleted),
            old(self)@.account is None ==> (check_email(email@) matches Err(e) ==> (r matches Err(x)
                && x == e)),
            old(self)@.account is None && check_email(email@) is Ok && !password_ok(password@)
                ==> (r matches Err(x) && x == AuthError::PasswordLength),
            old(self)@.account is None && check_email(email@) is Ok && password_ok(password@) ==> (r is Ok
                || (r matches Err(x) && setup_may_fail_with(email@, enable_totp, x))),
            r is Err ==> final(self)@ == old(self)@,
            r matches Ok(plan) ==> {
                &&& old(self)@.account is None
                &&& check_email(email@) == Ok::<Seq<char>, AuthError>(plan.account.email@)
                &&& password_ok(password@)
                &&& phc_parses(plan.account.password_hash@)
                &&& argon2_accepts(password@, plan.account.password_hash@)
                &&& !plan.account.totp_enabled
                &&& plan.account.created_at == now && plan.account.updated_at == now
                &&& (plan.totp is Some) == enable_totp
                &&& (plan.account.totp_secret is Some) == enable_totp
                &&& final(self)@ == (AuthView {
                    totp_enroll: if enable_totp {
                        opt_str(plan.account.totp_secret)
                    } else {
                        old(self)@.totp_enroll
                    },
                    ..old(self)@
                })
                &&& (plan.totp matches Some(t) ==> t.account@ == plan.account.email@ && Some(t.secret@)
                    == opt_str(plan.account.totp_secret) && enrollment_shape(t))
            },
    {
        if self.account.is_some() {
            return Err(AuthError::SetupAlreadyCompleted);
        }
        let e = validate_email(email)?;
        validate_password(password)?;
        let password_hash = hash_password(password)?;
        let mut totp = None;
        let mut totp_secret = None;
        if enable_totp {
            let secret = generate_totp_secret()?;
            proof {
                let b = choose|b: Seq<u8>| b.len() == 20 && secret@ == base32_nopad(b);
                assert(base32_nopad(b) == secret@);
            }
            let key = make_totp(secret.as_str(), e.as_str())?;
            totp = Some(totp_payload(secret.clone(), &key, e.clone(),
                "Scan with an authenticator app. OTP codes work offline (no Wi\u{2011}Fi) after the secret is stored on your device."));
            totp_secret = Some(secret.clone());
            self.totp_enroll = Some(secret);
        }
        let account = AccountFile {
            email: e,
            password_hash,
            totp_secret,
            totp_enabled: false,
            created_at: now,
            updated_at: now,
        };
        Ok(SetupPlan { account, totp })
    }

    /// First-time onboarding, second half (once the account file is written):
    /// installs the account and opens a session for it.
    pub fn finish_setup_at(&mut self, plan: SetupPlan, now: i64) -> (r: Result<(LoginResponse, Option<TotpSetupResponse>), AuthError>)
        requires
            old(self).wf(),
            time_ok(now),
        ensures
            final(self).wf(),
            final(self)@.path == old(self)@.path,
            final(self)@.account == Some(plan.account@),
            final(self)@.pending == old(self)@.pending,
            final(self)@.totp_enroll == old(self)@.totp_enroll,
            match r {
                Ok((resp, totp)) => {
                    &&& resp.status@ == "ok"@
                    &&& !resp.totp_required
                    &&& resp.pending_token is None
                    &&& opt_str(resp.email) == Some(plan.account.email@)
                    &&& totp == plan.totp
                    &&& resp.token matches Some(t) && is_token_text(t@) && final(self)@.sessions
                        == old(self)@.sessions.insert(
                        t@,
                        Grant { email: plan.account.email@, expires_at: (now + SESSION_TTL_SECS) as i64 },
                    )
                },
                Err(e) => e == AuthError::Rng && final(self)@.sessions == old(self)@.sessions,
            },
    {
        let SetupPlan { account, totp } = plan;
        let email = account.email.clone();
        self.account = Some(account);
        let token = self.create_session_at(email.as_str(), now)?;
        Ok(
            (
                LoginResponse {
                    status: "ok".to_owned(),
                    token: Some(token),
                    pending_token: None,
                    totp_required: false,
                    email: Some(email),
                },
                totp,
            ),
        )
    }

    /// Starts TOTP enrollment for the signed-in operator: returns the account
    /// to write (new secret, 2FA still off) and the enrollment data. The
    /// caller installs the account with the secret once it is written.
    pub fn begin_totp_setup_at(&self, session_email: &str, now: i64) -> (r: Result<(AccountFile, TotpSetupResponse), AuthError>)
        ensures
            match self@.account {
                None => r matches Err(x) && x == AuthError::SetupRequired,
                Some(a) => if a.email != session_email@ {
                    r matches Err(x) && x == AuthError::Unauthorized
                } else if a.totp_enabled {
                    r matches Err(x) && x == AuthError::TotpAlreadyEnabled
                } else {
                    match r {
                        Ok((acc, t)) => {
                            &&& acc@ == (AccountView {
                                totp_secret: Some(t.secret@),
                                totp_enabled: false,
                                updated_at: now,
                                ..a
                            })
                            &&& t.account@ == a.email
                            &&& totp_key_of(t.secret@, a.email) is Ok
                            &&& enrollment_shape(t)
                        },
                        Err(e) => e == AuthError::Rng || (e == AuthError::TotpInit && a.email.contains(':')),
                    }
                },
            },
    {
        let mut account = match &self.account {
            None => {
                return Err(AuthError::SetupRequired);
            },
            Some(a) => a.clone(),
        };
        if !str_eq(account.email.as_str(), session_email) {
            return Err(AuthError::Unauthorized);
        }
        if account.totp_enabled {
            return Err(AuthError::TotpAlreadyEnabled);
        }
        let secret = generate_totp_secret()?;
        proof {
            let b = choose|b: Seq<u8>| b.len() == 20 && secret@ == base32_nopad(b);
            assert(base32_nopad(b) == secret@);
        }
        let key = make_totp(secret.as_str(), account.email.as_str())?;
        let resp = totp_payload(secret.clone(), &key, account.email.clone(),
            "Scan with authenticator app or enter the secret manually. Codes work offline \u{2014} no network required.");
        account.totp_secret = Some(secret);
        account.totp_enabled = false;
        account.updated_at = now;
        Ok((account, resp))
    }

    /// Confirms enrollment with a live code: returns the account to write,
    /// with 2FA on. The caller installs it (clearing the enrollment) once written.
    pub fn enable_totp_at(&self, session_email: &str, code: &str, now: i64) -> (r: Result<AccountFile, AuthError>)
        requires
            time_ok(now),
        ensures
            match self@.account {
                None => r matches Err(x) && x == AuthError::SetupRequired,
                Some(a) => if a.email != session_email@ {
                    r matches Err(x) && x == AuthError::Unauthorized
                } else if a.totp_secret is None {
                    r matches Err(x) && x == AuthError::TotpSetupFirst
                } else {
                    match totp_code_check(self@.account, session_email@, code@, now) {
                        Err(e) => r matches Err(x) && x == e,
                        Ok(()) => r matches Ok(acc) && acc@ == (AccountView {
                            totp_enabled: true,
                            updated_at: now,
                            ..a
                        }),
                    }
                },
            },
    {
        let mut account = match &self.account {
            None => {
                return Err(AuthError::SetupRequired);
            },
            Some(a) => a.clone(),
        };
        if !str_eq(account.email.as_str(), session_email) {
            return Err(AuthError::Unauthorized);
        }
        if account.totp_secret.is_none() {
            return Err(AuthError::TotpSetupFirst);
        }
        self.check_totp_code_at(session_email, code, now)?;
        account.totp_enabled = true;
        account.updated_at = now;
        Ok(account)
    }

    /// Turns 2FA off after checking the password (and a code, when 2FA is
    /// on): returns the account to write, without secret. The caller installs
    /// it (clearing the enrollment) once written.
    pub fn disable_totp_at(&self, session_email: &str, password: &str, code: &str, now: i64) -> (r: Result<AccountFile, AuthError>)
        requires
            time_ok(now),
        ensures
            match self@.account {
                None => r matches Err(x) && x == AuthError::SetupRequired,
                Some(a) => if a.email != session_email@ {
                    r matches Err(x) && x == AuthError::Unauthorized
                } else if !phc_parses(a.password_hash) {
                    r matches Err(x) && x == AuthError::InvalidStoredHash
                } else if !argon2_accepts(password@, a.password_hash) {
                    r matches Err(x) && x == AuthError::InvalidPassword
                } else if a.totp_enabled && totp_code_check(self@.account, session_email@, code@, now) is Err {
                    r matches Err(x) && totp_code_check(self@.account, session_email@, code@, now)
                        == Err::<(), AuthError>(x)
                } else {
                    r matches Ok(acc) && acc@ == (AccountView {
                        totp_enabled: false,
                        totp_secret: None,
                        updated_at: now,
                        ..a
                    })
                },
            },
    {
        let mut account = match &self.account {
            None => {
                return Err(AuthError::SetupRequired);
            },
            Some(a) => a.clone(),
        };
        if !str_eq(account.email.as_str(), session_email) {
            return Err(AuthError::Unauthorized);
        }
        if !verify_password(password, account.password_hash.as_str())? {
            return Err(AuthError::InvalidPassword);
        }
        if account.totp_enabled {
            self.check_totp_code_at(session_email, code, now)?;
        }
        account.totp_enabled = false;
        account.totp_secret = None;
        account.updated_at = now;
        Ok(account)
    }

    /// Installs an account that has been written, with the enrollment secret
    /// to remember (none once 2FA is enabled or disabled).
    pub fn install_account(&mut self, account: AccountFile, enroll: Option<String>)
        requires
            old(self).wf(),
        ensures
            final(self).wf(),
            final(self)@ == (AuthView {
                account: Some(account@),
                totp_enroll: opt_str(enroll),
                ..old(self)@
            }),
    {
        self.account = Some(account);
        self.totp_enroll = enroll;
    }
}

/// Dropping expired sessions twice at the same instant drops nothing more.
pub proof fn lemma_unexpired_idempotent(m: Map<Seq<char>, Grant>, now: i64)
    ensures
        unexpired(unexpired(m, now), now) == unexpired(m, now),
{
    assert(unexpired(unexpired(m, now), now) =~= unexpired(m, now));
}


/// After a logout, the token no longer stands for a session, at any time.
pub proof fn logout_ends_session(sessions: Map<Seq<char>, Grant>, token: Seq<char>, now: i64)
    ensures
        session_lookup(sessions.remove(token), token, now) is None,
{
}

/// A session opened at `opened` keeps validating to its email for 24 hours,
/// whatever else the table holds (given the token was new to it or replaced).
pub proof fn session_valid_until_expiry(
    sessions: Map<Seq<char>, Grant>,
    token: Seq<char>,
    email: Seq<char>,
    opened: i64,
    now: i64,
)
    requires
        token.len() > 0,
        time_ok(opened),
        now < opened + SESSION_TTL_SECS,
    ensures
        session_lookup(
            sessions.insert(token, Grant { email, expires_at: (opened + SESSION_TTL_SECS) as i64 }),
            token,
            now,
        ) == Some(email),
{
    let m = sessions.insert(token, Grant { email, expires_at: (opened + SESSION_TTL_SECS) as i64 });
    assert(unexpired(m, now).contains_key(token));
}

/// A session is no longer valid once its expiry has passed.
pub proof fn session_expires(sessions: Map<Seq<char>, Grant>, token: Seq<char>, now: i64)
    requires
        sessions.contains_key(token),
        sessions[token].expires_at <= now,
    ensures
        session_lookup(sessions, token, now) is None,
{
}

/// The account that onboarding creates logs in with the same email and
/// password: what `prepare_setup_at` ensures of its plan is what
/// `login_check` needs.
pub proof fn login_after_setup(account: AccountView, email: Seq<char>, password: Seq<char>)
    requires
        check_email(email) == Ok::<Seq<char>, AuthError>(account.email),
        phc_parses(account.password_hash),
        argon2_accepts(password, account.password_hash),
    ensures
        login_check(Some(account), email, password) == Ok::<AccountView, AuthError>(account),
{
}

/// A password that the stored hash does not accept never logs in, and the
/// answer is the same as for an unknown email.
pub proof fn wrong_password_refused(account: AccountView, email: Seq<char>, password: Seq<char>)
    requires
        check_email(email) == Ok::<Seq<char>, AuthError>(account.email),
        phc_parses(account.password_hash),
        !argon2_accepts(password, account.password_hash),
    ensures
        login_check(Some(account), email, password) == Err::<AccountView, AuthError>(AuthError::InvalidCredentials),
{
}

/// An email that differs from the account's is refused with the same answer
/// as a wrong password.
pub proof fn unknown_email_refused(account: AccountView, email: Seq<char>, password: Seq<char>)
    requires
        check_email(email) matches Ok(e) && e != account.email,
    ensures
        login_check(Some(account), email, password) == Err::<AccountView, AuthError>(AuthError::InvalidCredentials),
{
}

/// A pending 2FA login is consumed by its first use, whatever the code.
pub proof fn pending_login_single_use(pending: Map<Seq<char>, Grant>, token: Seq<char>, now: i64)
    ensures
        !unexpired(pending, now).remove(token).contains_key(token),
{
}

/// A pending 2FA login answers one verification only: whatever the first
/// attempt gives, a second one with the same pending token is refused as an
/// invalid or expired challenge.
pub proof fn pending_login_answers_once(
    v0: AuthView,
    v1: AuthView,
    v2: AuthView,
    pending_token: Seq<char>,
    code1: Seq<char>,
    code2: Seq<char>,
    r1: Result<LoginResponse, AuthError>,
    r2: Result<LoginResponse, AuthError>,
    now1: i64,
    now2: i64,
)
    requires
        verify_login_post(v0, v1, pending_token, code1, r1, now1),
        verify_login_post(v1, v2, pending_token, code2, r2, now2),
    ensures
        r2 matches Err(x) && x == AuthError::InvalidChallenge,
{
    assert(!v1.pending.contains_key(pending_token));
    assert(!unexpired(v1.pending, now2).contains_key(pending_token));
}

/// A code check passes only for a six-digit code (after trimming) that the
/// stored secret accepts at now, 30 s before or 30 s after; so enabling
/// 2FA needs such a code.
pub proof fn totp_code_needs_live_code(account: AccountView, email: Seq<char>, code: Seq<char>, now: i64)
    requires
        totp_code_check(Some(account), email, code, now) is Ok,
    ensures
        account.email == email,
        account.totp_secret matches Some(s) && totp_key_of(s, account.email) matches Ok(k)
            && otp_shape_ok(trimmed(code)) && code_accepted(k, trimmed(code), now),
{
}

/// An empty session token never authenticates.
pub proof fn empty_token_never_authenticates(sessions: Map<Seq<char>, Grant>, now: i64)
    ensures
        session_lookup(sessions, Seq::<char>::empty(), now) is None,
{
}

} // verus!
