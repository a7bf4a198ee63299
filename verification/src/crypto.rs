//! The calls into the clock, the system RNG, `data-encoding`, `argon2` and
//! `totp-rs` that the authentication logic makes. Each contract is trusted:
//! it says what the outside function's source shows, and where the result
//! takes more than a few lines to state, it names it.

use vstd::prelude::*;
use argon2::{PasswordHasher, PasswordVerifier};

verus! {

broadcast use vstd::string::group_string_axioms;

#[verifier::external_type_specification]
#[verifier::external_body]
pub struct ExRandomError(getrandom::Error);

#[verifier::external_type_specification]
#[verifier::external_body]
pub struct ExPasswordHashError(argon2::password_hash::Error);

#[verifier::external_type_specification]
#[verifier::external_body]
pub struct ExSaltString(argon2::password_hash::SaltString);

#[verifier::external_type_specification]
#[verifier::external_body]
pub struct ExSecretParseError(totp_rs::SecretParseError);

#[verifier::external_type_specification]
#[verifier::external_body]
pub struct ExSystemTime(std::time::SystemTime);

/// `SystemTime::now`: the system clock. Nothing is promised of its value.
#[verifier::external_body]
pub(crate) fn system_time_now() -> (r: std::time::SystemTime) {
    std::time::SystemTime::now()
}

/// `SystemTime::duration_since(UNIX_EPOCH)` in whole seconds: `None` when
/// the time lies before the epoch. The value depends on the clock.
#[verifier::external_body]
pub(crate) fn secs_since_epoch(t: std::time::SystemTime) -> (r: Option<u64>) {
    t.duration_since(std::time::UNIX_EPOCH).ok().map(|d| d.as_secs())
}

/// Largest Unix second a `chrono::DateTime<Utc>` holds (year 262142).
pub const MAX_UNIX_SECS: u64 = 8_210_298_412_799;

/// Current Unix time in seconds, or `None` when the clock reads before 1970
/// or past the range of a `chrono::DateTime<Utc>`.
pub fn unix_now() -> (r: Option<i64>)
    ensures
        r matches Some(t) ==> 0 <= t <= MAX_UNIX_SECS,
{
    match secs_since_epoch(system_time_now()) {
        Some(s) => if s <= MAX_UNIX_SECS {
            Some(s as i64)
        } else {
            None
        },
        None => None,
    }
}

/// `n` bytes from the system RNG (`getrandom::fill`). The contract says only
/// how many bytes come back: their values depend on chance.
#[verifier::external_body]
pub(crate) fn random_bytes(n: usize) -> (r: Result<Vec<u8>, getrandom::Error>)
    ensures
        r matches Ok(v) ==> v@.len() == n,
{
    let mut buf = vec![0u8; n];
    getrandom::fill(&mut buf).map(|_| buf)
}

/// Lower-case hex digit for a value below 16.
pub open spec fn hex_digit(n: u8) -> char {
    if n < 10 {
        (0x30 + n) as char
    } else {
        (0x61 + n - 10) as char
    }
}

/// Lower-case hex encoding, two digits per byte, high nibble first.
pub open spec fn hex_lower(b: Seq<u8>) -> Seq<char>
    decreases b.len(),
{
    if b.len() == 0 {
        Seq::empty()
    } else {
        seq![hex_digit(b[0] / 16), hex_digit(b[0] % 16)] + hex_lower(b.drop_first())
    }
}

/// `data_encoding::HEXLOWER.encode`: each byte as two lower-case hex digits.
/// The source asserts that the input is at most `usize::MAX / 512` bytes.
#[verifier::external_body]
pub(crate) fn encode_hex_lower(b: &[u8]) -> (r: String)
    requires
        b@.len() <= usize::MAX / 512,
    ensures
        r@ == hex_lower(b@),
{
    data_encoding::HEXLOWER.encode(b)
}

/// Bit `i` of `b`, most significant bit of each byte first (0 past the end).
pub open spec fn bit_at(b: Seq<u8>, i: int) -> int {
    if 0 <= i && i / 8 < b.len() {
        ((b[i / 8] as int) / pow2_of((7 - i % 8) as nat)) % 2
    } else {
        0
    }
}

/// `2^n`.
pub open spec fn pow2_of(n: nat) -> int
    decreases n,
{
    if n == 0 {
        1
    } else {
        2 * pow2_of((n - 1) as nat)
    }
}

/// The value of the `k`-th five-bit group of `b`.
pub open spec fn group5(b: Seq<u8>, k: int) -> int {
    16 * bit_at(b, 5 * k) + 8 * bit_at(b, 5 * k + 1) + 4 * bit_at(b, 5 * k + 2) + 2 * bit_at(b, 5 * k + 3)
        + bit_at(b, 5 * k + 4)
}

/// The RFC 4648 base32 symbol of a value below 32: `A`..`Z`, then `2`..`7`.
pub open spec fn b32_symbol(v: int) -> char {
    if v < 26 {
        (0x41 + v) as char
    } else {
        (0x32 + v - 26) as char
    }
}

/// The RFC 4648 base32 text of `b`, upper-case and without padding: one
/// symbol per five bits, the last group filled with zero bits.
pub open spec fn base32_nopad(b: Seq<u8>) -> Seq<char> {
    Seq::new(((8 * b.len() + 4) / 5) as nat, |k: int| b32_symbol(group5(b, k)))
}

/// `data_encoding::BASE32_NOPAD.encode`: the RFC 4648 alphabet, most
/// significant bits first, no padding. The source asserts that the input is
/// at most `usize::MAX / 512` bytes.
#[verifier::external_body]
pub(crate) fn encode_base32_nopad(b: &[u8]) -> (r: String)
    requires
        b@.len() <= usize::MAX / 512,
    ensures
        r@ == base32_nopad(b@),
{
    data_encoding::BASE32_NOPAD.encode(b)
}

/// `SaltString::encode_b64`. The source fails only when the B64 text would
/// not fit 64 characters, so 16 input bytes always succeed.
#[verifier::external_body]
pub(crate) fn encode_salt(b: &[u8]) -> (r: Result<argon2::password_hash::SaltString, argon2::password_hash::Error>)
    ensures
        b@.len() == 16 ==> r is Ok,
{
    argon2::password_hash::SaltString::encode_b64(b)
}

/// True when `phc` parses as a PHC password-hash string (`PasswordHash::new`).
pub uninterp spec fn phc_parses(phc: Seq<char>) -> bool;

/// True when `Argon2::default().verify_password` accepts `password` against
/// the parsed `phc` string.
pub uninterp spec fn argon2_accepts(password: Seq<char>, phc: Seq<char>) -> bool;

/// `Argon2::default().hash_password(password, salt)` as a PHC string. The
/// hash depends on the (random) salt, so it is not named; the contract states
/// what the password-hash source shows of every outcome: the PHC string parses
/// back, and verifying the same password against it succeeds (verification
/// recomputes the hash with the parameters and salt read from the string).
#[verifier::external_body]
pub(crate) fn argon2_hash(password: &str, salt: &argon2::password_hash::SaltString) -> (r: Result<String, argon2::password_hash::Error>)
    ensures
        r matches Ok(h) ==> phc_parses(h@) && argon2_accepts(password@, h@),
{
    argon2::Argon2::default().hash_password(password.as_bytes(), salt).map(|h| h.to_string())
}

/// `PasswordHash::new(phc)` followed by `Argon2::default().verify_password`:
/// `Err` when the string does not parse, else whether the password matches.
#[verifier::external_body]
pub(crate) fn argon2_verify(password: &str, phc: &str) -> (r: Result<bool, argon2::password_hash::Error>)
    ensures
        r is Ok <==> phc_parses(phc@),
        r matches Ok(b) ==> b == argon2_accepts(password@, phc@),
{
    let parsed = argon2::password_hash::PasswordHash::new(phc)?;
    Ok(argon2::Argon2::default().verify_password(password.as_bytes(), &parsed).is_ok())
}

/// The bytes of an RFC 4648 base32 text (no padding), when it decodes.
pub uninterp spec fn base32_decode(s: Seq<char>) -> Option<Seq<u8>>;

/// True when `s` is the base32 text of some bytes.
pub open spec fn is_base32_text(s: Seq<char>) -> bool {
    exists|b: Seq<u8>| #[trigger] base32_nopad(b) == s
}

/// `Secret::Encoded(s).to_bytes()` of `totp-rs`, which is `base32::decode`
/// with the RFC 4648 alphabet and no padding. The decoded bytes are named;
/// the base32 text of some bytes decodes, back to bytes with that text (the
/// decoder maps each symbol back to its five bits and keeps `len * 5 / 8`
/// bytes).
#[verifier::external_body]
pub(crate) fn decode_totp_secret(s: &str) -> (r: Result<Vec<u8>, totp_rs::SecretParseError>)
    ensures
        match r {
            Ok(v) => base32_decode(s@) == Some(v@) && (is_base32_text(s@) ==> base32_nopad(v@) == s@),
            Err(_) => base32_decode(s@) is None && !is_base32_text(s@),
        },
{
    totp_rs::Secret::Encoded(s.to_string()).to_bytes()
}

/// The HMAC hash of a TOTP generator.
#[derive(Debug, Clone, Copy, PartialEq, Eq, Structural)]
pub enum TotpAlgorithm {
    Sha1,
    Sha256,
    Sha512,
}

/// True when `TOTP::check(code, time)` accepts for the given generator
/// parameters over `secret`: `code` equals the code of one of the steps from
/// `skew` before to `skew` after `time / step`.
pub uninterp spec fn totp_accepts(
    secret: Seq<u8>,
    code: Seq<char>,
    time: u64,
    algorithm: TotpAlgorithm,
    digits: usize,
    skew: u8,
    step: u64,
) -> bool;

/// `TOTP::check` on a generator built by `TOTP::new_unchecked`. The source
/// divides by `step`, subtracts `skew` from `time / step`, multiplies the
/// last step checked by `step` again, and raises 10 to `digits` in a `u32`:
/// each of these must stay in range.
#[verifier::external_body]
pub(crate) fn totp_check(
    secret: &Vec<u8>,
    account: &str,
    code: &str,
    time: u64,
    algorithm: TotpAlgorithm,
    digits: usize,
    skew: u8,
    step: u64,
) -> (r: bool)
    requires
        step > 0,
        digits <= 9,
        skew <= time / step,
        (time / step + skew) * step <= u64::MAX,
    ensures
        r == totp_accepts(secret@, code@, time, algorithm, digits, skew, step),
{
    let alg = match algorithm {
        TotpAlgorithm::Sha1 => totp_rs::Algorithm::SHA1,
        TotpAlgorithm::Sha256 => totp_rs::Algorithm::SHA256,
        TotpAlgorithm::Sha512 => totp_rs::Algorithm::SHA512,
    };
    totp_rs::TOTP::new_unchecked(alg, digits, skew, step, secret.clone(), None, account.to_string())
        .check(code, time)
}

/// The `otpauth://` URL `TOTP::get_url` gives for these generator parameters.
pub uninterp spec fn otpauth_url(
    secret: Seq<u8>,
    account: Seq<char>,
    issuer: Seq<char>,
    algorithm: TotpAlgorithm,
    digits: usize,
    step: u64,
) -> Seq<char>;

/// `TOTP::get_url` on a generator with an issuer. Its source formats
/// `otpauth://totp/<label>?<params>`.
#[verifier::external_body]
pub(crate) fn totp_url(
    secret: &Vec<u8>,
    account: &str,
    issuer: &str,
    algorithm: TotpAlgorithm,
    digits: usize,
    skew: u8,
    step: u64,
) -> (r: String)
    ensures
        r@ == otpauth_url(secret@, account@, issuer@, algorithm, digits, step),
        "otpauth://totp/"@.is_prefix_of(r@),
{
    let alg = match algorithm {
        TotpAlgorithm::Sha1 => totp_rs::Algorithm::SHA1,
        TotpAlgorithm::Sha256 => totp_rs::Algorithm::SHA256,
        TotpAlgorithm::Sha512 => totp_rs::Algorithm::SHA512,
    };
    totp_rs::TOTP::new_unchecked(alg, digits, skew, step, secret.clone(), Some(issuer.to_string()), account.to_string())
        .get_url()
}

} // verus!
