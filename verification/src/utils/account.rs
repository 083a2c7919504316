//! Account helpers: bearer tokens, one-time codes, password hashes and
//! discriminators.
//!
//! Signing, hashing and code generation are done by the crates made for
//! them; this module fixes what they are asked and decides on what they
//! answer.

use vstd::prelude::*;
use crate::{AppError, Status};

verus! {

/// Number of discriminators that one username can have: `0000` to `9999`.
pub const DISCRIMINATORS: usize = 10_000;

/// The decimal digit `d` as a character.
pub open spec fn digit(d: int) -> char {
    if d == 0 {
        '0'
    } else if d == 1 {
        '1'
    } else if d == 2 {
        '2'
    } else if d == 3 {
        '3'
    } else if d == 4 {
        '4'
    } else if d == 5 {
        '5'
    } else if d == 6 {
        '6'
    } else if d == 7 {
        '7'
    } else if d == 8 {
        '8'
    } else {
        '9'
    }
}

/// The number written with four decimal digits, zeros in front.
pub open spec fn padded(i: int) -> Seq<char> {
    seq![digit(i / 1000 % 10), digit(i / 100 % 10), digit(i / 10 % 10), digit(i % 10)]
}

/// The least number below `limit` whose four-digit form is not excluded.
pub open spec fn first_free(excluded: Seq<Seq<char>>, limit: int) -> Option<int>
    decreases limit,
{
    if limit <= 0 {
        None
    } else if first_free(excluded, limit - 1) is Some {
        first_free(excluded, limit - 1)
    } else if !excluded.contains(padded(limit - 1)) {
        Some(limit - 1)
    } else {
        None
    }
}

/// `first_free` finds a number exactly when one below the limit is free,
/// and then the least such number.
pub proof fn lemma_first_free(excluded: Seq<Seq<char>>, limit: int)
    ensures
        first_free(excluded, limit) is None <==> forall|i: int|
            0 <= i < limit ==> excluded.contains(#[trigger] padded(i)),
        first_free(excluded, limit) matches Some(n) ==> {
            &&& 0 <= n < limit
            &&& !excluded.contains(padded(n))
            &&& forall|i: int| 0 <= i < n ==> excluded.contains(#[trigger] padded(i))
        },
    decreases limit,
{
    if limit > 0 {
        lemma_first_free(excluded, limit - 1);
    }
}

/// The discriminator that [`generate_discriminator`] picks: none when ten
/// thousand or more are excluded, and otherwise the least four-digit number
/// that is not excluded.
pub open spec fn free_discriminator(excluded: Seq<Seq<char>>) -> Option<Seq<char>> {
    if excluded.len() >= DISCRIMINATORS {
        None
    } else {
        match first_free(excluded, DISCRIMINATORS as int) {
            Some(n) => Some(padded(n)),
            None => None,
        }
    }
}

/// Numbers below ten thousand that are written alike are the same number.
pub proof fn lemma_padded_injective(i: int, j: int)
    requires
        0 <= i < 10_000,
        0 <= j < 10_000,
        padded(i) == padded(j),
    ensures
        i == j,
{
    assert(padded(i)[0] == padded(j)[0]);
    assert(padded(i)[1] == padded(j)[1]);
    assert(padded(i)[2] == padded(j)[2]);
    assert(padded(i)[3] == padded(j)[3]);
    assert(i / 1000 % 10 == j / 1000 % 10);
    assert(i / 100 % 10 == j / 100 % 10);
    assert(i / 10 % 10 == j / 10 % 10);
    assert(i % 10 == j % 10);
}

/// A list that excludes every number below `n` has at least `n` entries.
proof fn lemma_excluding_takes_room(excluded: Seq<Seq<char>>, n: int)
    requires
        0 <= n <= 10_000,
        forall|i: int| 0 <= i < n ==> excluded.contains(#[trigger] padded(i)),
    ensures
        excluded.len() >= n,
    decreases n,
{
    if n > 0 {
        let last = padded(n - 1);
        let k = choose|k: int| 0 <= k < excluded.len() && excluded[k] == last;
        let rest = excluded.remove(k);
        assert forall|i: int| 0 <= i < n - 1 implies rest.contains(#[trigger] padded(i)) by {
            let w = choose|w: int| 0 <= w < excluded.len() && excluded[w] == padded(i);
            if w == k {
                lemma_padded_injective(i, n - 1);
            }
            if w < k {
                assert(rest[w] == excluded[w]);
            } else {
                assert(rest[w - 1] == excluded[w]);
            }
        }
        lemma_excluding_takes_room(rest, n - 1);
    }
}

/// A discriminator is found exactly when fewer than ten thousand are
/// excluded: there are ten thousand of them, so fewer cannot exclude all.
pub proof fn lemma_discriminator_found(excluded: Seq<Seq<char>>)
    ensures
        free_discriminator(excluded) is Some <==> excluded.len() < DISCRIMINATORS,
{
    lemma_first_free(excluded, DISCRIMINATORS as int);
    if excluded.len() < DISCRIMINATORS && first_free(excluded, DISCRIMINATORS as int) is None {
        lemma_excluding_takes_room(excluded, DISCRIMINATORS as int);
    }
}

/// One decimal digit as text.
fn digit_text(d: u32) -> (text: &'static str)
    requires
        d < 10,
    ensures
        text@ == seq![digit(d as int)],
{
    proof {
        reveal_strlit("0");
        reveal_strlit("1");
        reveal_strlit("2");
        reveal_strlit("3");
        reveal_strlit("4");
        reveal_strlit("5");
        reveal_strlit("6");
        reveal_strlit("7");
        reveal_strlit("8");
        reveal_strlit("9");
    }
    let text = match d {
        0 => "0",
        1 => "1",
        2 => "2",
        3 => "3",
        4 => "4",
        5 => "5",
        6 => "6",
        7 => "7",
        8 => "8",
        _ => "9",
    };
    assert(text@ =~= seq![digit(d as int)]);
    text
}

/// The number written with four decimal digits, zeros in front.
pub fn pad(i: u32) -> (text: String)
    requires
        i < 10_000,
    ensures
        text@ == padded(i as int),
{
    let mut text = String::from_str(digit_text(i / 1000 % 10));
    text.append(digit_text(i / 100 % 10));
    text.append(digit_text(i / 10 % 10));
    text.append(digit_text(i % 10));
    assert(text@ =~= padded(i as int));
    text
}

/// Whether the slice holds this text.
fn is_excluded(excluded: &[String], text: &String) -> (found: bool)
    ensures
        found == excluded.deep_view().contains(text@),
{
    let mut i: usize = 0;
    while i < excluded.len()
        invariant
            i <= excluded.len(),
            forall|j: int| 0 <= j < i ==> excluded[j]@ != text@,
        decreases excluded.len() - i,
    {
        if excluded[i] == *text {
            assert(excluded.deep_view()[i as int] == text@);
            return true;
        }
        i += 1;
    }
    false
}

/// Picks the discriminator for a new account whose username is shared by
/// the accounts with the excluded discriminators.
pub fn generate_discriminator(excluded: &[String]) -> (picked: Option<String>)
    ensures
        picked.deep_view() == free_discriminator(excluded.deep_view()),
        picked is Some <==> excluded.len() < DISCRIMINATORS,
{
    proof {
        lemma_discriminator_found(excluded.deep_view());
    }
    if excluded.len() >= DISCRIMINATORS {
        return None;
    }
    let mut i: u32 = 0;
    while i < 10_000
        invariant
            i <= 10_000,
            excluded.len() < DISCRIMINATORS,
            first_free(excluded.deep_view(), i as int) is None,
        decreases 10_000 - i,
    {
        let text = pad(i);
        if !is_excluded(excluded, &text) {
            proof {
                lemma_first_free(excluded.deep_view(), i as int);
                lemma_first_free(excluded.deep_view(), DISCRIMINATORS as int);
                let n = first_free(excluded.deep_view(), DISCRIMINATORS as int);
                assert(n is Some);
                assert(n->0 == i);
            }
            return Some(text);
        }
        i += 1;
    }
    None
}

/// Seconds that a bearer token stays valid: seven days.
pub const TOKEN_LIFETIME: u64 = 604_800;

/// Who issues the bearer tokens.
pub const TOKEN_ISSUER: &'static str = "betalky";

/// The error of the token crate. Nothing is read from it.
#[verifier::external_type_specification]
#[verifier::external_body]
pub struct ExTokenError(jsonwebtoken::errors::Error);

/// The signed token for these claims under this key, when signing succeeds:
/// what `jsonwebtoken::encode` returns for an HS512 header, the claims
/// `sub`, `iss` and `exp`, and the key taken as a secret.
pub uninterp spec fn signed_token(sub: Seq<char>, iss: Seq<char>, exp: u64, key: Seq<char>) -> Option<
    Seq<char>,
>;

/// Signs the three claims into a token.
///
/// Calls `jsonwebtoken::encode` with an HS512 header, a JSON object of the
/// claims `sub`, `iss` and `exp`, and `EncodingKey::from_secret` of the
/// key's bytes. The contract claims only that the outcome is a function of
/// the four arguments, and gives it the name [`signed_token`].
#[verifier::external_body]
fn sign_claims(sub: &str, iss: &str, exp: u64, key: &str) -> (signed: Result<
    String,
    jsonwebtoken::errors::Error,
>)
    ensures
        match signed {
            Ok(token) => signed_token(sub@, iss@, exp, key@) == Some(token@),
            Err(_) => signed_token(sub@, iss@, exp, key@) is None,
        },
{
    let mut claims = serde_json::Map::new();
    claims.insert("sub".to_string(), serde_json::Value::from(sub));
    claims.insert("iss".to_string(), serde_json::Value::from(iss));
    claims.insert("exp".to_string(), serde_json::Value::from(exp));
    let header = jsonwebtoken::Header::new(jsonwebtoken::Algorithm::HS512);
    jsonwebtoken::encode(&header, &claims, &jsonwebtoken::EncodingKey::from_secret(key.as_bytes()))
}

/// The token that is issued to the user `id` at `now` under `key`, when
/// there is one: signed for seven days from `now`.
pub open spec fn issued_token(id: Seq<char>, key: Seq<char>, now: u64) -> Option<Seq<char>> {
    if now + TOKEN_LIFETIME > u64::MAX {
        None
    } else {
        signed_token(id, TOKEN_ISSUER@, (now + TOKEN_LIFETIME) as u64, key)
    }
}

/// Issues a bearer token to the user `id`, valid for seven days from `now`.
/// Fails as an internal error when the token cannot be signed.
pub fn generate_token(id: String, key: &str, now: u64) -> (issued: Result<String, AppError>)
    ensures
        match issued {
            Ok(token) => issued_token(id@, key@, now) == Some(token@),
            Err(e) => issued_token(id@, key@, now) is None && e == AppError(
                Status::InternalServerError,
            ),
        },
{
    let exp = match now.checked_add(TOKEN_LIFETIME) {
        Some(exp) => exp,
        None => {
            return Err(AppError(Status::InternalServerError));
        },
    };
    match sign_claims(id.as_str(), TOKEN_ISSUER, exp, key) {
        Ok(token) => Ok(token),
        Err(_) => Err(AppError(Status::InternalServerError)),
    }
}

/// Whether the bearer token is valid under the key at this moment.
///
/// Calls `jsonwebtoken::decode` with `DecodingKey::from_secret` of the
/// key's bytes and `Validation::new` for HS512, which checks the signature
/// and compares the expiry with the system clock, and reports whether the
/// call succeeded. Nothing is claimed of the answer: it changes with time.
#[verifier::external_body]
pub fn validate_token(token: &str, key: &str) -> (valid: bool) {
    jsonwebtoken::decode::<serde_json::Value>(
        token,
        &jsonwebtoken::DecodingKey::from_secret(key.as_bytes()),
        &jsonwebtoken::Validation::new(jsonwebtoken::Algorithm::HS512),
    ).is_ok()
}

/// The one-time code of the secret at the time, when the secret is usable:
/// what `totp_rs::TOTP::generate` returns for the TOTP that the RFC 6238
/// defaults make of the base32 secret.
pub uninterp spec fn totp_at(secret: Seq<char>, time: u64) -> Option<Seq<char>>;

/// Computes the one-time code of a base32 secret at a time.
///
/// Decodes the secret with `totp_rs::Secret::to_bytes`, builds the TOTP
/// with `Rfc6238::with_defaults` and `TOTP::from_rfc6238`, and calls
/// `TOTP::generate`. There is no code when one of the first three refuses
/// the secret. The contract claims only that the outcome is a function of
/// the two arguments, and gives it the name [`totp_at`].
#[verifier::external_body]
fn totp_code(secret: &str, time: u64) -> (code: Option<String>)
    ensures
        code.deep_view() == totp_at(secret@, time),
{
    let bytes = totp_rs::Secret::Encoded(secret.to_string()).to_bytes().ok()?;
    let rfc = totp_rs::Rfc6238::with_defaults(bytes).ok()?;
    let totp = totp_rs::TOTP::from_rfc6238(rfc).ok()?;
    Some(totp.generate(time))
}

/// Whether `code_to_check` is the one-time code of the secret at `now`.
/// A secret that is not usable has no code, so nothing matches it.
pub fn verify_otp(secret: &str, code_to_check: &str, now: u64) -> (matches: bool)
    ensures
        matches == (totp_at(secret@, now) == Some(code_to_check@)),
{
    match totp_code(secret, now) {
        Some(code) => code == String::from_str(code_to_check),
        None => false,
    }
}

/// Whether the password verifies against the hash, when the hash can be
/// read: what `PasswordVerifier::verify_password` of `Argon2::default()`
/// answers for the hash parsed by `PasswordHash::new`.
pub uninterp spec fn password_verdict(password: Seq<char>, hash: Seq<char>) -> Option<bool>;

/// Checks a password against a stored hash in PHC string format.
///
/// Parses the hash with `argon2::PasswordHash::new` and calls
/// `verify_password` on `Argon2::default()`. There is no verdict when the
/// hash does not parse. The contract claims only that the outcome is a
/// function of the two arguments, and gives it the name
/// [`password_verdict`].
#[verifier::external_body]
pub(crate) fn check_password(password: &str, hash: &str) -> (verdict: Option<bool>)
    ensures
        verdict == password_verdict(password@, hash@),
{
    match argon2::PasswordHash::new(hash) {
        Ok(parsed) => Some(
            argon2::PasswordVerifier::verify_password(
                &argon2::Argon2::default(),
                password.as_bytes(),
                &parsed,
            ).is_ok(),
        ),
        Err(_) => None,
    }
}

/// Hashes a password under a fresh random salt.
///
/// Draws the salt with `SaltString::generate` from the operating system's
/// generator and calls `hash_password` on `Argon2::default()`; renders the
/// hash in PHC string format. Nothing is claimed of the result: it changes
/// with the salt.
#[verifier::external_body]
pub(crate) fn hash_password(password: &str) -> (hash: Option<String>) {
    let salt = argon2::password_hash::SaltString::generate(
        &mut argon2::password_hash::rand_core::OsRng,
    );
    match argon2::PasswordHasher::hash_password(
        &argon2::Argon2::default(),
        password.as_bytes(),
        &salt,
    ) {
        Ok(hash) => Some(hash.to_string()),
        Err(_) => None,
    }
}

} // verus!
