use betalky::routes::account::{
    reset, reset_check, reset_request, signin, signin_with, signup, signup_check,
    to_creation_time, verify,
};
use betalky::routes::structs::{ResetBody, SigninBody, SignupBody, User};
use betalky::utils::account::{
    generate_discriminator, generate_token, pad, validate_token, verify_otp,
};
use betalky::{AppError, Auth, Status};

const SECRET: &str = "GEZDGNBVGY3TQOJQGEZDGNBVGY3TQOJQ";

fn s(text: &str) -> String {
    text.to_string()
}

fn hashed(password: &str) -> String {
    let salt = argon2::password_hash::SaltString::generate(
        &mut argon2::password_hash::rand_core::OsRng,
    );
    argon2::PasswordHasher::hash_password(&argon2::Argon2::default(), password.as_bytes(), &salt)
        .unwrap()
        .to_string()
}

fn verifies(password: &str, hash: &str) -> bool {
    let parsed = argon2::PasswordHash::new(hash).unwrap();
    argon2::PasswordVerifier::verify_password(
        &argon2::Argon2::default(),
        password.as_bytes(),
        &parsed,
    )
    .is_ok()
}

fn clock() -> u64 {
    std::time::SystemTime::now().duration_since(std::time::UNIX_EPOCH).unwrap().as_secs()
}

fn account(password_hash: &str) -> User {
    User {
        id: s("7f0c2c1e-55aa-4bd1-9c3e-0d1b6a1f2e33"),
        token: None,
        email: s("alice@example.org"),
        password: s(password_hash),
        username: s("alice"),
        discriminator: s("0001"),
        avatar: Some(s("userDefault")),
        about: None,
        creation: 17,
        kind: s("USER"),
        owner: None,
        verified: true,
        verificator: None,
        otp: None,
    }
}

fn credentials(password: &str, otp: Option<&str>) -> SigninBody {
    SigninBody { email: s("alice@example.org"), password: s(password), otp: otp.map(s) }
}

fn claims(token: &str, key: &str) -> serde_json::Value {
    let mut validation = jsonwebtoken::Validation::new(jsonwebtoken::Algorithm::HS512);
    validation.validate_exp = false;
    jsonwebtoken::decode::<serde_json::Value>(
        token,
        &jsonwebtoken::DecodingKey::from_secret(key.as_bytes()),
        &validation,
    )
    .unwrap()
    .claims
}

#[test]
fn numbers_are_padded_to_four_digits() {
    assert_eq!(pad(0), "0000");
    assert_eq!(pad(7), "0007");
    assert_eq!(pad(42), "0042");
    assert_eq!(pad(305), "0305");
    assert_eq!(pad(9999), "9999");
    assert_eq!(pad(1230), "1230");
}

#[test]
fn the_least_free_discriminator_is_picked() {
    assert_eq!(generate_discriminator(&[]), Some(s("0000")));
    assert_eq!(generate_discriminator(&[s("0000"), s("0001")]), Some(s("0002")));
    assert_eq!(generate_discriminator(&[s("0001"), s("0002")]), Some(s("0000")));
    assert_eq!(generate_discriminator(&[s("0000"), s("0002")]), Some(s("0001")));
    // what is no four-digit number excludes nothing
    assert_eq!(generate_discriminator(&[s("0"), s("00000"), s("+000")]), Some(s("0000")));
    let first_thousand: Vec<String> = (0..1000).map(|n| format!("{:0>4}", n)).collect();
    assert_eq!(generate_discriminator(&first_thousand), Some(s("1000")));
}

#[test]
fn no_discriminator_is_left_when_ten_thousand_are_excluded() {
    let all: Vec<String> = (0..10_000).map(|n| format!("{:0>4}", n)).collect();
    assert_eq!(generate_discriminator(&all), None);
    // the count decides, whatever is excluded
    let junk: Vec<String> = (0..10_000).map(|_| s("x")).collect();
    assert_eq!(generate_discriminator(&junk), None);
    let almost: Vec<String> = (0..9_999).map(|n| format!("{:0>4}", n)).collect();
    assert_eq!(generate_discriminator(&almost), Some(s("9999")));
}

#[test]
fn a_token_carries_its_claims_for_seven_days() {
    let token = generate_token(s("user-1"), "key", 1_000).unwrap();
    assert_eq!(token.split('.').count(), 3);
    let claims = claims(&token, "key");
    assert_eq!(claims["sub"], "user-1");
    assert_eq!(claims["iss"], "betalky");
    assert_eq!(claims["exp"], 605_800);
    let header = jsonwebtoken::decode_header(&token).unwrap();
    assert_eq!(header.alg, jsonwebtoken::Algorithm::HS512);
    // the same claims under the same key sign to the same token
    assert_eq!(generate_token(s("user-1"), "key", 1_000).unwrap(), token);
    assert_ne!(generate_token(s("user-2"), "key", 1_000).unwrap(), token);
    assert_ne!(generate_token(s("user-1"), "other", 1_000).unwrap(), token);
    assert_ne!(generate_token(s("user-1"), "key", 1_001).unwrap(), token);
}

#[test]
fn a_token_cannot_outlast_the_clock() {
    assert_eq!(
        generate_token(s("user-1"), "key", u64::MAX - 604_799).unwrap_err(),
        AppError(Status::InternalServerError)
    );
    assert!(generate_token(s("user-1"), "key", u64::MAX - 604_800).is_ok());
}

#[test]
fn a_token_is_valid_under_its_key_until_it_expires() {
    let fresh = generate_token(s("user-1"), "key", clock()).unwrap();
    assert!(validate_token(&fresh, "key"));
    assert!(!validate_token(&fresh, "another key"));
    assert!(!validate_token("", "key"));
    assert!(!validate_token("not.a.token", "key"));
    let old = generate_token(s("user-1"), "key", 1_000).unwrap();
    assert!(!validate_token(&old, "key"));
}

#[test]
fn one_time_codes_follow_the_standard() {
    assert!(verify_otp(SECRET, "287082", 59));
    assert!(verify_otp(SECRET, "081804", 1_111_111_109));
    assert!(verify_otp(SECRET, "005924", 1_234_567_890));
    assert!(verify_otp(SECRET, "279037", 2_000_000_000));
    // the code holds for its thirty seconds and no longer
    assert!(verify_otp(SECRET, "287082", 30));
    assert!(!verify_otp(SECRET, "287082", 29));
    assert!(!verify_otp(SECRET, "287082", 60));
    assert!(!verify_otp(SECRET, "287083", 59));
    assert!(!verify_otp(SECRET, "", 59));
    assert!(!verify_otp(SECRET, SECRET, 59));
}

#[test]
fn an_unusable_secret_has_no_code() {
    assert!(!verify_otp("not base32!", "287082", 59));
    assert!(!verify_otp("", "", 59));
    // too short a secret
    assert!(!verify_otp("GEZDGNBV", "287082", 59));
}

#[test]
fn signing_in_checks_account_password_address_and_code_in_turn() {
    let hash = hashed("pw");
    let unauthorized = AppError(Status::Unauthorized);
    let now = 59;

    let none = signin_with(None, &credentials("pw", None), "key", now, false);
    assert_eq!(none.unwrap_err(), unauthorized);

    let user = account(&hash);
    let wrong = signin_with(Some(&user), &credentials("pW", None), "key", now, true);
    assert_eq!(wrong.unwrap_err(), unauthorized);

    let unreadable = account("???");
    let broken = signin_with(Some(&unreadable), &credentials("pw", None), "key", now, true);
    assert_eq!(broken.unwrap_err(), AppError(Status::InternalServerError));

    let unverified = User { verified: false, ..account(&hash) };
    let early = signin_with(Some(&unverified), &credentials("pw", None), "key", now, true);
    assert_eq!(early.unwrap_err(), AppError(Status::PreconditionRequired));

    let guarded = User { otp: Some(s(SECRET)), ..account(&hash) };
    let no_code = signin_with(Some(&guarded), &credentials("pw", None), "key", now, true);
    assert_eq!(no_code.unwrap_err(), unauthorized);
    let bad_code = signin_with(Some(&guarded), &credentials("pw", Some("000000")), "key", now, true);
    assert_eq!(bad_code.unwrap_err(), unauthorized);
    let holder = User { token: Some(s("held")), ..guarded };
    let (resp, fresh) =
        signin_with(Some(&holder), &credentials("pw", Some("287082")), "key", now, true).unwrap();
    assert_eq!(resp.token, "held");
    assert!(!fresh);
}

#[test]
fn signing_in_keeps_a_valid_token_and_replaces_any_other() {
    let hash = hashed("pw");
    let holder = User { token: Some(s("held")), ..account(&hash) };
    let (kept, fresh) =
        signin_with(Some(&holder), &credentials("pw", None), "key", 1_000, true).unwrap();
    assert_eq!(kept.token, "held");
    assert!(!fresh);
    let (issued, fresh) =
        signin_with(Some(&holder), &credentials("pw", None), "key", 1_000, false).unwrap();
    assert!(fresh);
    assert_eq!(issued.token, generate_token(holder.id.clone(), "key", 1_000).unwrap());
    // an account without a token whose absence counts as valid gets the empty token back
    let bare = account(&hash);
    let (empty, fresh) =
        signin_with(Some(&bare), &credentials("pw", None), "key", 1_000, true).unwrap();
    assert_eq!(empty.token, "");
    assert!(!fresh);
    let failed = signin_with(Some(&bare), &credentials("pw", None), "key", u64::MAX, false);
    assert_eq!(failed.unwrap_err(), AppError(Status::InternalServerError));
}

#[test]
fn signing_in_asks_the_clock_about_the_token() {
    let hash = hashed("pw");
    let now = clock();
    let current = generate_token(s("7f0c2c1e-55aa-4bd1-9c3e-0d1b6a1f2e33"), "key", now).unwrap();
    let holder = User { token: Some(current.clone()), ..account(&hash) };
    let (resp, fresh) = signin(Some(&holder), &credentials("pw", None), "key", now + 5).unwrap();
    assert_eq!(resp.token, current);
    assert!(!fresh);
    let stale = User { token: Some(s("stale")), ..account(&hash) };
    let (resp, fresh) = signin(Some(&stale), &credentials("pw", None), "key", now).unwrap();
    assert!(fresh);
    assert_eq!(resp.token, current);
    assert_eq!(
        signin(None, &credentials("pw", None), "key", now).unwrap_err(),
        AppError(Status::Unauthorized)
    );
}

#[test]
fn signing_up_is_checked_against_the_address() {
    let body = SignupBody { email: s("a@b.c"), username: "u".repeat(30), password: s("pw") };
    assert_eq!(signup_check(&body, None), Ok(false));
    let verified = account("hash");
    assert_eq!(signup_check(&body, Some(&verified)), Err(AppError(Status::Unauthorized)));
    let unverified = User { verified: false, ..account("hash") };
    assert_eq!(signup_check(&body, Some(&unverified)), Ok(true));
    let long = SignupBody { username: "u".repeat(31), ..body };
    assert_eq!(signup_check(&long, None), Err(AppError(Status::BadRequest)));
    assert_eq!(signup_check(&long, Some(&verified)), Err(AppError(Status::BadRequest)));
}

#[test]
fn signing_up_makes_an_unverified_account() {
    let body = SignupBody { email: s("a@b.c"), username: s("alice"), password: s("pw") };
    let user = signup(&body, &[s("0000"), s("0001")], "key", 1_000).unwrap();
    assert_eq!(user.email, "a@b.c");
    assert_eq!(user.username, "alice");
    assert_eq!(user.discriminator, "0002");
    assert_eq!(user.avatar, Some(s("userDefault")));
    assert_eq!(user.about, None);
    assert_eq!(user.creation, 1_000);
    assert_eq!(user.kind, "USER");
    assert_eq!(user.owner, None);
    assert!(!user.verified);
    assert_eq!(user.otp, None);
    assert_eq!(uuid::Uuid::parse_str(&user.id).unwrap().get_version_num(), 4);
    let code = user.verificator.clone().unwrap();
    assert_eq!(uuid::Uuid::parse_str(&code).unwrap().get_version_num(), 4);
    assert_ne!(code, user.id);
    assert!(user.password.starts_with("$argon2id$"));
    assert!(verifies("pw", &user.password));
    assert!(!verifies("pW", &user.password));
    assert_eq!(user.token, Some(generate_token(user.id.clone(), "key", 1_000).unwrap()));
}

#[test]
fn signing_up_fails_on_a_long_name_or_without_a_discriminator() {
    let long = SignupBody { email: s("a@b.c"), username: "u".repeat(31), password: s("pw") };
    assert_eq!(signup(&long, &[], "key", 0).unwrap_err(), AppError(Status::BadRequest));
    let body = SignupBody { email: s("a@b.c"), username: s("alice"), password: s("pw") };
    let all: Vec<String> = (0..10_000).map(|n| format!("{:0>4}", n)).collect();
    assert_eq!(signup(&body, &all, "key", 0).unwrap_err(), AppError(Status::Conflict));
    assert_eq!(
        signup(&body, &[], "key", u64::MAX).unwrap_err(),
        AppError(Status::InternalServerError)
    );
}

#[test]
fn creation_times_stop_at_the_end_of_the_clock() {
    assert_eq!(to_creation_time(0), 0);
    assert_eq!(to_creation_time(1_700_000_000), 1_700_000_000);
    assert_eq!(to_creation_time(i64::MAX as u64), i64::MAX);
    assert_eq!(to_creation_time(i64::MAX as u64 + 1), i64::MAX);
    assert_eq!(to_creation_time(u64::MAX), i64::MAX);
}

#[test]
fn verifying_uses_the_code_up() {
    let pending = User {
        verified: false,
        verificator: Some(s("code")),
        token: Some(s("held")),
        ..account("hash")
    };
    let (verified, resp) = verify(Some(pending)).unwrap();
    assert!(verified.verified);
    assert_eq!(verified.verificator, Some(s("")));
    assert_eq!(verified.token, Some(s("held")));
    assert_eq!(verified.email, "alice@example.org");
    assert_eq!(resp.token, "held");
    let (_, resp) = verify(Some(account("hash"))).unwrap();
    assert_eq!(resp.token, "");
    assert_eq!(verify(None).unwrap_err(), AppError(Status::Unauthorized));
}

#[test]
fn a_reset_is_requested_checked_and_done() {
    assert_eq!(reset_request(None).unwrap_err(), AppError(Status::Unauthorized));
    let pending = reset_request(Some(account("hash"))).unwrap();
    let code = pending.verificator.clone().unwrap();
    assert_eq!(uuid::Uuid::parse_str(&code).unwrap().get_version_num(), 4);
    assert_eq!(pending.password, "hash");
    assert_eq!(pending.id, account("hash").id);

    assert_eq!(reset_check(None), Err(AppError(Status::Unauthorized)));
    assert_eq!(reset_check(Some(&pending)), Ok(()));

    let body = ResetBody { password: s("new pw") };
    assert_eq!(reset(None, &body, "key", 1_000).unwrap_err(), AppError(Status::Unauthorized));
    let id = pending.id.clone();
    let (changed, resp) = reset(Some(pending), &body, "key", 1_000).unwrap();
    assert_eq!(resp.token, generate_token(id, "key", 1_000).unwrap());
    assert_eq!(changed.token, Some(resp.token.clone()));
    assert_eq!(changed.verificator, Some(s("")));
    assert_ne!(changed.password, "hash");
    assert!(verifies("new pw", &changed.password));
    assert_eq!(changed.username, "alice");
    assert!(changed.verified);
    assert_eq!(
        reset(Some(account("hash")), &body, "key", u64::MAX).unwrap_err(),
        AppError(Status::InternalServerError)
    );
}

#[test]
fn a_request_acts_for_the_holder_of_a_valid_token() {
    let user = account("hash");
    let auth = Auth::from_request(true, Some(&user)).unwrap();
    assert_eq!(auth.0, user.id);
    assert_eq!(Auth::from_request(false, Some(&user)).unwrap_err(), AppError(Status::Unauthorized));
    assert_eq!(Auth::from_request(true, None).unwrap_err(), AppError(Status::Unauthorized));
    assert_eq!(Auth::from_request(false, None).unwrap_err(), AppError(Status::Unauthorized));
}

#[test]
fn statuses_have_their_codes() {
    assert_eq!(Status::BadRequest.code(), 400);
    assert_eq!(Status::Unauthorized.code(), 401);
    assert_eq!(Status::Forbidden.code(), 403);
    assert_eq!(Status::NotFound.code(), 404);
    assert_eq!(Status::Conflict.code(), 409);
    assert_eq!(Status::PreconditionRequired.code(), 428);
    assert_eq!(Status::InternalServerError.code(), 500);
}
