//! Signing in and up, verifying an address and resetting a password.
//!
//! Each operation decides on the account record that the store found, if
//! any, and on what the crates for passwords, one-time codes and tokens
//! answer. It returns the record to write back where something changes.

use vstd::prelude::*;
use crate::routes::structs::{
    ResetBody, SigninBody, SigninResp, SignupBody, User, UserView,
};
use crate::routes::{Method, Route, RouteView};
use crate::sequences::{byte_length, clone_or_empty, text_or_empty};
use crate::utils::account::{
    check_password, free_discriminator, DISCRIMINATORS, generate_discriminator, generate_token, hash_password,
    issued_token, password_verdict, totp_at, validate_token, verify_otp,
};
use crate::utils::ids::{fresh_id, is_uuid_text};
use crate::{AppError, Status};

verus! {

/// Longest username, in bytes.
pub const MAX_USERNAME_BYTES: usize = 30;

/// Whether the account's second factor, if it has one, accepts the code.
pub open spec fn second_factor_passes(user: UserView, otp: Option<Seq<char>>, now: u64) -> bool {
    match user.otp {
        Some(secret) => totp_at(secret, now) == Some(text_or_empty(otp)),
        None => true,
    }
}

/// What signing in comes to, given whether the token that the account
/// holds is still valid: the token, and whether it is new and has to be
/// stored. Unauthorized without an account, on a wrong password and on a
/// wrong one-time code; a precondition is missing while the address is
/// unverified; an internal error when the stored hash cannot be read or no
/// token can be signed.
pub open spec fn signin_outcome(
    user: Option<UserView>,
    password: Seq<char>,
    otp: Option<Seq<char>>,
    key: Seq<char>,
    now: u64,
    token_valid: bool,
) -> Result<(Seq<char>, bool), Status> {
    match user {
        None => Err(Status::Unauthorized),
        Some(user) => match password_verdict(password, user.password) {
            None => Err(Status::InternalServerError),
            Some(false) => Err(Status::Unauthorized),
            Some(true) => if !user.verified {
                Err(Status::PreconditionRequired)
            } else if !second_factor_passes(user, otp, now) {
                Err(Status::Unauthorized)
            } else if token_valid {
                Ok((text_or_empty(user.token), false))
            } else {
                match issued_token(user.id, key, now) {
                    Some(token) => Ok((token, true)),
                    None => Err(Status::InternalServerError),
                }
            },
        },
    }
}

/// What an outcome of signing in says, as plain values.
pub open spec fn signin_view(outcome: Result<(SigninResp, bool), AppError>) -> Result<
    (Seq<char>, bool),
    Status,
> {
    match outcome {
        Ok((resp, fresh)) => Ok((resp.token@, fresh)),
        Err(e) => Err(e.0),
    }
}

/// Whether the account's second factor, if it has one, accepts the code.
fn passes_second_factor(user: &User, otp: &Option<String>, now: u64) -> (passes: bool)
    ensures
        passes == second_factor_passes(user@, otp.deep_view(), now),
{
    match &user.otp {
        Some(secret) => {
            let code = clone_or_empty(otp);
            verify_otp(secret.as_str(), code.as_str(), now)
        },
        None => true,
    }
}

/// Signs in, given whether the token that the account holds is still
/// valid. On success, returns the token and whether it is new and has to
/// be stored with the account.
pub fn signin_with(
    user: Option<&User>,
    body: &SigninBody,
    key: &str,
    now: u64,
    token_valid: bool,
) -> (outcome: Result<(SigninResp, bool), AppError>)
    ensures
        signin_view(outcome) == signin_outcome(
            user.deep_view(),
            body.password@,
            body.otp.deep_view(),
            key@,
            now,
            token_valid,
        ),
{
    let user = match user {
        Some(user) => user,
        None => {
            return Err(AppError(Status::Unauthorized));
        },
    };
    match check_password(body.password.as_str(), user.password.as_str()) {
        None => {
            return Err(AppError(Status::InternalServerError));
        },
        Some(false) => {
            return Err(AppError(Status::Unauthorized));
        },
        Some(true) => {},
    }
    if !user.verified {
        return Err(AppError(Status::PreconditionRequired));
    }
    if !passes_second_factor(user, &body.otp, now) {
        return Err(AppError(Status::Unauthorized));
    }
    if token_valid {
        return Ok((SigninResp { token: clone_or_empty(&user.token) }, false));
    }
    match generate_token(user.id.clone(), key, now) {
        Ok(token) => Ok((SigninResp { token }, true)),
        Err(e) => Err(e),
    }
}

/// Signs in. The token that the account holds is handed back while it is
/// valid at this moment; a new one is issued otherwise.
pub fn signin(user: Option<&User>, body: &SigninBody, key: &str, now: u64) -> (outcome: Result<
    (SigninResp, bool),
    AppError,
>)
    ensures
        exists|token_valid: bool|
            signin_view(outcome) == #[trigger] signin_outcome(
                user.deep_view(),
                body.password@,
                body.otp.deep_view(),
                key@,
                now,
                token_valid,
            ),
{
    let token_valid = match user {
        Some(user) => {
            let token = clone_or_empty(&user.token);
            validate_token(token.as_str(), key)
        },
        None => false,
    };
    signin_with(user, body, key, now, token_valid)
}

/// What the first step of signing up comes to: whether an unverified
/// account under the address has to be removed first. A username longer
/// than 30 bytes is a bad request; an address that belongs to a verified
/// account is unauthorized.
pub open spec fn signup_check_outcome(username: Seq<char>, existing: Option<UserView>) -> Result<
    bool,
    Status,
> {
    if byte_length(username) > MAX_USERNAME_BYTES {
        Err(Status::BadRequest)
    } else {
        match existing {
            Some(user) => if user.verified {
                Err(Status::Unauthorized)
            } else {
                Ok(true)
            },
            None => Ok(false),
        }
    }
}

/// The first step of signing up: decides on the account that holds the
/// address, if any. On success, says whether that account, being
/// unverified, has to be removed before the new one is made.
pub fn signup_check(body: &SignupBody, existing: Option<&User>) -> (outcome: Result<bool, AppError>)
    ensures
        match signup_check_outcome(body.username@, existing.deep_view()) {
            Ok(remove) => outcome == Ok::<bool, AppError>(remove),
            Err(status) => outcome == Err::<bool, AppError>(AppError(status)),
        },
{
    if body.username.as_str().len() > MAX_USERNAME_BYTES {
        return Err(AppError(Status::BadRequest));
    }
    match existing {
        Some(user) => {
            if user.verified {
                Err(AppError(Status::Unauthorized))
            } else {
                Ok(true)
            }
        },
        None => Ok(false),
    }
}

/// The moment as a creation time.
pub open spec fn creation_time(now: u64) -> i64 {
    if now > i64::MAX {
        i64::MAX
    } else {
        now as i64
    }
}

/// The moment as a creation time.
pub fn to_creation_time(now: u64) -> (creation: i64)
    ensures
        creation == creation_time(now),
{
    if now > i64::MAX as u64 {
        i64::MAX
    } else {
        now as i64
    }
}

/// The account that signing up makes: unverified, of the ordinary kind,
/// with the default avatar and no second factor.
pub open spec fn new_account(
    id: Seq<char>,
    email: Seq<char>,
    username: Seq<char>,
    discriminator: Seq<char>,
    password: Seq<char>,
    token: Seq<char>,
    verificator: Seq<char>,
    now: u64,
) -> UserView {
    UserView {
        id,
        token: Some(token),
        email,
        password,
        username,
        discriminator,
        avatar: Some("userDefault"@),
        about: None,
        creation: creation_time(now),
        kind: "USER"@,
        owner: None,
        verified: false,
        verificator: Some(verificator),
        otp: None,
    }
}

/// The second step of signing up: makes the account. The discriminator is
/// the least one that no account of the same username has, and there is a
/// conflict when ten thousand or more are taken; the id and the verification code are fresh,
/// the password is stored hashed, and a token is issued. Hashing and
/// signing may fail, as an internal error.
pub fn signup(body: &SignupBody, excluded: &[String], key: &str, now: u64) -> (outcome: Result<
    User,
    AppError,
>)
    ensures
        match outcome {
            Ok(user) => byte_length(body.username@) <= MAX_USERNAME_BYTES && free_discriminator(
                excluded.deep_view(),
            ) == Some(user@.discriminator) && is_uuid_text(user@.id) && is_uuid_text(
                user@.verificator->0,
            ) && issued_token(user@.id, key@, now) == user@.token && user@ == new_account(
                user@.id,
                body.email@,
                body.username@,
                user@.discriminator,
                user@.password,
                user@.token->0,
                user@.verificator->0,
                now,
            ),
            Err(e) => if byte_length(body.username@) > MAX_USERNAME_BYTES {
                e == AppError(Status::BadRequest)
            } else if excluded.len() >= DISCRIMINATORS {
                e == AppError(Status::Conflict)
            } else {
                e == AppError(Status::InternalServerError)
            },
        },
{
    if body.username.as_str().len() > MAX_USERNAME_BYTES {
        return Err(AppError(Status::BadRequest));
    }
    let discriminator = match generate_discriminator(excluded) {
        Some(discriminator) => discriminator,
        None => {
            return Err(AppError(Status::Conflict));
        },
    };
    let id = fresh_id();
    let password = match hash_password(body.password.as_str()) {
        Some(password) => password,
        None => {
            return Err(AppError(Status::InternalServerError));
        },
    };
    let token = match generate_token(id.clone(), key, now) {
        Ok(token) => token,
        Err(e) => {
            return Err(e);
        },
    };
    let verificator = fresh_id();
    Ok(
        User {
            id,
            token: Some(token),
            email: body.email.clone(),
            password,
            username: body.username.clone(),
            discriminator,
            avatar: Some(String::from_str("userDefault")),
            about: None,
            creation: to_creation_time(now),
            kind: String::from_str("USER"),
            owner: None,
            verified: false,
            verificator: Some(verificator),
            otp: None,
        },
    )
}

/// The account once its address is verified: the code is used up.
pub open spec fn verified_account(user: UserView) -> UserView {
    UserView { verified: true, verificator: Some(Seq::empty()), ..user }
}

/// Verifies the address of the account that the verification code
/// belongs to. Without such an account the code is unauthorized. On
/// success, returns the account to store and the token that it holds.
pub fn verify(user: Option<User>) -> (outcome: Result<(User, SigninResp), AppError>)
    ensures
        match outcome {
            Ok((verified, resp)) => user matches Some(before) && verified@ == verified_account(
                before@,
            ) && resp.token@ == text_or_empty(before@.token),
            Err(e) => user is None && e == AppError(Status::Unauthorized),
        },
{
    match user {
        Some(user) => {
            let resp = SigninResp { token: clone_or_empty(&user.token) };
            let mut verified = user;
            verified.verified = true;
            verified.verificator = Some(String::new());
            Ok((verified, resp))
        },
        None => Err(AppError(Status::Unauthorized)),
    }
}

/// Starts a password reset for the account under the address: gives it a
/// fresh code that authorizes the reset. Without such an account the
/// request is unauthorized. On success, returns the account to store.
pub fn reset_request(user: Option<User>) -> (outcome: Result<User, AppError>)
    ensures
        match outcome {
            Ok(pending) => user matches Some(before) && pending@.verificator is Some
                && is_uuid_text(pending@.verificator->0) && pending@ == (UserView {
                verificator: pending@.verificator,
                ..before@
            }),
            Err(e) => user is None && e == AppError(Status::Unauthorized),
        },
{
    match user {
        Some(user) => {
            let mut pending = user;
            pending.verificator = Some(fresh_id());
            Ok(pending)
        },
        None => Err(AppError(Status::Unauthorized)),
    }
}

/// Whether a reset code belongs to an account: unauthorized if it does not.
pub fn reset_check(user: Option<&User>) -> (outcome: Result<(), AppError>)
    ensures
        match outcome {
            Ok(_) => user is Some,
            Err(e) => user is None && e == AppError(Status::Unauthorized),
        },
{
    match user {
        Some(_) => Ok(()),
        None => Err(AppError(Status::Unauthorized)),
    }
}

/// Resets the password of the account that the reset code belongs to:
/// stores the new password hashed, issues a new token and uses the code
/// up. Without such an account the code is unauthorized; hashing and
/// signing may fail, as an internal error. On success, returns the
/// account to store and the new token.
pub fn reset(user: Option<User>, body: &ResetBody, key: &str, now: u64) -> (outcome: Result<
    (User, SigninResp),
    AppError,
>)
    ensures
        match outcome {
            Ok((changed, resp)) => user matches Some(before) && issued_token(before@.id, key@, now)
                == Some(resp.token@) && changed@ == (UserView {
                token: Some(resp.token@),
                password: changed@.password,
                verificator: Some(Seq::empty()),
                ..before@
            }),
            Err(e) => if user is None {
                e == AppError(Status::Unauthorized)
            } else {
                e == AppError(Status::InternalServerError)
            },
        },
{
    let user = match user {
        Some(user) => user,
        None => {
            return Err(AppError(Status::Unauthorized));
        },
    };
    let token = match generate_token(user.id.clone(), key, now) {
        Ok(token) => token,
        Err(e) => {
            return Err(e);
        },
    };
    let password = match hash_password(body.password.as_str()) {
        Some(password) => password,
        None => {
            return Err(AppError(Status::InternalServerError));
        },
    };
    let resp = SigninResp { token: token.clone() };
    let mut changed = user;
    changed.token = Some(token);
    changed.password = password;
    changed.verificator = Some(String::new());
    Ok((changed, resp))
}

/// The endpoints for signing in and up, verifying an address and resetting a password.
pub open spec fn account_routes() -> Seq<RouteView> {
    seq![
        RouteView { method: Method::Post, uri: "/signin"@, name: "signin"@ },
        RouteView { method: Method::Post, uri: "/signup"@, name: "signup"@ },
        RouteView { method: Method::Post, uri: "/verify/<code>"@, name: "verify"@ },
        RouteView { method: Method::Post, uri: "/reset/request"@, name: "reset_request"@ },
        RouteView { method: Method::Get, uri: "/reset/<code>"@, name: "reset_check"@ },
        RouteView { method: Method::Post, uri: "/reset/<code>"@, name: "reset"@ },
    ]
}

/// The account endpoints.
pub fn get_routes() -> (routes: Vec<Route>)
    ensures
        routes.deep_view() == account_routes(),
{
    let mut routes: Vec<Route> = Vec::new();
    routes.push(Route { method: Method::Post, uri: "/signin", name: "signin" });
    routes.push(Route { method: Method::Post, uri: "/signup", name: "signup" });
    routes.push(Route { method: Method::Post, uri: "/verify/<code>", name: "verify" });
    routes.push(Route { method: Method::Post, uri: "/reset/request", name: "reset_request" });
    routes.push(Route { method: Method::Get, uri: "/reset/<code>", name: "reset_check" });
    routes.push(Route { method: Method::Post, uri: "/reset/<code>", name: "reset" });
    assert(routes.deep_view() =~= account_routes());
    routes
}

} // verus!
