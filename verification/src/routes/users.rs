//! One's own account, its second factor, and what users show of themselves.

use vstd::prelude::*;
use vstd::slice::slice_index_get;
use crate::routes::structs::{
    clone_text, Guild, GuildView, PatchMeBody, ReturnedGuild, ReturnedGuildView, ReturnedOtp,
    ReturnedUser, ReturnedUserMe, ReturnedUserMeView, ReturnedUserView, SetupOTPBody, User,
    UserView,
};
use crate::routes::{Method, Route, RouteView};
use crate::sequences::{byte_length, clone_or_empty, text_or_empty};
use crate::utils::account::{
    check_password, generate_token, hash_password, issued_token, password_verdict, totp_at,
    verify_otp,
};
use crate::{AppError, Status};

verus! {

/// Longest username, in bytes.
pub const MAX_USERNAME_BYTES: usize = 30;

/// Longest self-description, in bytes.
pub const MAX_ABOUT_BYTES: usize = 1000;

/// What the owner of an account sees of it.
pub open spec fn shown_to_owner(user: UserView) -> ReturnedUserMeView {
    ReturnedUserMeView {
        id: user.id,
        email: user.email,
        username: user.username,
        discriminator: user.discriminator,
        avatar: user.avatar,
        about: user.about,
        creation: user.creation,
        tfa: user.otp is Some,
    }
}

/// What anyone may see of an account.
pub open spec fn shown_to_others(user: UserView) -> ReturnedUserView {
    ReturnedUserView {
        id: user.id,
        username: user.username,
        discriminator: user.discriminator,
        avatar: user.avatar,
        about: user.about,
        creation: user.creation,
    }
}

/// What the owner of the account sees of it.
pub fn get_me(user: &User) -> (shown: ReturnedUserMe)
    ensures
        shown@ == shown_to_owner(user@),
{
    ReturnedUserMe {
        id: user.id.clone(),
        email: user.email.clone(),
        username: user.username.clone(),
        discriminator: user.discriminator.clone(),
        avatar: clone_text(&user.avatar),
        about: clone_text(&user.about),
        creation: user.creation,
        tfa: user.otp.is_some(),
    }
}

/// What anyone may see of the account that the store found; not found if
/// it found none.
pub fn get_user(user: Option<&User>) -> (outcome: Result<ReturnedUser, AppError>)
    ensures
        match outcome {
            Ok(shown) => user matches Some(user) && shown@ == shown_to_others(user@),
            Err(e) => user is None && e == AppError(Status::NotFound),
        },
{
    match user {
        Some(user) => Ok(
            ReturnedUser {
                id: user.id.clone(),
                username: user.username.clone(),
                discriminator: user.discriminator.clone(),
                avatar: clone_text(&user.avatar),
                about: clone_text(&user.about),
                creation: user.creation,
            },
        ),
        None => Err(AppError(Status::NotFound)),
    }
}

/// Decides the deletion of one's own account: only accounts of the
/// ordinary kind may delete themselves.
pub fn del_me(user: &User) -> (outcome: Result<(), AppError>)
    ensures
        match outcome {
            Ok(_) => user@.kind == "USER"@,
            Err(e) => user@.kind != "USER"@ && e == AppError(Status::Forbidden),
        },
{
    if user.kind == String::from_str("USER") {
        Ok(())
    } else {
        Err(AppError(Status::Forbidden))
    }
}

/// What the guilds in which the user is a member show of themselves, in
/// the order of the guilds.
pub open spec fn previews_for(guilds: Seq<GuildView>, user: Seq<char>) -> Seq<ReturnedGuildView>
    decreases guilds.len(),
{
    if guilds.len() == 0 {
        Seq::empty()
    } else if guilds.last().is_member(user) {
        previews_for(guilds.drop_last(), user).push(guilds.last().preview())
    } else {
        previews_for(guilds.drop_last(), user)
    }
}

/// What the user's guilds show of themselves: one entry for each of the
/// given guilds in which the user is a member.
pub fn get_my_guilds(guilds: &Vec<Guild>, user_id: &String) -> (shown: Vec<ReturnedGuild>)
    ensures
        shown.deep_view() == previews_for(guilds.deep_view(), user_id@),
{
    let ghost all = guilds.deep_view();
    let mut shown: Vec<ReturnedGuild> = Vec::new();
    let mut i: usize = 0;
    assert(shown.deep_view() =~= previews_for(all.take(0), user_id@));
    while i < guilds.len()
        invariant
            i <= guilds.len(),
            all == guilds.deep_view(),
            shown.deep_view() == previews_for(all.take(i as int), user_id@),
        decreases guilds.len() - i,
    {
        proof {
            assert(all.take(i + 1).drop_last() == all.take(i as int));
            assert(all.take(i + 1).last() == guilds[i as int]@);
        }
        if guilds[i].is_member(user_id) {
            let ghost so_far = shown.deep_view();
            let preview = guilds[i].preview();
            shown.push(preview);
            assert(shown.deep_view() =~= so_far.push(guilds[i as int]@.preview()));
        }
        i += 1;
    }
    assert(all.take(i as int) == all);
    shown
}

/// Whether the byte is an ASCII decimal digit.
pub open spec fn is_digit(byte: u8) -> bool {
    48 <= byte <= 57
}

/// Whether the bytes are a discriminator as it may be asked for: four
/// bytes that read as a number, that is four digits, or a plus sign and
/// three digits.
pub open spec fn is_discriminator(bytes: Seq<u8>) -> bool {
    &&& bytes.len() == 4
    &&& is_digit(bytes[0]) || bytes[0] == 43
    &&& is_digit(bytes[1])
    &&& is_digit(bytes[2])
    &&& is_digit(bytes[3])
}

/// The text's bytes as UTF-8.
pub open spec fn bytes_of(text: Seq<char>) -> Seq<u8> {
    vstd::utf8::encode_utf8(text)
}

/// Whether the text is a discriminator as it may be asked for.
pub fn check_discriminator(text: &str) -> (valid: bool)
    ensures
        valid == is_discriminator(bytes_of(text@)),
{
    let bytes = text.as_bytes();
    if bytes.len() != 4 {
        return false;
    }
    let first = *slice_index_get(bytes, 0);
    let second = *slice_index_get(bytes, 1);
    let third = *slice_index_get(bytes, 2);
    let fourth = *slice_index_get(bytes, 3);
    ((48 <= first && first <= 57) || first == 43) && (48 <= second && second <= 57) && (48 <= third
        && third <= 57) && (48 <= fourth && fourth <= 57)
}

/// Whether a change of account asks for something ill-formed: a username
/// or a self-description that is too long, or a discriminator that is not
/// one.
pub open spec fn patch_ill_formed(
    username: Option<Seq<char>>,
    about: Option<Seq<char>>,
    discriminator: Option<Seq<char>>,
) -> bool {
    ||| username matches Some(username) && byte_length(username) > MAX_USERNAME_BYTES
    ||| about matches Some(about) && byte_length(about) > MAX_ABOUT_BYTES
    ||| discriminator matches Some(discriminator) && !is_discriminator(bytes_of(discriminator))
}

/// The account after the change: the fields that were given replace the
/// old ones, the password is the new hash if a new password was given,
/// and the token is the new one.
pub open spec fn patched_account(
    user: UserView,
    username: Option<Seq<char>>,
    discriminator: Option<Seq<char>>,
    about: Option<Seq<char>>,
    password: Option<Seq<char>>,
    token: Seq<char>,
) -> UserView {
    UserView {
        username: match username {
            Some(username) => username,
            None => user.username,
        },
        discriminator: match discriminator {
            Some(discriminator) => discriminator,
            None => user.discriminator,
        },
        about: match about {
            Some(about) => Some(about),
            None => Some(text_or_empty(user.about)),
        },
        password: match password {
            Some(password) => password,
            None => user.password,
        },
        token: Some(token),
        ..user
    }
}

/// What is shown of the account after a change: the new name and
/// discriminator, with the self-description as it was before.
pub open spec fn shown_after_patch(before: UserView, after: UserView) -> ReturnedUserMeView {
    ReturnedUserMeView { about: before.about, avatar: before.avatar, ..shown_to_owner(after) }
}

/// Changes one's own account. The current password must verify, else the
/// change is unauthorized; ill-formed fields are a bad request; a
/// discriminator that another account of the same username has is a
/// conflict. Every change issues a new token. Hashing and signing may
/// fail, as an internal error, as does a stored hash that cannot be read.
/// On success, returns the account to store and what is shown of it.
pub fn patch_me(
    user: User,
    body: &PatchMeBody,
    discriminator_taken: bool,
    key: &str,
    now: u64,
) -> (outcome: Result<(User, ReturnedUserMe), AppError>)
    ensures
        match outcome {
            Ok((changed, shown)) => {
                &&& password_verdict(body.current_password@, user@.password) == Some(true)
                &&& !patch_ill_formed(
                    body.username.deep_view(),
                    body.about.deep_view(),
                    body.discriminator.deep_view(),
                )
                &&& !(body.discriminator is Some && discriminator_taken)
                &&& issued_token(user@.id, key@, now) == changed@.token
                &&& changed@ == patched_account(
                    user@,
                    body.username.deep_view(),
                    body.discriminator.deep_view(),
                    body.about.deep_view(),
                    if body.password is Some {
                        Some(changed@.password)
                    } else {
                        None
                    },
                    changed@.token->0,
                )
                &&& shown@ == shown_after_patch(user@, changed@)
            },
            Err(e) => match password_verdict(body.current_password@, user@.password) {
                None => e == AppError(Status::InternalServerError),
                Some(false) => e == AppError(Status::Unauthorized),
                Some(true) => if patch_ill_formed(
                    body.username.deep_view(),
                    body.about.deep_view(),
                    body.discriminator.deep_view(),
                ) {
                    e == AppError(Status::BadRequest)
                } else if body.discriminator is Some && discriminator_taken {
                    e == AppError(Status::Conflict)
                } else {
                    e == AppError(Status::InternalServerError)
                },
            },
        },
{
    match check_password(body.current_password.as_str(), user.password.as_str()) {
        None => {
            return Err(AppError(Status::InternalServerError));
        },
        Some(false) => {
            return Err(AppError(Status::Unauthorized));
        },
        Some(true) => {},
    }
    let username_too_long = match &body.username {
        Some(username) => username.as_str().len() > MAX_USERNAME_BYTES,
        None => false,
    };
    let about_too_long = match &body.about {
        Some(about) => about.as_str().len() > MAX_ABOUT_BYTES,
        None => false,
    };
    let discriminator_ill_formed = match &body.discriminator {
        Some(discriminator) => !check_discriminator(discriminator.as_str()),
        None => false,
    };
    if username_too_long || about_too_long || discriminator_ill_formed {
        return Err(AppError(Status::BadRequest));
    }
    if body.discriminator.is_some() && discriminator_taken {
        return Err(AppError(Status::Conflict));
    }
    let token = match generate_token(user.id.clone(), key, now) {
        Ok(token) => token,
        Err(e) => {
            return Err(e);
        },
    };
    let password = match &body.password {
        Some(password) => match hash_password(password.as_str()) {
            Some(hash) => hash,
            None => {
                return Err(AppError(Status::InternalServerError));
            },
        },
        None => user.password.clone(),
    };
    let ghost before = user@;
    let about_before = clone_text(&user.about);
    let avatar_before = clone_text(&user.avatar);
    let mut changed = user;
    match &body.username {
        Some(username) => {
            changed.username = username.clone();
        },
        None => {},
    }
    match &body.discriminator {
        Some(discriminator) => {
            changed.discriminator = discriminator.clone();
        },
        None => {},
    }
    changed.about = match &body.about {
        Some(about) => Some(about.clone()),
        None => Some(clone_or_empty(&changed.about)),
    };
    changed.password = password;
    changed.token = Some(token);
    let mut shown = get_me(&changed);
    shown.about = about_before;
    shown.avatar = avatar_before;
    Ok((changed, shown))
}

/// Digits of a one-time code.
pub const OTP_DIGITS: usize = 6;

/// Steps before and after the current one whose codes are tolerated.
pub const OTP_SKEW: u8 = 1;

/// Seconds for which a one-time code holds.
pub const OTP_STEP: u64 = 30;

/// Who the second factor is issued by, as authenticator apps show it.
pub const OTP_ISSUER: &'static str = "BeTalky";

/// What comes before the image in a data URL of a PNG.
pub const PNG_DATA_URL: &'static str = "data:image/png;base64,";

/// Draws a fresh second-factor secret for the account and renders it.
///
/// Takes the secret from `totp_rs::Secret::default`, which draws 20
/// random bytes, builds a SHA-1 `TOTP` with `TOTP::new` from the given
/// parameters, and returns what `get_secret_base32`, `get_url` and
/// `get_qr_base64` make of it, in that order. There is no result when
/// `TOTP::new` or the rendering of the image fails. Nothing is claimed of
/// the result: it changes with the secret.
#[verifier::external_body]
fn fresh_second_factor(digits: usize, skew: u8, step: u64, issuer: &str, account: &str) -> (rendered:
    Option<(String, String, String)>) {
    let secret = totp_rs::Secret::default().to_bytes().ok()?;
    let totp = totp_rs::TOTP::new(
        totp_rs::Algorithm::SHA1,
        digits,
        skew,
        step,
        secret,
        Some(issuer.to_string()),
        account.to_string(),
    ).ok()?;
    let qr = totp.get_qr_base64().ok()?;
    Some((totp.get_secret_base32(), totp.get_url(), qr))
}

/// A second-factor secret as it is offered for setting up: the secret, its
/// URL, and its image as a data URL.
pub fn offered_second_factor(secret: String, uri: String, image: &str) -> (offered: ReturnedOtp)
    ensures
        offered.secret@ == secret@,
        offered.uri@ == uri@,
        offered.qr@ == PNG_DATA_URL@ + image@,
{
    let mut qr = String::from_str(PNG_DATA_URL);
    qr.append(image);
    ReturnedOtp { secret, uri, qr }
}

/// Offers a fresh second-factor secret to an account that has none; an
/// account that has one is in conflict. Drawing and rendering the secret
/// may fail, as an internal error.
pub fn gen_otp_secret(user: &User) -> (outcome: Result<ReturnedOtp, AppError>)
    ensures
        match outcome {
            Ok(offered) => user@.otp is None && exists|image: Seq<char>|
                offered.qr@ == PNG_DATA_URL@ + image,
            Err(e) => if user@.otp is Some {
                e == AppError(Status::Conflict)
            } else {
                e == AppError(Status::InternalServerError)
            },
        },
{
    if user.otp.is_some() {
        return Err(AppError(Status::Conflict));
    }
    match fresh_second_factor(OTP_DIGITS, OTP_SKEW, OTP_STEP, OTP_ISSUER, user.email.as_str()) {
        Some((secret, uri, image)) => Ok(offered_second_factor(secret, uri, image.as_str())),
        None => Err(AppError(Status::InternalServerError)),
    }
}

/// The account with this secret as its second factor.
pub open spec fn with_second_factor(user: UserView, secret: Seq<char>) -> UserView {
    UserView { otp: Some(secret), ..user }
}

/// The account without a second factor.
pub open spec fn without_second_factor(user: UserView) -> UserView {
    UserView { otp: None, ..user }
}

/// What setting up a second factor comes to: unauthorized on a wrong
/// password, a conflict when the account has a second factor already,
/// unauthorized when the code is not the secret's code at this moment, and
/// an internal error when the stored hash cannot be read.
pub open spec fn setup_otp_outcome(
    user: UserView,
    password: Seq<char>,
    otp: Seq<char>,
    secret: Seq<char>,
    now: u64,
) -> Result<UserView, Status> {
    match password_verdict(password, user.password) {
        None => Err(Status::InternalServerError),
        Some(false) => Err(Status::Unauthorized),
        Some(true) => if user.otp is Some {
            Err(Status::Conflict)
        } else if totp_at(secret, now) != Some(otp) {
            Err(Status::Unauthorized)
        } else {
            Ok(with_second_factor(user, secret))
        },
    }
}

/// Sets up the secret as the account's second factor, once the user has
/// shown the password and a code of the secret. On success, returns the
/// account to store.
pub fn setup_otp(user: User, body: &SetupOTPBody, secret: &str, now: u64) -> (outcome: Result<
    User,
    AppError,
>)
    ensures
        match setup_otp_outcome(user@, body.password@, body.otp@, secret@, now) {
            Ok(after) => outcome matches Ok(changed) && changed@ == after,
            Err(status) => outcome matches Err(e) && e == AppError(status),
        },
{
    match check_password(body.password.as_str(), user.password.as_str()) {
        None => {
            return Err(AppError(Status::InternalServerError));
        },
        Some(false) => {
            return Err(AppError(Status::Unauthorized));
        },
        Some(true) => {},
    }
    if user.otp.is_some() {
        return Err(AppError(Status::Conflict));
    }
    if !verify_otp(secret, body.otp.as_str(), now) {
        return Err(AppError(Status::Unauthorized));
    }
    let mut changed = user;
    changed.otp = Some(String::from_str(secret));
    Ok(changed)
}

/// What removing the second factor comes to: unauthorized on a wrong
/// password, and on a code that is not the code of the account's secret
/// at this moment; an internal error when the stored hash cannot be read.
/// An account without a second factor stays as it is.
pub open spec fn del_otp_outcome(user: UserView, password: Seq<char>, otp: Seq<char>, now: u64) -> Result<
    UserView,
    Status,
> {
    match password_verdict(password, user.password) {
        None => Err(Status::InternalServerError),
        Some(false) => Err(Status::Unauthorized),
        Some(true) => if user.otp matches Some(secret) && totp_at(secret, now) != Some(otp) {
            Err(Status::Unauthorized)
        } else {
            Ok(without_second_factor(user))
        },
    }
}

/// Removes the account's second factor, once the user has shown the
/// password and a current code. On success, returns the account to store.
pub fn del_otp(user: User, body: &SetupOTPBody, now: u64) -> (outcome: Result<User, AppError>)
    ensures
        match del_otp_outcome(user@, body.password@, body.otp@, now) {
            Ok(after) => outcome matches Ok(changed) && changed@ == after,
            Err(status) => outcome matches Err(e) && e == AppError(status),
        },
{
    match check_password(body.password.as_str(), user.password.as_str()) {
        None => {
            return Err(AppError(Status::InternalServerError));
        },
        Some(false) => {
            return Err(AppError(Status::Unauthorized));
        },
        Some(true) => {},
    }
    let refused = match &user.otp {
        Some(secret) => !verify_otp(secret.as_str(), body.otp.as_str(), now),
        None => false,
    };
    if refused {
        return Err(AppError(Status::Unauthorized));
    }
    let mut changed = user;
    changed.otp = None;
    Ok(changed)
}

/// The endpoints for one's own account, its second factor, and other users.
pub open spec fn user_routes() -> Seq<RouteView> {
    seq![
        RouteView { method: Method::Get, uri: "/users/@me"@, name: "get_me"@ },
        RouteView { method: Method::Delete, uri: "/users/@me"@, name: "del_me"@ },
        RouteView { method: Method::Patch, uri: "/users/@me"@, name: "patch_me"@ },
        RouteView { method: Method::Get, uri: "/users/@me/guilds"@, name: "get_my_guilds"@ },
        RouteView { method: Method::Get, uri: "/users/<user_id>"@, name: "get_user"@ },
        RouteView { method: Method::Post, uri: "/users/@me/otp"@, name: "gen_otp_secret"@ },
        RouteView { method: Method::Post, uri: "/users/@me/otp/<secret>"@, name: "setup_otp"@ },
        RouteView { method: Method::Delete, uri: "/users/@me/otp"@, name: "del_otp"@ },
    ]
}

/// The user endpoints.
pub fn get_routes() -> (routes: Vec<Route>)
    ensures
        routes.deep_view() == user_routes(),
{
    let mut routes: Vec<Route> = Vec::new();
    routes.push(Route { method: Method::Get, uri: "/users/@me", name: "get_me" });
    routes.push(Route { method: Method::Delete, uri: "/users/@me", name: "del_me" });
    routes.push(Route { method: Method::Patch, uri: "/users/@me", name: "patch_me" });
    routes.push(Route { method: Method::Get, uri: "/users/@me/guilds", name: "get_my_guilds" });
    routes.push(Route { method: Method::Get, uri: "/users/<user_id>", name: "get_user" });
    routes.push(Route { method: Method::Post, uri: "/users/@me/otp", name: "gen_otp_secret" });
    routes.push(Route { method: Method::Post, uri: "/users/@me/otp/<secret>", name: "setup_otp" });
    routes.push(Route { method: Method::Delete, uri: "/users/@me/otp", name: "del_otp" });
    assert(routes.deep_view() =~= user_routes());
    routes
}

} // verus!
