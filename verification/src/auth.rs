//! The authentication flows: sign-in against stored credentials with
//! session binding, sign-out, identity lookup from the session, and the
//! token-gated registration flow with its invite counterpart.
use vstd::prelude::*;

use crate::credential::{argon2_encoded_of, argon2_parseable_of, argon2_verify_of, SALT_BYTES};
use crate::encoding::{hex_of, hex_parse, valid_hex};
use crate::error::ApiError;
use crate::session::SessionState;
use crate::token::{find_token, token_views, TokenRecord, TOKEN_VALIDITY_SECONDS};
use crate::user::{find_by_id, spec_find_by_email, views, User, UserMessage};
use vstd::utf8::encode_utf8;

verus! {

/// What a registration request carries: the transport-encoded token, the
/// email to register, and the plaintext password.
pub struct RegistrationMessage {
    pub token: String,
    pub email: String,
    pub password: String,
}

/// Signs in: the account is looked up by email and the password checked
/// against its hash; on success the account id is bound into the session.
/// An unknown email and a wrong password both come back as
/// `Unauthorized`; only a stored hash the primitive cannot parse is a
/// `HashingFailure`, so a parseable hash that verifies is owed a
/// successful sign-in. On any failure the session is untouched.
pub fn sign_in(table: &Vec<User>, credentials: &UserMessage, session: &mut SessionState) -> (r:
    Result<User, ApiError>)
    requires
        encode_utf8(credentials.password@).len() <= 0xffff_ffff,
    ensures
        match r {
            Ok(u) => {
                &&& spec_find_by_email(views(table@), credentials.email@) == Some(u@)
                &&& argon2_verify_of(u@.password, encode_utf8(credentials.password@))
                &&& final(session).user_id == Some(u@.id)
            },
            Err(e) => {
                &&& *final(session) == *old(session)
                &&& (e == ApiError::Unauthorized || e == ApiError::HashingFailure)
                &&& (e == ApiError::Unauthorized ==> match spec_find_by_email(
                    views(table@),
                    credentials.email@,
                ) {
                    Some(u) => !argon2_verify_of(u.password, encode_utf8(credentials.password@)),
                    None => true,
                })
                &&& (e == ApiError::HashingFailure ==> match spec_find_by_email(
                    views(table@),
                    credentials.email@,
                ) {
                    Some(u) => !argon2_parseable_of(u.password),
                    None => false,
                })
            },
        },
{
    let user = match User::find_by_email(table, &credentials.email) {
        Ok(u) => u,
        Err(_) => {
            return Err(ApiError::Unauthorized);
        },
    };
    let is_valid = match user.verify_password(credentials.password.as_str().as_bytes()) {
        Ok(b) => b,
        Err(e) => {
            return Err(e);
        },
    };
    if is_valid {
        session.bind(user.id);
        Ok(user)
    } else {
        Err(ApiError::Unauthorized)
    }
}

/// Signs out: a bound session is purged; an unbound one is
/// `Unauthorized` and left as it was.
pub fn sign_out(session: &mut SessionState) -> (r: Result<(), ApiError>)
    ensures
        match r {
            Ok(r0) => old(session).user_id is Some && final(session).user_id is None,
            Err(e) => e == ApiError::Unauthorized && old(session).user_id is None
                && *final(session) == *old(session),
        },
{
    match session.resolve() {
        Some(_) => {
            session.unbind();
            Ok(())
        },
        None => Err(ApiError::Unauthorized),
    }
}

/// Resolves the signed-in account from the session: unbound means
/// `Unauthorized`; a bound id whose row is gone means `NotFound`.
pub fn who_am_i(table: &Vec<User>, session: &SessionState) -> (r: Result<User, ApiError>)
    ensures
        match r {
            Ok(u) => session.user_id matches Some(id) && find_by_id(views(table@), id) == Some(
                u@,
            ),
            Err(e) => (e == ApiError::Unauthorized && session.user_id is None) || (e
                == ApiError::NotFound && (session.user_id matches Some(id) && find_by_id(
                views(table@),
                id,
            ) is None)),
        },
{
    match session.resolve() {
        Some(id) => User::find(table, id),
        None => Err(ApiError::Unauthorized),
    }
}

/// The invite flow's computation: a fresh token for the email, valid for
/// the fixed window from now, with its identifier encoded for the
/// confirmation message. Persisting the token and sending the message
/// stay with the caller.
pub fn invite(email: String, now: i64) -> (r: (TokenRecord, String))
    requires
        now <= 0x7fff_ffff_ffff_ffff - TOKEN_VALIDITY_SECONDS,
    ensures
        r.0@.email == email@,
        r.0@.issued_at == now,
        r.0@.expires_at == now + TOKEN_VALIDITY_SECONDS,
        r.0@.id.len() == crate::token::TOKEN_ID_BYTES,
        r.1@ == hex_of(r.0@.id),
{
    let token = TokenRecord::issue(email, now);
    let code = token.encoded_id();
    (token, code)
}

/// The registration flow: the token is resolved from its encoding and
/// validated against the request's email and the current instant, and
/// only then is the account built and its password hashed. A malformed,
/// unknown, or email-mismatched token is `InvalidToken`; an
/// email-matched token at or past expiry is `TokenExpired`; with a valid
/// token the account is returned, created now, never yet updated, its
/// stored password the argon2 encoding of the request's. Persisting the
/// account stays with the caller.
pub fn register(tokens: &Vec<TokenRecord>, body: &RegistrationMessage, now: i64) -> (r: Result<
    User,
    ApiError,
>)
    requires
        encode_utf8(body.password@).len() <= 0xffff_ffff,
    ensures
        match r {
            Ok(u) => {
                &&& valid_hex(body.token@)
                &&& find_token(token_views(tokens@), hex_parse(body.token@)) matches Some(t)
                    && t.email == body.email@ && now < t.expires_at
                &&& u@.email == body.email@
                &&& u@.created_at == now
                &&& u@.updated_at is None
                &&& exists|salt: Seq<u8>|
                    salt.len() == SALT_BYTES && u@.password == #[trigger] argon2_encoded_of(
                        encode_utf8(body.password@),
                        salt,
                    )
                &&& argon2_parseable_of(u@.password)
                &&& argon2_verify_of(u@.password, encode_utf8(body.password@))
            },
            Err(e) => {
                ||| (e == ApiError::InvalidToken && (!valid_hex(body.token@) || find_token(
                    token_views(tokens@),
                    hex_parse(body.token@),
                ) is None || (find_token(token_views(tokens@), hex_parse(body.token@))
                    matches Some(t) && t.email != body.email@)))
                ||| (e == ApiError::TokenExpired && valid_hex(body.token@) && (find_token(
                    token_views(tokens@),
                    hex_parse(body.token@),
                ) matches Some(t) && t.email == body.email@ && now >= t.expires_at))
            },
        },
{
    let token = match TokenRecord::resolve(tokens, body.token.as_str()) {
        Ok(t) => t,
        Err(e) => {
            return Err(e);
        },
    };
    match token.validate_for(&body.email, now) {
        Ok(()) => {},
        Err(e) => {
            return Err(e);
        },
    }
    let message = UserMessage {
        email: crate::user::clone_string(&body.email),
        password: crate::user::clone_string(&body.password),
    };
    User::create(message, now)
}

} // verus!
