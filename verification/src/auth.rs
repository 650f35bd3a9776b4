//! Who a request comes from: where its token is taken from, what a session
//! claims, and how a request without a valid session is answered.

use vstd::prelude::*;
use vstd::string::StringExecFns;
use crate::error::UNAUTHORIZED;
use crate::text::strip_prefix;

verus! {

/// The name of the cookie that carries the token.
pub const AUTH_COOKIE_NAME: &'static str = "token";

/// How long the cookie lives, in hours.
pub const AUTH_COOKIE_HOURS: u64 = 24;

/// The cookie that carries the token.
#[derive(Debug, PartialEq, Eq)]
pub struct AuthCookie {
    pub name: String,
    pub value: String,
    pub path: String,
    /// How long the cookie lives, in hours; a negative time removes it.
    pub max_age_hours: i64,
    pub same_site_lax: bool,
    pub http_only: bool,
}

/// What a token claims.
#[derive(Debug, PartialEq, Eq)]
pub struct Claims {
    /// The id of the user.
    pub sub: String,
    /// When the token was issued, in seconds since the epoch.
    pub iat: usize,
    /// When the token expires, in seconds since the epoch.
    pub exp: usize,
}

/// The body that answers a request without a valid session.
#[derive(Debug, PartialEq, Eq)]
pub struct ErrorResponse {
    pub status: String,
    pub message: String,
}

/// Why a request has no valid session.
#[derive(Debug, Clone, Copy, PartialEq, Eq, Structural)]
pub enum AuthFailure {
    /// Neither the cookie nor the header carries a token.
    MissingToken,
    /// The token does not verify.
    InvalidToken,
    /// The user could not be looked up.
    LookupFailed,
    /// The user of the token is gone.
    UnknownUser,
}

/// The word that opens a bearer header.
pub open spec fn bearer_prefix() -> Seq<char> {
    "Bearer "@
}

/// The token of a request: the cookie where there is one, else what
/// follows `Bearer ` in the authorization header.
pub open spec fn token_of(cookie: Option<Seq<char>>, authorization: Option<Seq<char>>) -> Option<
    Seq<char>,
> {
    match cookie {
        Some(token) => Some(token),
        None => match authorization {
            Some(header) => if bearer_prefix().is_prefix_of(header) {
                Some(header.subrange(bearer_prefix().len() as int, header.len() as int))
            } else {
                None
            },
            None => None,
        },
    }
}

/// The text of an optional string.
pub open spec fn text_of(text: Option<String>) -> Option<Seq<char>> {
    match text {
        Some(s) => Some(s@),
        None => None,
    }
}

/// The message for a failure.
pub open spec fn failure_message(failure: AuthFailure) -> Seq<char> {
    match failure {
        AuthFailure::MissingToken => "You are not logged in, please provide token"@,
        AuthFailure::InvalidToken => "Invalid token"@,
        AuthFailure::LookupFailed => "You are not logged in, please provide token"@,
        AuthFailure::UnknownUser => "The user belonging to this token no longer exists"@,
    }
}

/// The token of a request.
pub fn select_token(cookie: Option<String>, authorization: Option<String>) -> (token: Option<String>)
    ensures
        text_of(token) == token_of(text_of(cookie), text_of(authorization)),
{
    match cookie {
        Some(token) => Some(token),
        None => match authorization {
            Some(header) => match strip_prefix(header.as_str(), "Bearer ") {
                Some(rest) => Some(String::from_str(rest)),
                None => None,
            },
            None => None,
        },
    }
}

/// The claims of a session for `sub` that starts at `now` and lasts
/// `max_age_minutes`; nothing where an instant does not fit.
pub fn session_claims(sub: String, now: i64, max_age_minutes: i64) -> (claims: Option<Claims>)
    ensures
        match claims {
            Some(c) => c.sub == sub && c.iat == now && c.exp == now + 60 * max_age_minutes,
            None => now < 0 || now > usize::MAX || now + 60 * max_age_minutes < 0 || now + 60
                * max_age_minutes > usize::MAX,
        },
{
    let expires: i128 = now as i128 + 60 * (max_age_minutes as i128);
    if now < 0 || expires < 0 || now as u64 > usize::MAX as u64 || expires > usize::MAX as i128 {
        None
    } else {
        Some(Claims { sub, iat: now as usize, exp: expires as usize })
    }
}

/// The cookie that a login sets and a logout removes: for the whole site,
/// kept from scripts, sent on navigation from other sites only. It lives a
/// day after a login and is removed after a logout.
pub fn build_auth_cookie(token: String, is_login: bool) -> (cookie: AuthCookie)
    ensures
        cookie.name@ == "token"@,
        cookie.value == token,
        cookie.path@ == "/"@,
        cookie.max_age_hours == if is_login { 24int } else { -1 },
        cookie.same_site_lax,
        cookie.http_only,
{
    AuthCookie {
        name: String::from_str("token"),
        value: token,
        path: String::from_str("/"),
        max_age_hours: if is_login { 24 } else { -1 },
        same_site_lax: true,
        http_only: true,
    }
}

/// The status and body that answer a request without a valid session.
pub fn failure_response(failure: AuthFailure) -> (answer: (u16, ErrorResponse))
    ensures
        answer.0 == UNAUTHORIZED,
        answer.1.status@ == "fail"@,
        answer.1.message@ == failure_message(failure),
{
    let message = match failure {
        AuthFailure::MissingToken => String::from_str("You are not logged in, please provide token"),
        AuthFailure::InvalidToken => String::from_str("Invalid token"),
        AuthFailure::LookupFailed => String::from_str("You are not logged in, please provide token"),
        AuthFailure::UnknownUser => String::from_str(
            "The user belonging to this token no longer exists",
        ),
    };
    (UNAUTHORIZED, ErrorResponse { status: String::from_str("fail"), message })
}

/// A cookie wins over the header.
pub proof fn cookie_wins(cookie: Seq<char>, authorization: Option<Seq<char>>)
    ensures
        token_of(Some(cookie), authorization) == Some(cookie),
{
}

} // verus!
