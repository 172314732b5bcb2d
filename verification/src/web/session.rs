use crate::crypto;
use crate::crypto::{all_alphanumeric, decoded, jwt_signed, session_claims, HmacKey};
use crate::models::{Session, SessionView};
use vstd::prelude::*;

verus! {

/// Why a request carries no session.
#[derive(Copy, Clone, Debug, PartialEq, Eq, Structural)]
pub enum Error {
    /// The key of the signer was not handed to the request.
    HmacNotAccessible,
    /// The request has no session cookie.
    NoCookie,
    /// The session cookie does not verify.
    VerificationFailed,
}

impl Error {
    pub fn message(&self) -> (text: String)
        ensures
            text@ == match self {
                Error::HmacNotAccessible => "HMAC not accessible"@,
                Error::NoCookie => "No session cookie set"@,
                Error::VerificationFailed => "Session verification failed"@,
            },
    {
        match self {
            Error::HmacNotAccessible => "HMAC not accessible".to_owned(),
            Error::NoCookie => "No session cookie set".to_owned(),
            Error::VerificationFailed => "Session verification failed".to_owned(),
        }
    }

    /// Whether the error only says that nobody is logged in, which sends the
    /// caller to the login page; a missing and an invalid cookie do so alike.
    /// The one error that is a fault of the server is a missing key.
    pub fn is_unauthenticated(&self) -> (unauthenticated: bool)
        ensures
            unauthenticated == (*self != Error::HmacNotAccessible),
    {
        match self {
            Error::HmacNotAccessible => false,
            _ => true,
        }
    }
}

/// The length of the id of a session.
pub const SESSION_ID_LENGTH: usize = 32;

/// The number of seconds a session cookie lives: one day.
pub const SESSION_MAX_AGE: i64 = 86400;

/// What the session cookie is set with, as mathematical values.
pub struct SessionCookieView {
    pub name: Seq<char>,
    pub value: Seq<char>,
    pub path: Seq<char>,
    pub secure: bool,
    pub http_only: bool,
    pub max_age: int,
}

/// The cookie that carries a session.
#[derive(Debug, PartialEq)]
pub struct SessionCookie {
    pub name: String,
    pub value: String,
    pub path: String,
    pub secure: bool,
    pub http_only: bool,
    pub max_age: i64,
}

impl View for SessionCookie {
    type V = SessionCookieView;

    open spec fn view(&self) -> SessionCookieView {
        SessionCookieView {
            name: self.name@,
            value: self.value@,
            path: self.path@,
            secure: self.secure,
            http_only: self.http_only,
            max_age: self.max_age as int,
        }
    }
}

/// The session cookie with the value `value`: it is named `authorization`,
/// holds for every path, is kept from scripts, and lives for a day.
pub open spec fn session_cookie(value: Seq<char>, secure: bool) -> SessionCookieView {
    SessionCookieView {
        name: "authorization"@,
        value,
        path: "/"@,
        secure,
        http_only: true,
        max_age: SESSION_MAX_AGE as int,
    }
}

/// Mints a session for `username`: a session with a fresh random id, and the
/// token that the key signs it as.
pub fn mint(hm: &HmacKey, username: &str) -> (minted: (Session, String))
    ensures
        minted.0@.username == username@,
        minted.0@.id.len() == SESSION_ID_LENGTH,
        all_alphanumeric(minted.0@.id),
        minted.1@ == jwt_signed(hm@, session_claims(minted.0@)),
{
    let id = crypto::random_token(SESSION_ID_LENGTH);
    let session = Session::new(id.as_str(), username);
    let token = crypto::jwt_encode(session.clone(), hm);
    (session, token)
}

/// Recovers the session that `token` carries. A token that does not verify
/// under the key, or that carries no session, is no fault: it is answered with
/// `VerificationFailed`, and never with another error. A token that was minted
/// with the same key gives back the session it was minted for.
pub fn recover(hm: &HmacKey, token: &str) -> (r: Result<Session, Error>)
    ensures
        match r {
            Ok(session) => decoded(hm@, token@) == Some(session@),
            Err(e) => decoded(hm@, token@) is None && e == Error::VerificationFailed,
        },
        forall|session: SessionView|
            token@ == #[trigger] jwt_signed(hm@, session_claims(session)) ==> r is Ok && r->Ok_0@
                == session,
{
    let token = token.to_owned();
    match crypto::jwt_decode(&token, hm) {
        Ok(session) => Ok(session),
        Err(_) => Err(Error::VerificationFailed),
    }
}

/// The session of a request, from the key that was handed to it and the value
/// of its `authorization` cookie. Without the key there is no answer; without
/// the cookie, or with one that does not verify, nobody is logged in.
pub fn from_request(hm: Option<&HmacKey>, cookie: Option<&str>) -> (r: Result<Session, Error>)
    ensures
        match (hm, cookie) {
            (None, _) => r == Err::<Session, Error>(Error::HmacNotAccessible),
            (Some(_), None) => r == Err::<Session, Error>(Error::NoCookie),
            (Some(hm), Some(token)) => match r {
                Ok(session) => decoded(hm@, token@) == Some(session@),
                Err(e) => decoded(hm@, token@) is None && e == Error::VerificationFailed,
            },
        },
{
    let hm = match hm {
        Some(hm) => hm,
        None => {
            return Err(Error::HmacNotAccessible);
        },
    };
    let token = match cookie {
        Some(token) => token,
        None => {
            return Err(Error::NoCookie);
        },
    };
    recover(hm, token)
}

/// The cookie that carries `session`: the session signed with the key, under
/// the name `authorization`.
pub fn inject_session(hm: &HmacKey, session: Session, secure: bool) -> (cookie: SessionCookie)
    ensures
        cookie@ == session_cookie(jwt_signed(hm@, session_claims(session@)), secure),
{
    let jwt = crypto::jwt_encode(session, hm);
    SessionCookie {
        name: "authorization".to_owned(),
        value: jwt,
        path: "/".to_owned(),
        secure: secure,
        http_only: true,
        max_age: SESSION_MAX_AGE,
    }
}

} // verus!
