use super::session;
use super::session::{session_cookie, SessionCookie, SESSION_ID_LENGTH};
use crate::config::Admin;
use crate::crypto;
use crate::crypto::{all_alphanumeric, jwt_signed, session_claims, HmacKey};
use crate::models::{Login, Session, SessionView};
use vstd::prelude::*;

verus! {

/// The credentials are those of the administrator: both the username and the
/// password are his.
pub open spec fn credentials_match(login: Login, admin: Admin) -> bool {
    login.username@ == admin.username@ && login.password@ == admin.password@
}

/// Checks the credentials of a login against those of the administrator.
pub fn check_login(login: &Login, admin: &Admin) -> (accepted: bool)
    ensures
        accepted == credentials_match(*login, *admin),
{
    login.username == admin.username && login.password == admin.password
}

/// Logs the administrator in: where the credentials are his, a session is
/// minted for the username of the login and comes back as the cookie that
/// carries it; where they are not, nothing is minted.
pub fn post_login(hm: &HmacKey, admin: &Admin, login: &Login, secure: bool) -> (cookie: Option<
    SessionCookie,
>)
    ensures
        cookie is Some <==> credentials_match(*login, *admin),
        cookie is Some ==> exists|session: SessionView|
            {
                &&& session.username == login.username@
                &&& session.id.len() == SESSION_ID_LENGTH
                &&& all_alphanumeric(session.id)
                &&& cookie->0@ == #[trigger] session_cookie(
                    jwt_signed(hm@, session_claims(session)),
                    secure,
                )
            },
{
    if !check_login(login, admin) {
        return None;
    }
    let session_id = crypto::random_token(SESSION_ID_LENGTH);
    let minted = Session::new(session_id.as_str(), login.username.as_str());
    let ghost view = minted@;
    let cookie = session::inject_session(hm, minted, secure);
    assert(cookie@ == session_cookie(jwt_signed(hm@, session_claims(view)), secure));
    Some(cookie)
}

} // verus!
