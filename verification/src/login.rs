//! The login endpoint's decision and the reply it produces.

use vstd::prelude::*;
use crate::errors::{status_of, AppError, AuthError, STATUS_BAD_REQUEST};

verus! {

/// Replies to a login request.
pub enum LoginReply {
    /// Authentication succeeded: a refresh token and a session token.
    Success { refresh: [u8; 21], session: [u8; 11] },
}

/// The username that stands for "none given".
pub open spec fn missing_username() -> Seq<char> {
    "<none>"@
}

/// Whether the request lacks a usable username: none was sent, it is
/// empty, or it is the placeholder that stands for a missing one.
pub open spec fn username_missing(username: Option<Seq<char>>) -> bool {
    match username {
        None => true,
        Some(u) => u.len() == 0 || u == missing_username(),
    }
}

/// Answers a login request whose `username` field is given: a request
/// without a usable username is refused with `MissingField("username")`;
/// any other request succeeds with all-zero refresh and session tokens.
pub fn user_login(username: Option<&str>) -> (r: Result<LoginReply, AuthError>)
    ensures
        username_missing(
            match username {
                Some(u) => Some(u@),
                None => None,
            },
        ) ==> (r matches Err(AuthError::MissingField(f)) && f@ == "username"@),
        !username_missing(
            match username {
                Some(u) => Some(u@),
                None => None,
            },
        ) ==> (r matches Ok(LoginReply::Success { refresh, session }) && refresh@ == Seq::new(
            21,
            |_i: int| 0u8,
        ) && session@ == Seq::new(11, |_i: int| 0u8)),
{
    let name = match username {
        Some(u) => u,
        None => "<none>",
    };
    let given = String::from_str(name);
    let placeholder = String::from_str("<none>");
    if given == placeholder || name.is_empty() {
        return Err(AuthError::MissingField(String::from_str("username")));
    }
    let refresh = [0u8; 21];
    let session = [0u8; 11];
    assert(refresh@ =~= Seq::new(21, |_i: int| 0u8));
    assert(session@ =~= Seq::new(11, |_i: int| 0u8));
    Ok(LoginReply::Success { refresh, session })
}

/// The refusal that `user_login` gives a request without a usable
/// username, `MissingField`, is answered with 400 Bad Request.
pub proof fn refused_login_is_bad_request(field: String)
    ensures
        status_of(AppError::Auth(AuthError::MissingField(field))) == STATUS_BAD_REQUEST,
{
}

} // verus!
