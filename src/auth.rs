//! Operator login, operator creation and password change.
//!
//! Each function takes what the credential store returned for the request and
//! decides the outcome; the caller performs the reads and writes around it.

use vstd::prelude::*;
use vstd::utf8::encode_utf8;

use crate::decimal::{is_decimal_of, u64_to_decimal};
use crate::jwt::{bearer_token, signed_token, spec_bearer_token, Jwt};
use crate::models::{
    AdminLoginRequest, AdminLoginResponse, AdminLoginUser, AdminUser, AuthError, Claims,
    UpdatePassword,
};
use crate::password::{argon2_verdict, hash_password, is_fresh_hash, verify_password};

verus! {

/// How long a session token stays valid, in seconds.
pub const SESSION_SECONDS: u64 = 86400;

/// The shortest new password accepted, in bytes.
pub const MIN_PASSWORD_LEN: usize = 12;

/// When a session issued at `now` expires.
pub open spec fn session_expiry(now: u64) -> u64 {
    if now + SESSION_SECONDS > u64::MAX {
        u64::MAX
    } else {
        (now + SESSION_SECONDS) as u64
    }
}

/// The username of the one operator allowed to create operators.
pub open spec fn admin_name() -> Seq<char> {
    seq!['a', 'd', 'm', 'i', 'n']
}

/// `token` is the session token for operator `id` named `name`, issued at `now`.
pub open spec fn is_session_token(secret: Seq<char>, token: Seq<char>, id: u64, name: Seq<char>, now: u64) -> bool {
    exists|sub: Seq<char>|
        is_decimal_of(sub, id as nat) && token == #[trigger] signed_token(secret, sub, name, session_expiry(now))
}

/// Whether `name` is the admin's username.
pub fn is_admin(name: &str) -> (r: bool)
    ensures
        r == (name@ == admin_name()),
{
    if name.unicode_len() != 5 {
        return false;
    }
    let expected: [char; 5] = ['a', 'd', 'm', 'i', 'n'];
    let mut i: usize = 0;
    while i < 5
        invariant
            i <= 5,
            name@.len() == 5,
            expected@ == admin_name(),
            forall|j: int| 0 <= j < i ==> name@[j] == admin_name()[j],
        decreases 5 - i,
    {
        if name.get_char(i) != expected[i] {
            return false;
        }
        i = i + 1;
    }
    assert(name@ =~= admin_name());
    true
}

/// Mints the session token for operator `id` named `name` at time `now`.
fn issue_token(jwt: &Jwt, id: u64, name: String, now: u64) -> (r: Result<String, AuthError>)
    ensures
        r matches Ok(t) && is_session_token(jwt.key(), t@, id, name@, now),
{
    let sub = u64_to_decimal(id);
    let ghost sub_view = sub@;
    let ghost name_view = name@;
    let claims = Claims { sub, name, exp: now.saturating_add(SESSION_SECONDS) };
    let r = jwt.encode(claims);
    proof {
        if r is Ok {
            assert(signed_token(jwt.key(), sub_view, name_view, session_expiry(now)) == r->Ok_0@);
        }
    }
    r
}

/// Logs in `req` against `user`, what the store holds under `req.username`.
pub fn login_handler(jwt: &Jwt, req: AdminLoginRequest, user: Option<AdminLoginUser>, now: u64) -> (r: Result<
    AdminLoginResponse,
    AuthError,
>)
    ensures
        match user {
            None => r == Err::<AdminLoginResponse, AuthError>(AuthError::InvalidUserName),
            Some(u) => match argon2_verdict(u.password@, encode_utf8(req.password@)) {
                Some(true) => r matches Ok(resp) && resp.username@ == req.username@ && resp.avatar is None
                    && is_session_token(jwt.key(), resp.token@, u.id, u.username@, now),
                _ => r == Err::<AdminLoginResponse, AuthError>(AuthError::InvalidCredentials),
            },
        },
{
    let u = match user {
        None => return Err(AuthError::InvalidUserName),
        Some(u) => u,
    };
    let is_valid = match verify_password(u.password.as_str(), req.password.as_str().as_bytes()) {
        Ok(b) => b,
        Err(e) => return Err(e),
    };
    if !is_valid {
        return Err(AuthError::InvalidCredentials);
    }
    let token = match issue_token(jwt, u.id, u.username, now) {
        Ok(t) => t,
        Err(e) => return Err(e),
    };
    Ok(AdminLoginResponse { username: req.username, token, avatar: None })
}

/// Lets the admin create the operator `req`: returns the hash to store for it.
pub fn create_user_handler(user: &AdminUser, req: &AdminLoginRequest) -> (r: Result<String, AuthError>)
    ensures
        user.username@ != admin_name() ==> r == Err::<String, AuthError>(AuthError::NoPermissionError),
        user.username@ == admin_name() ==> match r {
            Ok(h) => is_fresh_hash(h@, encode_utf8(req.password@)),
            Err(e) => e == AuthError::EncryptError && encode_utf8(req.password@).len() > u32::MAX,
        },
{
    if !is_admin(user.username.as_str()) {
        return Err(AuthError::NoPermissionError);
    }
    hash_password(req.password.as_str().as_bytes())
}

/// Answers who is logged in, with the token of the header value `jwt`.
pub fn get_current_user_handler(user: AdminUser, jwt: String) -> (r: Result<AdminLoginResponse, AuthError>)
    ensures
        match spec_bearer_token(jwt@) {
            Some(t) => r matches Ok(resp) && resp.username@ == user.username@ && resp.token@ == t
                && resp.avatar is None,
            None => r == Err::<AdminLoginResponse, AuthError>(AuthError::InvalidAuthHeaderError),
        },
{
    match bearer_token(jwt.as_str()) {
        Some(token) => Ok(AdminLoginResponse { username: user.username, token, avatar: None }),
        None => Err(AuthError::InvalidAuthHeaderError),
    }
}

/// A password change to carry out: the hash to store and the reply with a
/// token reissued for the operator.
#[derive(Debug, Clone)]
pub struct PasswordUpdate {
    pub password_hash: String,
    pub response: AdminLoginResponse,
}

/// Changes the password of `user`; `stored` is what the store holds under its
/// username.
pub fn update_password_handler(
    jwt: &Jwt,
    user: AdminUser,
    req: UpdatePassword,
    stored: Option<AdminLoginUser>,
    now: u64,
) -> (r: Result<PasswordUpdate, AuthError>)
    ensures
        encode_utf8(req.new_password@).len() < MIN_PASSWORD_LEN ==> r == Err::<
            PasswordUpdate,
            AuthError,
        >(AuthError::PasswordTooShort),
        encode_utf8(req.new_password@).len() >= MIN_PASSWORD_LEN ==> match stored {
            None => r == Err::<PasswordUpdate, AuthError>(AuthError::InvalidUserName),
            Some(u) => match argon2_verdict(u.password@, encode_utf8(req.old_password@)) {
                Some(true) => match r {
                    Ok(p) => is_fresh_hash(p.password_hash@, encode_utf8(req.new_password@))
                        && p.response.username@ == user.username@ && p.response.avatar is None
                        && is_session_token(jwt.key(), p.response.token@, u.id, u.username@, now),
                    Err(e) => e == AuthError::EncryptError && encode_utf8(req.new_password@).len() > u32::MAX,
                },
                _ => r == Err::<PasswordUpdate, AuthError>(AuthError::InvalidCredentials),
            },
        },
{
    if req.new_password.as_str().as_bytes().len() < MIN_PASSWORD_LEN {
        return Err(AuthError::PasswordTooShort);
    }
    let u = match stored {
        None => return Err(AuthError::InvalidUserName),
        Some(u) => u,
    };
    let is_valid = match verify_password(u.password.as_str(), req.old_password.as_str().as_bytes()) {
        Ok(b) => b,
        Err(e) => return Err(e),
    };
    if !is_valid {
        return Err(AuthError::InvalidCredentials);
    }
    let password_hash = match hash_password(req.new_password.as_str().as_bytes()) {
        Ok(h) => h,
        Err(e) => return Err(e),
    };
    let token = match issue_token(jwt, u.id, u.username, now) {
        Ok(t) => t,
        Err(e) => return Err(e),
    };
    Ok(PasswordUpdate {
        password_hash,
        response: AdminLoginResponse { username: user.username, token, avatar: None },
    })
}

} // verus!
