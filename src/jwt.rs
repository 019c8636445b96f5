//! Session tokens: HS512-signed claims carried as `Authorization: Bearer <token>`.

use vstd::prelude::*;

use crate::decimal::{parse_u64, parsed_u64};
use crate::models::{AdminUser, AuthError, Claims};

verus! {

/// The token that jsonwebtoken signs with HS512 for the claims `sub`, `name`
/// and `exp` under `secret`.
pub uninterp spec fn signed_token(secret: Seq<char>, sub: Seq<char>, name: Seq<char>, exp: u64) -> Seq<char>;

/// The claims `(sub, name, exp)` that jsonwebtoken accepts from `token` under
/// `secret` with HS512, signature checked and expiry left to the caller; none
/// where the token is malformed, signed otherwise or lacks one of the claims.
pub uninterp spec fn verified_claims(secret: Seq<char>, token: Seq<char>) -> Option<(Seq<char>, Seq<char>, u64)>;

/// Relies on `jsonwebtoken::encode`: an HS512 token over a JSON object holding
/// `sub`, `name` and `exp`, signed with `secret`. With an HMAC key and an HMAC
/// algorithm it does not fail: the key family matches, a JSON map always
/// serialises, and HMAC signing returns `Ok`.
#[verifier::external_body]
fn sign_hs512(secret: &str, sub: &str, name: &str, exp: u64) -> (r: Option<String>)
    ensures
        r is Some,
        r matches Some(t) ==> t@ == signed_token(secret@, sub@, name@, exp),
{
    let mut claims = serde_json::Map::new();
    claims.insert("sub".to_string(), serde_json::Value::from(sub));
    claims.insert("name".to_string(), serde_json::Value::from(name));
    claims.insert("exp".to_string(), serde_json::Value::from(exp));
    let header = jsonwebtoken::Header::new(jsonwebtoken::Algorithm::HS512);
    let key = jsonwebtoken::EncodingKey::from_secret(secret.as_bytes());
    jsonwebtoken::encode(&header, &serde_json::Value::Object(claims), &key).ok()
}

/// Relies on `jsonwebtoken::decode` with HS512 and the expiry check switched
/// off: the claims of a token whose signature verifies under `secret`.
#[verifier::external_body]
fn verify_hs512(secret: &str, token: &str) -> (r: Option<(String, String, u64)>)
    ensures
        match r {
            Some(c) => verified_claims(secret@, token@) == Some((c.0@, c.1@, c.2)),
            None => verified_claims(secret@, token@) is None,
        },
{
    let mut validation = jsonwebtoken::Validation::new(jsonwebtoken::Algorithm::HS512);
    validation.validate_exp = false;
    let key = jsonwebtoken::DecodingKey::from_secret(secret.as_bytes());
    let data = jsonwebtoken::decode::<serde_json::Value>(token, &key, &validation).ok()?;
    let sub = data.claims.get("sub")?.as_str()?.to_string();
    let name = data.claims.get("name")?.as_str()?.to_string();
    let exp = data.claims.get("exp")?.as_u64()?;
    Some((sub, name, exp))
}

/// The scheme prefix of an authorization header value.
pub open spec fn bearer_prefix() -> Seq<char> {
    seq!['B', 'e', 'a', 'r', 'e', 'r', ' ']
}

/// The token after the `Bearer ` prefix, if the header has that prefix.
pub open spec fn spec_bearer_token(header: Seq<char>) -> Option<Seq<char>> {
    if header.len() >= 7 && header.take(7) == bearer_prefix() {
        Some(header.skip(7))
    } else {
        None
    }
}

/// What a header value and the verified claims of its token give at time
/// `now`: claims that have not expired, else the error that is reported.
pub open spec fn spec_accept(verified: Option<(Seq<char>, Seq<char>, u64)>, now: u64) -> Result<
    (Seq<char>, Seq<char>, u64),
    AuthError,
> {
    match verified {
        None => Err(AuthError::JWTTokenError),
        Some(c) => if c.2 > now {
            Ok(c)
        } else {
            Err(AuthError::JWTTokenError)
        },
    }
}

/// The outcome of decoding the header value `raw` under `secret` at time `now`.
pub open spec fn spec_decoded(secret: Seq<char>, raw: Option<Seq<char>>, now: u64) -> Result<
    (Seq<char>, Seq<char>, u64),
    AuthError,
> {
    match raw {
        None => Err(AuthError::NoAuthHeaderError),
        Some(h) => match spec_bearer_token(h) {
            None => Err(AuthError::InvalidAuthHeaderError),
            Some(t) => spec_accept(verified_claims(secret, t), now),
        },
    }
}

pub open spec fn claims_view(c: Claims) -> (Seq<char>, Seq<char>, u64) {
    (c.sub@, c.name@, c.exp)
}

/// A token whose signature verifies but whose expiry is not after `now` is
/// refused with `JWTTokenError`, the same error as a bad signature.
pub proof fn lemma_expired_claims_rejected(secret: Seq<char>, header: Seq<char>, now: u64)
    requires
        spec_bearer_token(header) matches Some(t) && verified_claims(secret, t) matches Some(c) && c.2 <= now,
    ensures
        spec_decoded(secret, Some(header), now) == Err::<(Seq<char>, Seq<char>, u64), AuthError>(AuthError::JWTTokenError),
{
}

/// Whatever header is presented, decoding succeeds only with claims that
/// expire after `now`.
pub proof fn lemma_accepted_claims_unexpired(secret: Seq<char>, raw: Option<Seq<char>>, now: u64)
    ensures
        spec_decoded(secret, raw, now) matches Ok(c) ==> c.2 > now,
{
}

/// The token of a `Bearer ` header value.
pub fn bearer_token(header: &str) -> (r: Option<String>)
    ensures
        match r {
            Some(t) => spec_bearer_token(header@) == Some(t@),
            None => spec_bearer_token(header@) is None,
        },
{
    let len = header.unicode_len();
    if len < 7 {
        return None;
    }
    let prefix: [char; 7] = ['B', 'e', 'a', 'r', 'e', 'r', ' '];
    let mut i: usize = 0;
    while i < 7
        invariant
            i <= 7,
            len == header@.len(),
            len >= 7,
            prefix@ == bearer_prefix(),
            forall|j: int| 0 <= j < i ==> header@[j] == bearer_prefix()[j],
        decreases 7 - i,
    {
        if header.get_char(i) != prefix[i] {
            assert(header@.take(7)[i as int] != bearer_prefix()[i as int]);
            return None;
        }
        i = i + 1;
    }
    assert(header@.take(7) =~= bearer_prefix());
    let t = header.substring_char(7, len);
    assert(t@ =~= header@.skip(7));
    Some(t.to_owned())
}

/// Accepts verified claims that expire after `now`.
pub fn accept_claims(verified: Option<Claims>, now: u64) -> (r: Result<Claims, AuthError>)
    ensures
        match r {
            Ok(c) => verified == Some(c) && c.exp > now,
            Err(e) => e == AuthError::JWTTokenError && (verified matches Some(c) ==> c.exp <= now),
        },
{
    match verified {
        None => Err(AuthError::JWTTokenError),
        Some(c) => if c.exp > now {
            Ok(c)
        } else {
            Err(AuthError::JWTTokenError)
        },
    }
}

/// The operator that claims name: the subject must read as a `u64` id.
pub fn claims_to_admin_user(claims: Claims) -> (r: Result<AdminUser, AuthError>)
    ensures
        match parsed_u64(claims.sub@) {
            Some(id) => r matches Ok(u) && u.id == id && u.username@ == claims.name@,
            None => r == Err::<AdminUser, AuthError>(AuthError::InvalidAuthHeaderError),
        },
{
    match parse_u64(claims.sub.as_str()) {
        Some(id) => Ok(AdminUser { id, username: claims.name }),
        None => Err(AuthError::InvalidAuthHeaderError),
    }
}

/// The signing secret of the process, fixed when it is made.
#[derive(Clone, Debug)]
pub struct Jwt {
    secret: String,
}

impl Jwt {
    pub closed spec fn key(&self) -> Seq<char> {
        self.secret@
    }

    pub fn new(secret: &str) -> (r: Jwt)
        ensures
            r.key() == secret@,
    {
        Jwt { secret: secret.to_owned() }
    }

    /// Signs `claims` into a token.
    pub fn encode(&self, claims: Claims) -> (r: Result<String, AuthError>)
        ensures
            r matches Ok(t) && t@ == signed_token(self.key(), claims.sub@, claims.name@, claims.exp),
    {
        match sign_hs512(self.secret.as_str(), claims.sub.as_str(), claims.name.as_str(), claims.exp) {
            Some(t) => Ok(t),
            None => Err(AuthError::JWTTokenCreationError),
        }
    }

    /// Reads the claims of the header value `jwt_raw` at time `now`.
    pub fn decode(&self, jwt_raw: Option<String>, now: u64) -> (r: Result<Claims, AuthError>)
        ensures
            match r {
                Ok(c) => spec_decoded(
                    self.key(),
                    match jwt_raw {
                        Some(h) => Some(h@),
                        None => None,
                    },
                    now,
                ) == Ok::<(Seq<char>, Seq<char>, u64), AuthError>(claims_view(c)),
                Err(e) => spec_decoded(
                    self.key(),
                    match jwt_raw {
                        Some(h) => Some(h@),
                        None => None,
                    },
                    now,
                ) == Err::<(Seq<char>, Seq<char>, u64), AuthError>(e),
            },
    {
        match jwt_raw {
            None => Err(AuthError::NoAuthHeaderError),
            Some(v) => match bearer_token(v.as_str()) {
                None => Err(AuthError::InvalidAuthHeaderError),
                Some(t) => {
                    let verified = match verify_hs512(self.secret.as_str(), t.as_str()) {
                        Some(c) => Some(Claims { sub: c.0, name: c.1, exp: c.2 }),
                        None => None,
                    };
                    accept_claims(verified, now)
                },
            },
        }
    }

    /// The operator that the header value `jwt_raw` authenticates at time `now`.
    pub fn decode_to_admin_user(&self, jwt_raw: Option<String>, now: u64) -> (r: Result<
        AdminUser,
        AuthError,
    >)
        ensures
            match r {
                Ok(u) => exists|c: (Seq<char>, Seq<char>, u64)|
                    spec_decoded(
                        self.key(),
                        match jwt_raw {
                            Some(h) => Some(h@),
                            None => None,
                        },
                        now,
                    ) == Ok::<(Seq<char>, Seq<char>, u64), AuthError>(c) && parsed_u64(c.0)
                        == Some(u.id) && u.username@ == c.1,
                Err(e) => match spec_decoded(
                    self.key(),
                    match jwt_raw {
                        Some(h) => Some(h@),
                        None => None,
                    },
                    now,
                ) {
                    Ok(c) => parsed_u64(c.0) is None && e == AuthError::InvalidAuthHeaderError,
                    Err(d) => e == d,
                },
            },
    {
        let claims = match self.decode(jwt_raw, now) {
            Ok(c) => c,
            Err(e) => return Err(e),
        };
        claims_to_admin_user(claims)
    }
}

} // verus!
