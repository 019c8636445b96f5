use kerria::auth::{
    create_user_handler, get_current_user_handler, login_handler, update_password_handler,
    SESSION_SECONDS,
};
use kerria::decimal::{parse_u64, u64_to_decimal};
use kerria::jwt::{accept_claims, bearer_token, claims_to_admin_user, Jwt};
use kerria::models::{
    AdminLoginRequest, AdminLoginUser, AdminUser, AuthError, Claims, ErrorKind, Paging,
    UpdatePassword, MAX_ROWS, MIN_ROWS,
};
use kerria::password::{hash_password, hash_password_with_salt, verify_password};

const NOW: u64 = 1_700_000_000;

fn claims(sub: &str, name: &str, exp: u64) -> Claims {
    Claims { sub: sub.to_string(), name: name.to_string(), exp }
}

fn bearer(token: &str) -> Option<String> {
    Some(format!("Bearer {}", token))
}

fn stored_user(id: u64, username: &str, password: &str) -> AdminLoginUser {
    AdminLoginUser {
        id,
        username: username.to_string(),
        password: hash_password(password.as_bytes()).unwrap(),
    }
}

#[test]
fn hash_then_verify_accepts_only_the_same_password() {
    let h = hash_password(b"plaintext-secret").unwrap();
    assert_eq!(verify_password(&h, b"plaintext-secret"), Ok(true));
    assert_eq!(verify_password(&h, b"plaintext-secretx"), Ok(false));
}

#[test]
fn hash_is_encoded_and_salted() {
    let h = hash_password(b"pw").unwrap();
    assert!(h.starts_with("$argon2"));
    assert_ne!(h, "pw");
    let h2 = hash_password(b"pw").unwrap();
    assert_ne!(h, h2);
}

#[test]
fn hash_with_fixed_salt_is_repeatable() {
    let a = hash_password_with_salt(b"password", b"somesaltsomesalt").unwrap();
    let b = hash_password_with_salt(b"password", b"somesaltsomesalt").unwrap();
    assert_eq!(a, b);
    assert_eq!(verify_password(&a, b"password"), Ok(true));
}

#[test]
fn hash_with_short_salt_fails() {
    assert_eq!(hash_password_with_salt(b"password", b"short"), Err(AuthError::EncryptError));
}

#[test]
fn malformed_hash_is_bad_credentials() {
    assert_eq!(verify_password("not a hash", b"pw"), Err(AuthError::InvalidCredentials));
}

#[test]
fn token_round_trip_keeps_claims() {
    let jwt = Jwt::new("SECRET-REDACTED");
    let t = jwt.encode(claims("42", "alice", NOW + 100)).unwrap();
    assert_eq!(t.split('.').count(), 3);
    let c = jwt.decode(bearer(&t), NOW).unwrap();
    assert_eq!(c.sub, "42");
    assert_eq!(c.name, "alice");
    assert_eq!(c.exp, NOW + 100);
}

#[test]
fn expired_token_is_rejected() {
    let jwt = Jwt::new("SECRET-REDACTED");
    let t = jwt.encode(claims("42", "alice", NOW - 1)).unwrap();
    assert_eq!(jwt.decode(bearer(&t), NOW).err(), Some(AuthError::JWTTokenError));
    let t = jwt.encode(claims("42", "alice", NOW)).unwrap();
    assert_eq!(jwt.decode(bearer(&t), NOW).err(), Some(AuthError::JWTTokenError));
}

#[test]
fn tampered_token_is_rejected() {
    let jwt = Jwt::new("SECRET-REDACTED");
    let t = jwt.encode(claims("42", "alice", NOW + 100)).unwrap();
    let parts: Vec<&str> = t.split('.').collect();
    let mut payload: Vec<u8> = parts[1].as_bytes().to_vec();
    payload[3] = if payload[3] == b'A' { b'B' } else { b'A' };
    let forged = format!("{}.{}.{}", parts[0], String::from_utf8(payload).unwrap(), parts[2]);
    assert_eq!(jwt.decode(bearer(&forged), NOW).err(), Some(AuthError::JWTTokenError));
    let mut sig: Vec<u8> = parts[2].as_bytes().to_vec();
    sig[0] = if sig[0] == b'A' { b'B' } else { b'A' };
    let forged = format!("{}.{}.{}", parts[0], parts[1], String::from_utf8(sig).unwrap());
    assert_eq!(jwt.decode(bearer(&forged), NOW).err(), Some(AuthError::JWTTokenError));
}

#[test]
fn token_from_another_secret_is_rejected() {
    let t = Jwt::new("one").encode(claims("1", "a", NOW + 10)).unwrap();
    assert_eq!(Jwt::new("two").decode(bearer(&t), NOW).err(), Some(AuthError::JWTTokenError));
}

#[test]
fn header_errors_are_distinct() {
    let jwt = Jwt::new("k");
    assert_eq!(jwt.decode(None, NOW).err(), Some(AuthError::NoAuthHeaderError));
    assert_eq!(jwt.decode(Some("Token abc".to_string()), NOW).err(), Some(AuthError::InvalidAuthHeaderError));
    assert_eq!(jwt.decode(Some("bearer abc".to_string()), NOW).err(), Some(AuthError::InvalidAuthHeaderError));
    assert_eq!(jwt.decode(Some("Bearer abc".to_string()), NOW).err(), Some(AuthError::JWTTokenError));
}

#[test]
fn bearer_prefix_is_stripped_once() {
    assert_eq!(bearer_token("Bearer abc"), Some("abc".to_string()));
    assert_eq!(bearer_token("Bearer "), Some(String::new()));
    assert_eq!(bearer_token("Bearer"), None);
    assert_eq!(bearer_token("xBearer abc"), None);
}

#[test]
fn accept_claims_checks_expiry() {
    assert_eq!(accept_claims(None, NOW).err(), Some(AuthError::JWTTokenError));
    assert_eq!(accept_claims(Some(claims("1", "a", NOW)), NOW).err(), Some(AuthError::JWTTokenError));
    assert_eq!(accept_claims(Some(claims("1", "a", NOW + 1)), NOW).unwrap().exp, NOW + 1);
}

#[test]
fn subject_must_be_an_id() {
    let u = claims_to_admin_user(claims("42", "alice", 0)).unwrap();
    assert_eq!(u.id, 42);
    assert_eq!(u.username, "alice");
    assert_eq!(claims_to_admin_user(claims("4x2", "alice", 0)).err(), Some(AuthError::InvalidAuthHeaderError));
    let jwt = Jwt::new("k");
    let t = jwt.encode(claims("abc", "alice", NOW + 10)).unwrap();
    assert_eq!(jwt.decode_to_admin_user(bearer(&t), NOW).err(), Some(AuthError::InvalidAuthHeaderError));
    let t = jwt.encode(claims("7", "bob", NOW + 10)).unwrap();
    let u = jwt.decode_to_admin_user(bearer(&t), NOW).unwrap();
    assert_eq!((u.id, u.username.as_str()), (7, "bob"));
}

#[test]
fn decimal_text_reads_and_writes() {
    assert_eq!(parse_u64("0"), Some(0));
    assert_eq!(parse_u64("+7"), Some(7));
    assert_eq!(parse_u64("18446744073709551615"), Some(u64::MAX));
    assert_eq!(parse_u64("18446744073709551616"), None);
    assert_eq!(parse_u64(""), None);
    assert_eq!(parse_u64("+"), None);
    assert_eq!(parse_u64("12a"), None);
    assert_eq!(parse_u64("-1"), None);
    assert_eq!(u64_to_decimal(0), "0");
    assert_eq!(u64_to_decimal(1234567890), "1234567890");
    assert_eq!(u64_to_decimal(u64::MAX), "18446744073709551615");
}

#[test]
fn login_checks_user_and_password() {
    let jwt = Jwt::new("k");
    let req = AdminLoginRequest { username: "alice".to_string(), password: "right password".to_string() };
    assert_eq!(login_handler(&jwt, req.clone(), None, NOW).err(), Some(AuthError::InvalidUserName));
    let user = stored_user(5, "alice", "other password");
    assert_eq!(login_handler(&jwt, req.clone(), Some(user), NOW).err(), Some(AuthError::InvalidCredentials));
    let broken = AdminLoginUser { id: 5, username: "alice".to_string(), password: "garbage".to_string() };
    assert_eq!(login_handler(&jwt, req.clone(), Some(broken), NOW).err(), Some(AuthError::InvalidCredentials));
    let user = stored_user(5, "alice", "right password");
    let resp = login_handler(&jwt, req, Some(user), NOW).unwrap();
    assert_eq!(resp.username, "alice");
    assert!(resp.avatar.is_none());
    let c = jwt.decode(bearer(&resp.token), NOW).unwrap();
    assert_eq!((c.sub.as_str(), c.name.as_str(), c.exp), ("5", "alice", NOW + SESSION_SECONDS));
}

#[test]
fn login_then_change_password() {
    let jwt = Jwt::new("SECRET-REDACTED");
    let req = AdminLoginRequest { username: "admin".to_string(), password: "first password".to_string() };
    let stored = stored_user(1, "admin", "first password");
    let resp = login_handler(&jwt, req, Some(stored.clone()), NOW).unwrap();
    assert!(!resp.token.is_empty());
    let actor = jwt.decode_to_admin_user(bearer(&resp.token), NOW + 5).unwrap();
    assert_eq!((actor.id, actor.username.as_str()), (1, "admin"));

    let short = UpdatePassword { old_password: "first password".to_string(), new_password: "12345678901".to_string() };
    let err = update_password_handler(&jwt, actor.clone(), short, Some(stored.clone()), NOW + 5).err().unwrap();
    assert_eq!(err, AuthError::PasswordTooShort);
    assert_eq!(err.kind(), ErrorKind::Validation);

    let ok = UpdatePassword { old_password: "first password".to_string(), new_password: "123456789012".to_string() };
    let update = update_password_handler(&jwt, actor.clone(), ok, Some(stored.clone()), NOW + 5).unwrap();
    assert_ne!(update.response.token, resp.token);
    assert_eq!(update.response.username, "admin");
    assert_eq!(verify_password(&update.password_hash, b"123456789012"), Ok(true));
    assert_eq!(verify_password(&update.password_hash, b"first password"), Ok(false));
    let again = jwt.decode_to_admin_user(bearer(&update.response.token), NOW + 5).unwrap();
    assert_eq!(again.id, 1);
}

#[test]
fn change_password_checks_old_password_and_user() {
    let jwt = Jwt::new("k");
    let actor = AdminUser { id: 1, username: "admin".to_string() };
    let req = UpdatePassword { old_password: "wrong".to_string(), new_password: "a long new password".to_string() };
    let stored = stored_user(1, "admin", "first password");
    assert_eq!(update_password_handler(&jwt, actor.clone(), req.clone(), Some(stored), NOW).err(), Some(AuthError::InvalidCredentials));
    assert_eq!(update_password_handler(&jwt, actor, req, None, NOW).err(), Some(AuthError::InvalidUserName));
}

#[test]
fn only_admin_creates_operators() {
    let req = AdminLoginRequest { username: "bob".to_string(), password: "bobs password".to_string() };
    let other = AdminUser { id: 2, username: "alice".to_string() };
    let err = create_user_handler(&other, &req).err().unwrap();
    assert_eq!(err, AuthError::NoPermissionError);
    assert_eq!(err.kind(), ErrorKind::Forbidden);
    let admin = AdminUser { id: 1, username: "admin".to_string() };
    let h = create_user_handler(&admin, &req).unwrap();
    assert_eq!(verify_password(&h, b"bobs password"), Ok(true));
}

#[test]
fn current_user_returns_presented_token() {
    let user = AdminUser { id: 1, username: "admin".to_string() };
    let resp = get_current_user_handler(user.clone(), "Bearer abc.def.ghi".to_string()).unwrap();
    assert_eq!((resp.username.as_str(), resp.token.as_str()), ("admin", "abc.def.ghi"));
    assert_eq!(get_current_user_handler(user, "abc".to_string()).err(), Some(AuthError::InvalidAuthHeaderError));
}

#[test]
fn error_kinds_are_stable() {
    assert_eq!(AuthError::NoAuthHeaderError.kind(), ErrorKind::Unauthenticated);
    assert_eq!(AuthError::JWTTokenError.kind(), ErrorKind::Unauthenticated);
    assert_eq!(AuthError::InvalidUserName.kind(), ErrorKind::NotFound);
    assert_eq!(AuthError::EncryptError.kind(), ErrorKind::Internal);
    assert_eq!(AuthError::NoPermissionError.message(), "no permission");
}

#[test]
fn paging_is_clamped() {
    let p = Paging { offset: None, limit: None };
    assert_eq!((p.start(), p.clamped_limit(MAX_ROWS)), (0, 100));
    assert_eq!(p.clamped_limit(MIN_ROWS), 20);
    let p = Paging { offset: Some(7), limit: Some(500) };
    assert_eq!((p.start(), p.clamped_limit(MIN_ROWS)), (7, 100));
    let p = Paging { offset: Some(0), limit: Some(0) };
    assert_eq!(p.clamped_limit(MAX_ROWS), 0);
}
