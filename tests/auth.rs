use argon2::password_hash::{PasswordHasher, SaltString};
use coco_parking::access::AppState;
use coco_parking::auth::{authenticate, find_account, validate_new_password, AuthError, UserAccount};

fn hash(password: &str) -> String {
    let salt = SaltString::from_b64("Y29jb19wYXJraW5nX3NhbHQ").unwrap();
    argon2::Argon2::default().hash_password(password.as_bytes(), &salt).unwrap().to_string()
}

fn account(id: &str, username: &str, password: &str) -> UserAccount {
    UserAccount {
        id: id.to_string(),
        username: username.to_string(),
        display_name: username.to_string(),
        role_id: "role_operator".to_string(),
        password_hash: hash(password),
        created_at: "2026-01-01T00:00:00Z".to_string(),
        hidden: false,
    }
}

#[test]
fn sign_in_checks_the_stored_hash() {
    let accounts = vec![account("user_admin", "admin", "admin"), account("u2", " Maria ", "s3cret")];
    assert_eq!(authenticate(&accounts, "admin", "admin"), Ok(0));
    assert_eq!(authenticate(&accounts, " MARIA", "s3cret"), Ok(1));
    assert_eq!(authenticate(&accounts, "maria", "wrong"), Err(AuthError::InvalidCredentials));
    assert_eq!(authenticate(&accounts, "nobody", "admin"), Err(AuthError::InvalidCredentials));
    assert_eq!(authenticate(&accounts, "  ", "admin"), Err(AuthError::UsernameRequired));
}

#[test]
fn unparsable_hash_matches_nothing() {
    let mut a = account("u3", "pedro", "x");
    a.password_hash = "not a hash".to_string();
    assert_eq!(authenticate(&vec![a], "pedro", "not a hash"), Err(AuthError::InvalidCredentials));
}

#[test]
fn account_lookup_ignores_case_and_space() {
    let accounts = vec![account("a", "Luis", "pw12")];
    assert_eq!(find_account(&accounts, " luis "), Ok(0));
    assert_eq!(find_account(&accounts, "luisa"), Err(AuthError::InvalidCredentials));
}

#[test]
fn short_passwords_are_rejected() {
    assert_eq!(validate_new_password("abc"), Err(AuthError::PasswordTooShort));
    assert_eq!(validate_new_password("abcd"), Ok(()));
}

#[test]
fn sign_in_binds_grants_and_sign_out_drops_them() {
    let mut s = AppState::new();
    s.sign_in("u9".to_string(), vec!["caja:treasury:read".to_string()]);
    assert_eq!(s.check_permission("caja:treasury:read"), Ok(()));
    assert!(s.check_permission("caja:shift:close").is_err());
    s.sign_out();
    assert!(s.check_permission("caja:treasury:read").is_err());
    assert_eq!(s.get_current_user_id(), None);
}
