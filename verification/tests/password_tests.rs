use user_auth::auth::{encode_password, verify_password};
use user_auth::errors::ServiceError;

#[test]
fn hash_then_verify_round_trip() {
    let hashed = encode_password("secret").expect("hashing failed");
    assert_eq!(verify_password("secret", &hashed).expect("verify failed"), true);
    assert_eq!(verify_password("other", &hashed).expect("verify failed"), false);
}

#[test]
fn two_hashes_of_one_password_differ_yet_both_verify() {
    let h1 = encode_password("secret").expect("hashing failed");
    let h2 = encode_password("secret").expect("hashing failed");
    assert_ne!(h1, h2);
    assert_eq!(verify_password("secret", &h1).expect("verify failed"), true);
    assert_eq!(verify_password("secret", &h2).expect("verify failed"), true);
    assert_eq!(verify_password("other", &h1).expect("verify failed"), false);
    assert_eq!(verify_password("other", &h2).expect("verify failed"), false);
}

#[test]
fn hash_is_a_self_describing_sixty_character_string() {
    let hashed = encode_password("secret").expect("hashing failed");
    assert_eq!(hashed.len(), 60);
    assert!(hashed.starts_with("$2b$12$"));
}

#[test]
fn distinct_passwords_do_not_cross_verify() {
    let hashed = encode_password("correct horse").expect("hashing failed");
    assert_eq!(verify_password("battery staple", &hashed).unwrap(), false);
    assert_eq!(verify_password("", &hashed).unwrap(), false);
}

#[test]
fn empty_password_round_trips() {
    let hashed = encode_password("").expect("hashing failed");
    assert_eq!(verify_password("", &hashed).unwrap(), true);
    assert_eq!(verify_password("x", &hashed).unwrap(), false);
}

#[test]
fn malformed_stored_hash_is_a_server_fault_not_a_mismatch() {
    let r = verify_password("secret", "not-a-bcrypt-hash");
    match r {
        Err(ServiceError::InternalServerError(_)) => {}
        other => panic!("expected an internal server error, got {:?}", other),
    }
    let r2 = verify_password("secret", "");
    assert!(matches!(r2, Err(ServiceError::InternalServerError(_))));
}
