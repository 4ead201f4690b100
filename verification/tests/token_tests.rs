use user_auth::auth::{
    TokenService, generate_token, generate_token_at, validate_token, validate_token_at,
};
use user_auth::errors::ServiceError;
use user_auth::models::{User, UserData};

fn service() -> TokenService {
    TokenService::new(b"0123456789abcdef0123456789abcdef".to_vec())
}

fn sample_user() -> User {
    User {
        id: 1,
        first_name: "Ada".to_string(),
        last_name: "Lovelace".to_string(),
        email: "a@example.com".to_string(),
        password: "$2b$12$abcdefghijklmnopqrstuvwxyz012345678901234567890123456".to_string(),
        created_at: 1_700_000_000,
    }
}

fn sample_claims() -> UserData {
    UserData {
        id: 1,
        first_name: "Ada".to_string(),
        last_name: "Lovelace".to_string(),
        email: "a@example.com".to_string(),
        created_at: 1_700_000_000,
    }
}

const NOW: u64 = 1_700_000_000;

#[test]
fn issue_then_verify_returns_the_claims() {
    let svc = service();
    let token = generate_token_at(&svc, &sample_user(), NOW).expect("signing failed");
    let claims = validate_token_at(&svc, &token, NOW).expect("verification failed");
    assert_eq!(claims, sample_claims());
}

#[test]
fn verification_is_well_defined_at_the_window_boundary() {
    let svc = service();
    let token = generate_token_at(&svc, &sample_user(), NOW).expect("signing failed");
    assert!(validate_token_at(&svc, &token, NOW + 7199).is_ok());
    assert!(validate_token_at(&svc, &token, NOW + 7200).is_ok());
    assert!(matches!(
        validate_token_at(&svc, &token, NOW + 7201),
        Err(ServiceError::Unauthorized)
    ));
}

#[test]
fn expired_token_is_unauthorized() {
    let svc = service();
    let token = generate_token_at(&svc, &sample_user(), NOW).expect("signing failed");
    assert!(matches!(
        validate_token_at(&svc, &token, NOW + 10_000),
        Err(ServiceError::Unauthorized)
    ));
}

#[test]
fn token_not_yet_valid_is_unauthorized() {
    let svc = service();
    let token = generate_token_at(&svc, &sample_user(), NOW).expect("signing failed");
    assert!(matches!(
        validate_token_at(&svc, &token, NOW - 1),
        Err(ServiceError::Unauthorized)
    ));
}

#[test]
fn wrong_secret_is_unauthorized() {
    let svc = service();
    let other = TokenService::new(b"zzzzzzzzzzzzzzzzzzzzzzzzzzzzzzzz".to_vec());
    let token = generate_token_at(&svc, &sample_user(), NOW).expect("signing failed");
    assert!(matches!(
        validate_token_at(&other, &token, NOW),
        Err(ServiceError::Unauthorized)
    ));
}

#[test]
fn malformed_tokens_are_unauthorized_not_a_crash() {
    let svc = service();
    for bad in ["", "abc", "a.b.c", "....", "eyJhbGciOiJIUzI1NiJ9", "Bearer x"] {
        assert!(matches!(
            validate_token_at(&svc, bad, NOW),
            Err(ServiceError::Unauthorized)
        ));
    }
}

#[test]
fn tampered_token_is_unauthorized() {
    let svc = service();
    let token = generate_token_at(&svc, &sample_user(), NOW).expect("signing failed");
    let mut tampered: String = token.clone();
    let last = tampered.pop().expect("token is empty");
    tampered.push(if last == 'A' { 'B' } else { 'A' });
    assert!(matches!(
        validate_token_at(&svc, &tampered, NOW),
        Err(ServiceError::Unauthorized)
    ));
}

#[test]
fn token_differs_from_its_claims_and_carries_no_password() {
    let svc = service();
    let token = generate_token_at(&svc, &sample_user(), NOW).expect("signing failed");
    assert!(!token.contains("$2b$12$"));
    assert_ne!(token, "a@example.com");
    assert!(token.matches('.').count() == 2);
}

#[test]
fn wall_clock_issue_and_verify_round_trip() {
    let svc = service();
    let token = generate_token(&svc, sample_user()).expect("signing failed");
    let claims = validate_token(&svc, &token).expect("verification failed");
    assert_eq!(claims, sample_claims());
}
