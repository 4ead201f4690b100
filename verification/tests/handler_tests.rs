use user_auth::auth::{TokenService, encode_password, validate_token_at};
use user_auth::errors::ServiceError;
use user_auth::handlers::{
    add_single_user, delete_request_allowed, get_all_users, login, login_attempt,
    resolve_user_id,
};
use user_auth::models::{InputUser, LoginRequest, User, UserData};

fn service() -> TokenService {
    TokenService::new(b"0123456789abcdef0123456789abcdef".to_vec())
}

const NOW: u64 = 1_700_000_000;

fn stored_user(password_hash: String) -> User {
    User {
        id: 7,
        first_name: "Ada".to_string(),
        last_name: "Lovelace".to_string(),
        email: "a@example.com".to_string(),
        password: password_hash,
        created_at: 123,
    }
}

#[test]
fn login_with_the_right_password_yields_a_verifiable_token() {
    let svc = service();
    let hash = encode_password("hunter2").expect("hashing failed");
    let user = stored_user(hash);
    let request = LoginRequest { email: "a@example.com".to_string(), password: "hunter2".to_string() };
    let response = login(&svc, user, &request, NOW).expect("login failed");
    let claims = validate_token_at(&svc, &response.token, NOW).expect("token did not verify");
    assert_eq!(claims.id, 7);
    assert_eq!(claims.email, "a@example.com");
}

#[test]
fn login_with_the_wrong_password_is_forbidden() {
    let svc = service();
    let hash = encode_password("hunter2").expect("hashing failed");
    let user = stored_user(hash);
    let request = LoginRequest { email: "a@example.com".to_string(), password: "wrong".to_string() };
    match login(&svc, user, &request, NOW) {
        Err(ServiceError::Forbidden(m)) => assert_eq!(m, "Invalid credentials"),
        other => panic!("expected a forbidden rejection, got {:?}", other),
    }
}

#[test]
fn unknown_login_and_wrong_password_reject_identically() {
    let svc = service();
    let hash = encode_password("hunter2").expect("hashing failed");
    let user = stored_user(hash);
    let request = LoginRequest { email: "a@example.com".to_string(), password: "wrong".to_string() };
    let unknown = login_attempt(&svc, None, &request, NOW).err().expect("should reject");
    let mismatch = login_attempt(&svc, Some(user), &request, NOW).err().expect("should reject");
    assert_eq!(unknown.error_response(), mismatch.error_response());
    assert_eq!(unknown.error_response(), (403, "Invalid credentials".to_string()));
}

#[test]
fn login_against_a_corrupt_stored_hash_is_a_server_fault() {
    let svc = service();
    let user = stored_user("corrupt".to_string());
    let request = LoginRequest { email: "a@example.com".to_string(), password: "hunter2".to_string() };
    assert!(matches!(
        login(&svc, user, &request, NOW),
        Err(ServiceError::InternalServerError(_))
    ));
}

#[test]
fn signup_record_carries_a_hash_of_the_password_and_nothing_of_it() {
    let item = InputUser {
        first_name: "Ada".to_string(),
        last_name: "Lovelace".to_string(),
        email: "a@example.com".to_string(),
        password: "hunter2".to_string(),
    };
    let nu = add_single_user(&item, 55).expect("signup failed");
    assert_eq!(nu.first_name, "Ada");
    assert_eq!(nu.last_name, "Lovelace");
    assert_eq!(nu.email, "a@example.com");
    assert_eq!(nu.created_at, 55);
    assert_ne!(nu.pwd, "hunter2");
    assert_eq!(user_auth::auth::verify_password("hunter2", &nu.pwd).unwrap(), true);
    assert_eq!(user_auth::auth::verify_password("other", &nu.pwd).unwrap(), false);
}

#[test]
fn listing_maps_records_to_identities_without_hashes() {
    let users = vec![
        stored_user("h1".to_string()),
        User { id: 8, ..stored_user("h2".to_string()) },
    ];
    let data = get_all_users(&users);
    assert_eq!(data.len(), 2);
    assert_eq!(data[0].id, 7);
    assert_eq!(data[1].id, 8);
    assert_eq!(data[0].email, "a@example.com");
}

#[test]
fn path_identifier_resolution() {
    let me = UserData {
        id: 9,
        first_name: String::new(),
        last_name: String::new(),
        email: String::new(),
        created_at: 0,
    };
    assert_eq!(resolve_user_id("42", me.id), Some(42));
    assert_eq!(resolve_user_id("+7", me.id), Some(7));
    assert_eq!(resolve_user_id("-8", me.id), Some(-8));
    assert_eq!(resolve_user_id("007", me.id), Some(7));
    assert_eq!(resolve_user_id("me", me.id), Some(9));
    assert_eq!(resolve_user_id("2147483647", me.id), Some(2147483647));
    assert_eq!(resolve_user_id("-2147483648", me.id), Some(-2147483648));
    assert_eq!(resolve_user_id("2147483648", me.id), None);
    assert_eq!(resolve_user_id("-2147483649", me.id), None);
    assert_eq!(resolve_user_id("99999999999999999999", me.id), None);
    assert_eq!(resolve_user_id("4x", me.id), None);
    assert_eq!(resolve_user_id("", me.id), None);
    assert_eq!(resolve_user_id("+", me.id), None);
    assert_eq!(resolve_user_id("-", me.id), None);
    assert_eq!(resolve_user_id("ME", me.id), None);
}

#[test]
fn only_the_caller_itself_may_be_deleted() {
    assert!(delete_request_allowed("me"));
    assert!(!delete_request_allowed("7"));
    assert!(!delete_request_allowed("Me"));
    assert!(!delete_request_allowed(""));
}

#[test]
fn error_responses_are_fixed_per_variant() {
    let ise = ServiceError::InternalServerError("boom".to_string());
    assert_eq!(ise.error_response(), (500, "boom".to_string()));
    assert_eq!(ise.status_code(), 500);
    assert_eq!(
        ServiceError::NotFound.error_response(),
        (404, "Pokemon not found.".to_string())
    );
    assert_eq!(
        ServiceError::Unauthorized.error_response(),
        (401, "Invalid credentials provided.".to_string())
    );
    let f = ServiceError::Forbidden("no".to_string());
    assert_eq!(f.error_response(), (403, "no".to_string()));
}
