use user_auth::auth::{TokenService, generate_token_at};
use user_auth::errors::ServiceError;
use user_auth::gate::{RequestContext, extract_bearer, validator};
use user_auth::models::{User, UserData};

fn service() -> TokenService {
    TokenService::new(b"0123456789abcdef0123456789abcdef".to_vec())
}

fn sample_user() -> User {
    User {
        id: 1,
        first_name: "Ada".to_string(),
        last_name: "Lovelace".to_string(),
        email: "a@example.com".to_string(),
        password: "irrelevant-stored-hash".to_string(),
        created_at: 1_700_000_000,
    }
}

const NOW: u64 = 1_700_000_000;

#[test]
fn bearer_extraction() {
    assert_eq!(extract_bearer(Some("Bearer abc.def.ghi")), Some("abc.def.ghi".to_string()));
    assert_eq!(extract_bearer(Some("Bearer ")), Some(String::new()));
    assert_eq!(extract_bearer(Some("bearer abc")), None);
    assert_eq!(extract_bearer(Some("Bearerabc")), None);
    assert_eq!(extract_bearer(Some("Basic abc")), None);
    assert_eq!(extract_bearer(Some("")), None);
    assert_eq!(extract_bearer(None), None);
}

#[test]
fn request_without_header_is_rejected_and_no_identity_attached() {
    let svc = service();
    let mut ctx = RequestContext::new();
    let r = validator(&svc, None, NOW, &mut ctx);
    assert!(matches!(r, Err(ServiceError::Unauthorized)));
    assert_eq!(UserData::from_context(&ctx), None);
}

#[test]
fn request_with_malformed_header_is_rejected() {
    let svc = service();
    let mut ctx = RequestContext::new();
    let r = validator(&svc, Some("Token abc"), NOW, &mut ctx);
    assert!(matches!(r, Err(ServiceError::Unauthorized)));
    assert_eq!(UserData::from_context(&ctx), None);
}

#[test]
fn bearing_a_fresh_token_admits_and_attaches_the_identity() {
    let svc = service();
    let token = generate_token_at(&svc, &sample_user(), NOW).expect("signing failed");
    let header = format!("Bearer {}", token);
    let mut ctx = RequestContext::new();
    let r = validator(&svc, Some(&header), NOW, &mut ctx);
    assert!(r.is_ok());
    let identity = UserData::from_context(&ctx).expect("no identity attached");
    assert_eq!(identity.id, 1);
    assert_eq!(identity.email, "a@example.com");
    assert_eq!(identity.first_name, "Ada");
    assert_eq!(identity.last_name, "Lovelace");
    assert_eq!(identity.created_at, 1_700_000_000);
}

#[test]
fn bearing_an_expired_token_is_rejected() {
    let svc = service();
    let token = generate_token_at(&svc, &sample_user(), NOW).expect("signing failed");
    let header = format!("Bearer {}", token);
    let mut ctx = RequestContext::new();
    let r = validator(&svc, Some(&header), NOW + 7201, &mut ctx);
    assert!(matches!(r, Err(ServiceError::Unauthorized)));
    assert_eq!(UserData::from_context(&ctx), None);
}

#[test]
fn rejection_shape_is_uniform_across_failure_causes() {
    let svc = service();
    let other = TokenService::new(b"zzzzzzzzzzzzzzzzzzzzzzzzzzzzzzzz".to_vec());
    let token = generate_token_at(&other, &sample_user(), NOW).expect("signing failed");
    let wrong_key_header = format!("Bearer {}", token);
    let causes: Vec<Option<String>> = vec![
        None,
        Some("nonsense".to_string()),
        Some("Bearer garbage".to_string()),
        Some(wrong_key_header),
    ];
    for header in causes {
        let mut ctx = RequestContext::new();
        let r = validator(&svc, header.as_deref(), NOW, &mut ctx);
        let e = r.err().expect("should have been rejected");
        let (status, body) = e.error_response();
        assert_eq!(status, 401);
        assert_eq!(body, "Invalid credentials provided.");
    }
}
