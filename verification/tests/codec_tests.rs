use user_auth::codec::{decode_claims, encode_claims};
use user_auth::models::UserData;

#[test]
fn encode_decode_round_trip() {
    let u = UserData {
        id: 42,
        first_name: "Grace".to_string(),
        last_name: "Hopper".to_string(),
        email: "g@example.com".to_string(),
        created_at: -12345,
    };
    let blob = encode_claims(&u);
    assert_eq!(decode_claims(&blob), Some(u));
}

#[test]
fn zero_claims_have_the_expected_canonical_form() {
    let u = UserData {
        id: 0,
        first_name: String::new(),
        last_name: String::new(),
        email: String::new(),
        created_at: 0,
    };
    let blob = encode_claims(&u);
    let expected = format!(
        "{}{}{}{}{}",
        "2147483648",
        "09223372036854775808",
        "00000000000000000000",
        "00000000000000000000",
        "00000000000000000000"
    );
    assert_eq!(blob, expected);
    assert_eq!(decode_claims(&blob), Some(u));
}

#[test]
fn extreme_values_round_trip() {
    let u = UserData {
        id: -2147483648,
        first_name: "a;b\nc".to_string(),
        last_name: "0123456789".to_string(),
        email: "x".repeat(100),
        created_at: i64::MIN,
    };
    let blob = encode_claims(&u);
    assert_eq!(decode_claims(&blob), Some(u));
    let v = UserData {
        id: 2147483647,
        first_name: String::new(),
        last_name: "é✓".to_string(),
        email: "a@b".to_string(),
        created_at: i64::MAX,
    };
    let blob2 = encode_claims(&v);
    assert_eq!(decode_claims(&blob2), Some(v));
}

#[test]
fn garbage_does_not_decode() {
    assert_eq!(decode_claims(""), None);
    assert_eq!(decode_claims("hello"), None);
    assert_eq!(decode_claims(&"1".repeat(89)), None);
    assert_eq!(decode_claims(&"x".repeat(200)), None);
    // right length, wrong digits
    assert_eq!(decode_claims(&"a".repeat(90)), None);
}

#[test]
fn trailing_garbage_does_not_decode() {
    let u = UserData {
        id: 7,
        first_name: "A".to_string(),
        last_name: "B".to_string(),
        email: "c@d".to_string(),
        created_at: 9,
    };
    let mut blob = encode_claims(&u);
    blob.push('!');
    assert_eq!(decode_claims(&blob), None);
}
