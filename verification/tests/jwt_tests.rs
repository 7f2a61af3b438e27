//! Tests of the token codec: issue/check round trips, tampering, and the
//! exact token text against independently computed values.
use base64::Engine;
use hmac::Mac;
use qu_chat::jwt::{generate_jwt, generate_jwt_at, token_from_barear, validate_jwt, TokenError};
use qu_chat::models::User;

#[test]
fn test_jwt_generate_validate() {
    let user = User {
        id: "123".to_string(),
        name: "john doe".to_string(),
        secret: "secret".to_string(),
    };

    let s = b"secret";
    let jwt = generate_jwt(&user.id, s).expect("Cant generate jwt");
    let body = validate_jwt(&jwt, s).expect("Cant validate jwt");
    assert_eq!(body.user_id, user.id)
}

#[test]
fn test_token_from_barear() {
    let token = "Bearer secret";

    let str = token_from_barear(token).unwrap();
    assert_eq!(str, "secret");
}

#[test]
fn issue_then_verify_keeps_subject() {
    let key = b"a-signing-key";
    for subject in ["u-1", "", "longer subject id", "\u{00e9}\u{4e16}\u{754c}"] {
        let token = generate_jwt_at(subject, 1_700_000_000_000, key);
        let body = validate_jwt(&token, key).expect("fresh token must check out");
        assert_eq!(body.user_id, subject);
        assert_eq!(body.exp, 1_700_000_000_000);
    }
}

#[test]
fn issue_then_verify_with_escapes_and_negative_expiry() {
    let key = b"k";
    let subject = "a\"b\\c\nd\te";
    let token = generate_jwt_at(subject, -42, key);
    let body = validate_jwt(&token, key).expect("escaped subject must round trip");
    assert_eq!(body.user_id, subject);
    assert_eq!(body.exp, -42);
}

#[test]
fn token_text_matches_independent_computation() {
    // Recompute the token with the base64, hmac and sha2 crates directly:
    // the codec's trusted wrappers must agree with them byte for byte.
    let key = b"secret";
    let subject = "123";
    let exp: i64 = 1_700_000_000_000;
    let engine = &base64::engine::general_purpose::URL_SAFE_NO_PAD;
    let header = engine.encode(b"{\"alg\":\"HS256\",\"typ\":\"JWT\"}");
    let body = engine.encode(format!("{{\"user_id\":\"{}\",\"exp\":{}}}", subject, exp));
    let signing_input = format!("{}.{}", header, body);
    let mut mac = <hmac::Hmac<sha2::Sha256> as hmac::Mac>::new_from_slice(key).unwrap();
    mac.update(signing_input.as_bytes());
    let sig = engine.encode(mac.finalize().into_bytes());
    let expected = format!("{}.{}", signing_input, sig);

    let token = generate_jwt_at(subject, exp, key);
    assert_eq!(token, expected);
}

#[test]
fn mutating_any_signature_byte_is_rejected() {
    let key = b"another key";
    let token = generate_jwt_at("someone", 1_000_000, key);
    let second_dot = token.rfind('.').unwrap();
    let bytes = token.as_bytes();
    for i in (second_dot + 1)..bytes.len() {
        let mut mutated = bytes.to_vec();
        // a different byte that is not the `.` separator
        let replacement = if bytes[i] == b'A' { b'B' } else { b'A' };
        mutated[i] = replacement;
        let mutated = String::from_utf8(mutated).unwrap();
        let res = validate_jwt(&mutated, key);
        assert!(
            matches!(res, Err(TokenError::InvalidSign)),
            "byte {} must break the signature",
            i
        );
    }
}

#[test]
fn extreme_expiries_round_trip() {
    let key = b"k";
    for exp in [i64::MIN, i64::MAX, 0] {
        let token = generate_jwt_at("s", exp, key);
        let body = validate_jwt(&token, key).expect("extreme expiry round trips");
        assert_eq!(body.exp, exp);
    }
}

#[test]
fn wrong_key_is_rejected() {
    let token = generate_jwt_at("someone", 1_000_000, b"key-one");
    let res = validate_jwt(&token, b"key-two");
    assert!(matches!(res, Err(TokenError::InvalidSign)));
}

#[test]
fn malformed_tokens_are_rejected() {
    let key = b"k";
    assert!(matches!(
        validate_jwt("no-dots-at-all", key),
        Err(TokenError::TokenPartMissing)
    ));
    assert!(matches!(
        validate_jwt("one.dot", key),
        Err(TokenError::TokenPartMissing)
    ));
    assert!(matches!(
        validate_jwt("a.b.c.d", key),
        Err(TokenError::TokenPartMissing)
    ));
}

#[test]
fn bad_base64_is_rejected() {
    let key = b"k";
    // raw JSON in the header segment is not base64 text
    let res = validate_jwt("{\"alg\":\"HS256\"}.e30.sig", key);
    assert!(matches!(res, Err(TokenError::Base64Encode)));
}

#[test]
fn bad_json_is_rejected() {
    let key = b"k";
    let engine = &base64::engine::general_purpose::URL_SAFE_NO_PAD;
    let h = engine.encode(b"{\"alg\":\"HS256\",\"typ\":\"JWT\"}");
    let b = engine.encode(b"this is not json");
    let token = format!("{}.{}.AAAA", h, b);
    let res = validate_jwt(&token, key);
    assert!(matches!(res, Err(TokenError::JsonEncode)));
}

#[test]
fn bearer_extraction_cases() {
    assert!(token_from_barear("Bearer").is_err());
    assert!(token_from_barear("Token abc").is_err());
    assert!(token_from_barear("bearer abc").is_err());
    assert_eq!(token_from_barear("Bearer a b").unwrap(), "a");
    assert_eq!(token_from_barear("Bearer ").unwrap(), "");
}

#[test]
fn hmac_sign_matches_independent_computation() {
    let mut mac = <hmac::Hmac<sha2::Sha256> as hmac::Mac>::new_from_slice(b"k1").unwrap();
    mac.update(b"some data");
    let expected =
        base64::engine::general_purpose::URL_SAFE_NO_PAD.encode(mac.finalize().into_bytes());
    let signed = qu_chat::jwt::hmac_256_sign(b"k1", b"some data").unwrap();
    assert_eq!(signed, expected);
}
