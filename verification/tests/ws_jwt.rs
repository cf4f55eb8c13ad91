use ws::error::ModelError;
use ws::session::session_jwt::{claims_to_data, JwtAdapter, SessionJWTData, SessionJWTService};
use ws::session::session_service::Session;

/// A fixed clock for the tests, in seconds since the epoch.
const NOW: u64 = 1_700_000_000;

fn create_test_jwt_adapter() -> JwtAdapter {
    JwtAdapter::new("test_secret_key_123", 3600)
}

fn create_custom_claims(sub: &str, exp: u64) -> SessionJWTData {
    SessionJWTData { aud: "app".to_string(), sub: sub.to_string(), exp, iat: 1 }
}

fn create_test_claims() -> SessionJWTData {
    create_custom_claims("test_user", 9999999999)
}

fn same(a: &SessionJWTData, b: &SessionJWTData) -> bool {
    a.aud == b.aud && a.sub == b.sub && a.exp == b.exp && a.iat == b.iat
}

fn assert_decode_fails_with_unauthorized(adapter: &JwtAdapter, token: &str, expected_msg: Option<&str>) {
    match adapter.decode_token(token, NOW) {
        Err(ModelError::Unauthorized(msg)) => {
            if let Some(expected) = expected_msg {
                assert_eq!(msg, expected);
            }
        }
        _ => panic!("Expected Unauthorized error"),
    }
}

fn assert_round_trip_success(adapter: &JwtAdapter, claims: &SessionJWTData) {
    let token = adapter.generate_token(claims).unwrap();
    let decoded = adapter.decode_token(&token, NOW).unwrap();
    assert!(same(&decoded, claims));
}

#[test]
fn test_new_creates_jwt_adapter_with_correct_config() {
    let adapter = JwtAdapter::new("my_secret_key", 7200);
    assert_eq!(adapter.exp_secs, 7200);
}

#[test]
fn test_new_with_different_secrets_creates_different_adapters() {
    let adapter1 = JwtAdapter::new("secret1", 3600);
    let adapter2 = JwtAdapter::new("secret2", 3600);
    let claims = create_test_claims();
    let token1 = adapter1.generate_token(&claims).unwrap();
    let token2 = adapter2.generate_token(&claims).unwrap();
    assert_ne!(token1, token2);
}

#[test]
fn test_generate_token_success() {
    let adapter = create_test_jwt_adapter();
    let result = adapter.generate_token(&create_test_claims());
    assert!(result.is_ok());
    let token = result.unwrap();
    assert!(!token.is_empty());
    assert_eq!(token.matches('.').count(), 2);
}

#[test]
fn test_generate_token_with_different_data_produces_different_tokens() {
    let adapter = create_test_jwt_adapter();
    let token1 = adapter.generate_token(&create_custom_claims("user1", 9999999999)).unwrap();
    let token2 = adapter.generate_token(&create_custom_claims("user2", 9999999999)).unwrap();
    assert_ne!(token1, token2);
}

#[test]
fn test_generate_token_with_minimal_serializable_struct() {
    let adapter = create_test_jwt_adapter();
    let claims = SessionJWTData { aud: String::new(), sub: "test".to_string(), exp: 0, iat: 0 };
    assert!(adapter.generate_token(&claims).is_ok());
}

#[test]
fn test_decode_token_success() {
    assert_round_trip_success(&create_test_jwt_adapter(), &create_test_claims());
}

#[test]
fn test_decode_token_round_trip_preserves_data() {
    let claims = create_custom_claims("complex data with spaces and symbols !@#$%", 9999999999);
    assert_round_trip_success(&create_test_jwt_adapter(), &claims);
}

#[test]
fn test_decode_token_with_invalid_token_returns_unauthorized() {
    assert_decode_fails_with_unauthorized(&create_test_jwt_adapter(), "invalid.jwt.token", Some("Invalid or expired token"));
}

#[test]
fn test_decode_token_with_empty_token_returns_unauthorized() {
    assert_decode_fails_with_unauthorized(&create_test_jwt_adapter(), "", None);
}

#[test]
fn test_decode_token_with_malformed_token_returns_unauthorized() {
    let adapter = create_test_jwt_adapter();
    for token in ["not.a.jwt", "header.payload", "too.many.parts.here.invalid", "header.payload.signature.extra"] {
        assert_decode_fails_with_unauthorized(&adapter, token, None);
    }
}

#[test]
fn test_decode_token_with_wrong_secret_returns_unauthorized() {
    let adapter1 = JwtAdapter::new("secret1", 3600);
    let adapter2 = JwtAdapter::new("secret2", 3600);
    let token = adapter1.generate_token(&create_test_claims()).unwrap();
    assert_decode_fails_with_unauthorized(&adapter2, &token, None);
}

#[test]
fn test_decode_token_maps_all_jwt_errors_to_unauthorized() {
    let adapter = create_test_jwt_adapter();
    for token in [
        "eyJ0eXAiOiJKV1QiLCJhbGciOiJIUzI1NiJ9.invalid_payload.signature",
        "invalid_header.eyJzdWIiOiJ0ZXN0In0.signature",
    ] {
        assert_decode_fails_with_unauthorized(&adapter, token, Some("Invalid or expired token"));
    }
}

#[test]
fn test_jwt_adapter_consistent_behavior_across_instances() {
    let adapter1 = JwtAdapter::new("consistent_secret", 1800);
    let adapter2 = JwtAdapter::new("consistent_secret", 1800);
    let claims = create_test_claims();
    let token = adapter1.generate_token(&claims).unwrap();
    let decoded = adapter2.decode_token(&token, NOW).unwrap();
    assert!(same(&decoded, &claims));
}

#[test]
fn token_generation_is_deterministic() {
    let adapter = create_test_jwt_adapter();
    let claims = create_test_claims();
    assert_eq!(adapter.generate_token(&claims).unwrap(), adapter.generate_token(&claims).unwrap());
}

#[test]
fn expired_or_foreign_tokens_are_refused() {
    let adapter = create_test_jwt_adapter();
    let expired = adapter.generate_token(&create_custom_claims("u", 1)).unwrap();
    assert_decode_fails_with_unauthorized(&adapter, &expired, Some("Invalid or expired token"));
    let mut foreign = create_test_claims();
    foreign.aud = "other".to_string();
    let token = adapter.generate_token(&foreign).unwrap();
    assert_decode_fails_with_unauthorized(&adapter, &token, Some("Invalid or expired token"));
}

#[test]
fn session_tokens_read_back_as_session_data() {
    let service = SessionJWTService::new(create_test_jwt_adapter());
    let session = Session { id: 1, address: "a@b.c".to_string(), sent_at: 100, expires_at: 9999999999 };
    let (data, token) = service.generate_token(session, 100).unwrap();
    assert_eq!(data.address, "a@b.c");
    let read = service.get_session_data(&token, NOW).unwrap();
    assert_eq!(read.address, "a@b.c");
    assert_eq!(read.sent_at, 100);
    assert_eq!(read.expires_at, 9999999999);
    assert!(service.get_optional_session_data("", NOW).unwrap().is_none());
    assert!(service.get_optional_session_data(&token, NOW).unwrap().is_some());
    assert!(service.get_optional_session_data("x.y.z", NOW).unwrap().is_none());
    let other = SessionJWTService::new(JwtAdapter::new("another secret", 3600));
    assert!(other.get_optional_session_data(&token, NOW).unwrap().is_none());
    assert!(matches!(other.get_session_data(&token, NOW), Err(ModelError::Unauthorized(_))));
}

#[test]
fn claims_need_all_four_fields() {
    assert!(claims_to_data((Some("app".to_string()), Some("s".to_string()), Some(NOW), Some(2)), NOW).is_ok());
    assert!(matches!(claims_to_data((Some("app".to_string()), None, Some(NOW), Some(2)), NOW), Err(ModelError::Unauthorized(_))));
}

#[test]
fn expiry_allows_the_leeway() {
    let at = |exp: u64| claims_to_data((Some("app".to_string()), Some("s".to_string()), Some(exp), Some(0)), NOW);
    assert!(at(NOW - 60).is_ok());
    assert!(matches!(at(NOW - 61), Err(ModelError::Unauthorized(_))));
    assert!(claims_to_data((Some("app".to_string()), Some("s".to_string()), Some(0), Some(0)), 60).is_ok());
    let adapter = create_test_jwt_adapter();
    let token = adapter.generate_token(&create_custom_claims("u", NOW - 61)).unwrap();
    assert!(adapter.decode_token(&token, NOW).is_err());
    assert!(adapter.decode_token(&token, NOW - 1).is_ok());
}

#[test]
fn test_decode_token_with_different_algorithm_validation_fails() {
    let adapter = create_test_jwt_adapter();
    let mut claims = serde_json::Map::new();
    claims.insert("aud".to_string(), serde_json::Value::from("app"));
    claims.insert("sub".to_string(), serde_json::Value::from("test_user"));
    claims.insert("exp".to_string(), serde_json::Value::from(9999999999u64));
    claims.insert("iat".to_string(), serde_json::Value::from(1u64));
    let key = jsonwebtoken::EncodingKey::from_secret(b"test_secret_key_123");
    let token = jsonwebtoken::encode(&jsonwebtoken::Header::new(jsonwebtoken::Algorithm::HS512), &claims, &key).unwrap();
    assert_decode_fails_with_unauthorized(&adapter, &token, None);
}

#[test]
fn token_claims_keep_their_order() {
    let adapter = create_test_jwt_adapter();
    let token = adapter.generate_token(&create_test_claims()).unwrap();
    let mut validation = jsonwebtoken::Validation::new(jsonwebtoken::Algorithm::HS256);
    validation.set_audience(&["app"]);
    let key = jsonwebtoken::DecodingKey::from_secret(b"test_secret_key_123");
    let claims = jsonwebtoken::decode::<serde_json::Value>(&token, &key, &validation).unwrap().claims;
    let keys: Vec<&String> = claims.as_object().unwrap().keys().collect();
    assert_eq!(keys, vec!["aud", "sub", "exp", "iat"]);
}
