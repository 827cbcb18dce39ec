use galaxy_proxy::auth::{
    api_key_verdict, authenticate_admin, decode_jwt, decode_jwt_at, presented_api_key, require_api_key,
    JwtService, KeyLookup, TokenError, UTC_MAX_SECONDS, UTC_MIN_SECONDS,
};

#[test]
fn test_generate_and_verify() {
    let service = JwtService::new("test_secret", 24);
    let token = service.generate_token("1", "admin").unwrap();
    let claims = service.verify_token(&token).unwrap();

    assert_eq!(claims.sub, "1");
    assert_eq!(claims.username, "admin");
}

#[test]
fn test_invalid_token() {
    let service = JwtService::new("test_secret", 24);
    let result = service.verify_token("invalid_token");
    assert!(result.is_err());
}

#[test]
fn test_wrong_secret() {
    let service1 = JwtService::new("secret1", 24);
    let service2 = JwtService::new("secret2", 24);

    let token = service1.generate_token("1", "admin").unwrap();
    let result = service2.verify_token(&token);
    assert!(result.is_err());
}

#[test]
fn token_expires_the_configured_hours_after_issue() {
    let service = JwtService::new("k", 2);
    let token = service.generate_token("7", "root").unwrap();
    let claims = service.verify_token(&token).unwrap();
    assert_eq!(claims.exp - claims.iat, 2 * 3600);
    assert_ne!(token, "7");
}

#[test]
fn admin_auth_requires_a_bearer_token() {
    let r = authenticate_admin(None, Some("s"));
    let e = r.err().unwrap();
    assert_eq!(e.status, 401);
    assert_eq!(e.message, "缺少认证令牌");
}

#[test]
fn admin_auth_requires_a_configured_secret() {
    let e = authenticate_admin(Some("t"), None).err().unwrap();
    assert_eq!(e.status, 500);
    assert_eq!(e.message, "JWT 配置缺失");
}

#[test]
fn admin_auth_rejects_a_bad_token() {
    let e = authenticate_admin(Some("not.a.token"), Some("s")).err().unwrap();
    assert_eq!(e.status, 401);
    assert_eq!(e.message, "无效的认证令牌");
}

#[test]
fn admin_auth_accepts_an_issued_token() {
    let service = JwtService::new("s3cret", 24);
    let token = service.generate_token("42", "alice").unwrap();
    let claims = authenticate_admin(Some(&token), Some("s3cret")).ok().unwrap();
    assert_eq!(claims.0.sub, "42");
    assert_eq!(claims.0.username, "alice");
}

#[test]
fn presented_key_prefers_the_bearer_token() {
    assert_eq!(presented_api_key(Some("a".to_string()), Some("b".to_string())), "a");
    assert_eq!(presented_api_key(None, Some("b".to_string())), "b");
    assert_eq!(presented_api_key(None, None), "");
}

#[test]
fn missing_api_key_is_refused() {
    let e = require_api_key("").unwrap();
    assert_eq!(e.status, 401);
    assert_eq!(e.message, "缺少 API Key");
    assert_eq!(e.error_type, "authentication_error");
    assert!(require_api_key("gp-1").is_none());
}

#[test]
fn api_key_verdicts() {
    let ok = api_key_verdict(KeyLookup::Found("id1".to_string(), "n1".to_string(), true)).ok().unwrap();
    assert_eq!(ok.key_id, "id1");
    assert_eq!(ok.key_name, "n1");
    let off = api_key_verdict(KeyLookup::Found("id1".to_string(), "n1".to_string(), false)).err().unwrap();
    assert_eq!(off.status, 403);
    assert_eq!(off.message, "API Key 已禁用");
    let unknown = api_key_verdict(KeyLookup::Unknown).err().unwrap();
    assert_eq!(unknown.status, 401);
    assert_eq!(unknown.message, "无效的 API Key");
    let missing = api_key_verdict(KeyLookup::StoreMissing).err().unwrap();
    assert_eq!(missing.status, 500);
    assert_eq!(missing.message, "数据库配置缺失");
    assert_eq!(missing.error_type, "server_error");
    let failed = api_key_verdict(KeyLookup::StoreFailed).err().unwrap();
    assert_eq!(failed.status, 500);
    assert_eq!(failed.message, "数据库查询失败");
}

#[test]
fn token_issued_at_a_time_carries_that_time() {
    let service = JwtService::new("k", 24);
    let token = service.generate_token_at("9", "bob", 1_700_000_000).unwrap();
    let again = service.generate_token_at("9", "bob", 1_700_000_000).unwrap();
    assert_eq!(token, again);
    let claims = decode_jwt_at(&token, "k", 1_700_000_000).unwrap();
    assert_eq!(claims.sub, "9");
    assert_eq!(claims.username, "bob");
    assert_eq!(claims.iat, 1_700_000_000);
    assert_eq!(claims.exp, 1_700_000_000 + 24 * 3600);
}

#[test]
fn expiry_allows_sixty_seconds_of_leeway() {
    let service = JwtService::new("k", 1);
    let token = service.generate_token_at("1", "admin", 1_000_000).unwrap();
    let exp: u64 = 1_000_000 + 3600;
    assert!(decode_jwt_at(&token, "k", exp).is_ok());
    assert!(decode_jwt_at(&token, "k", exp + 60).is_ok());
    assert_eq!(decode_jwt_at(&token, "k", exp + 61).err(), Some(TokenError::Rejected));
    assert!(decode_jwt(&token, "k").is_err());
}

#[test]
fn token_checked_under_another_secret_is_rejected_at_any_time() {
    let service = JwtService::new("one", 1);
    let token = service.generate_token_at("1", "admin", 1_000_000).unwrap();
    assert_eq!(decode_jwt_at(&token, "two", 1_000_000).err(), Some(TokenError::Rejected));
    assert_eq!(decode_jwt_at("garbage", "one", 0).err(), Some(TokenError::Rejected));
}

#[test]
fn expiry_beyond_the_calendar_is_refused() {
    let service = JwtService::new("k", 24);
    assert_eq!(service.generate_token_at("1", "admin", i64::MAX - 10).err(), Some(TokenError::ExpiryOutOfRange));
}

#[test]
fn issuing_follows_the_calendar_range() {
    let day = JwtService::new("k", 24);
    assert!(day.generate_token_at("1", "a", UTC_MAX_SECONDS - 24 * 3600).is_ok());
    assert_eq!(day.generate_token_at("1", "a", UTC_MAX_SECONDS - 24 * 3600 + 1).err(), Some(TokenError::ExpiryOutOfRange));
    let none = JwtService::new("k", 0);
    assert!(none.generate_token_at("1", "a", UTC_MIN_SECONDS).is_ok());
    assert_eq!(none.generate_token_at("1", "a", UTC_MIN_SECONDS - 1).err(), Some(TokenError::ExpiryOutOfRange));
}

#[test]
fn malformed_tokens_are_rejected() {
    let service = JwtService::new("k", 1);
    let token = service.generate_token_at("1", "admin", 1_000_000).unwrap();
    assert_eq!(token.matches('.').count(), 2);
    let extra = format!("{}.x", token);
    assert_eq!(decode_jwt_at(&extra, "k", 1_000_000).err(), Some(TokenError::Rejected));
    assert_eq!(decode_jwt_at("a.b", "k", 0).err(), Some(TokenError::Rejected));
}
