use big_totoro::config::Config;
use chrono::TimeZone;
use big_totoro::result::AppError;
use big_totoro::token::{expiry_timestamp, Claims, MAX_TIMESTAMP, MIN_TIMESTAMP};

fn ok(s: &str) -> Result<String, AppError> {
    Ok(s.to_string())
}

fn message(e: AppError) -> (u16, String) {
    let (s, _, m) = e.response_parts();
    (s, m)
}

#[test]
fn config_from_good_settings() {
    let c = Config::from_sources(ok("10.0.0.5"), ok("9001"), ok("s3cret"), ok("7"), ok("web,ios"), ok("http://a:2379,http://b:2379")).unwrap();
    assert_eq!(c.local_ip, "10.0.0.5");
    assert_eq!(c.local_ws_server_port, 9001);
    assert_eq!(c.token_secret, "s3cret");
    assert_eq!(c.token_exp, 7);
    assert_eq!(c.allow_platform, vec!["web", "ios"]);
    assert_eq!(c.etcd_uri, vec!["http://a:2379", "http://b:2379"]);
}

#[test]
fn config_first_error_wins() {
    let e = Config::from_sources(Err(AppError::Anyhow("no ip".into())), ok("x"), ok("s"), ok("1"), ok("a"), ok("b")).unwrap_err();
    assert_eq!(message(e), (500, "no ip".to_string()));
    let e = Config::from_sources(ok("ip"), ok("80a"), Err(AppError::Anyhow("no secret".into())), ok("1"), ok("a"), ok("b")).unwrap_err();
    assert_eq!(message(e), (500, "invalid digit found in string".to_string()));
    let e = Config::from_sources(ok("ip"), ok("80"), ok("s"), ok(""), ok("a"), Err(AppError::Anyhow("no etcd".into()))).unwrap_err();
    assert_eq!(message(e), (500, "cannot parse integer from empty string".to_string()));
    let e = Config::from_sources(ok("ip"), ok("80"), ok("s"), ok("1"), ok("a"), Err(AppError::Anyhow("no etcd".into()))).unwrap_err();
    assert_eq!(message(e), (500, "no etcd".to_string()));
    let e = Config::from_sources(ok("ip"), ok("99999999999999999999"), ok("s"), ok("1"), ok("a"), ok("b")).unwrap_err();
    assert_eq!(message(e), (500, "number too large to fit in target type".to_string()));
}

#[test]
fn config_allows_platform() {
    let c = Config::from_sources(ok("ip"), ok("1"), ok("s"), ok("1"), ok("web,ios"), ok("e")).unwrap();
    assert!(c.allows_platform(&"web".to_string()));
    assert!(c.allows_platform(&"ios".to_string()));
    assert!(!c.allows_platform(&"android".to_string()));
    assert!(!c.allows_platform(&"".to_string()));
}

#[test]
fn expiry_adds_days() {
    assert_eq!(expiry_timestamp(1_700_000_000, 7), Some(1_700_000_000 + 7 * 86400));
    assert_eq!(expiry_timestamp(0, -1), Some(-86400));
    assert_eq!(expiry_timestamp(MAX_TIMESTAMP, 0), Some(MAX_TIMESTAMP));
    assert_eq!(expiry_timestamp(MAX_TIMESTAMP, 1), None);
    assert_eq!(expiry_timestamp(MIN_TIMESTAMP, -1), None);
    assert_eq!(expiry_timestamp(0, i64::MAX), None);
}

#[test]
fn expiry_matches_chrono() {
    let now = chrono::Utc.timestamp_opt(1_700_000_123, 0).unwrap();
    let later = now + chrono::Duration::days(30);
    assert_eq!(expiry_timestamp(now.timestamp(), 30), Some(later.timestamp()));
    let max = chrono::DateTime::<chrono::Utc>::MAX_UTC.timestamp();
    let min = chrono::DateTime::<chrono::Utc>::MIN_UTC.timestamp();
    assert_eq!(max, MAX_TIMESTAMP);
    assert_eq!(min, MIN_TIMESTAMP);
}

#[test]
fn claims_json_text() {
    let c = Claims { id: "u1".to_string(), exp: 1700000000 };
    assert_eq!(c.to_json(), "{\"id\":\"u1\",\"exp\":1700000000}");
    let c = Claims { id: "a\"b".to_string(), exp: -5 };
    assert_eq!(c.to_json(), "{\"id\":\"a\\\"b\",\"exp\":-5}");
}

fn decode(token: &str, secret: &str) -> serde_json::Value {
    let mut validation = jsonwebtoken::Validation::new(jsonwebtoken::Algorithm::HS256);
    validation.validate_exp = false;
    jsonwebtoken::decode::<serde_json::Value>(token, &jsonwebtoken::DecodingKey::from_secret(secret.as_bytes()), &validation)
        .unwrap()
        .claims
}

#[test]
fn issue_at_makes_signed_token() {
    let token = Claims::issue_at("user-1", "secret", 2, 1_000_000).unwrap();
    let parts: Vec<&str> = token.split('.').collect();
    assert_eq!(parts.len(), 3);
    assert_eq!(parts[0], "eyJ0eXAiOiJKV1QiLCJhbGciOiJIUzI1NiJ9");
    let claims = decode(&token, "secret");
    assert_eq!(claims["id"], "user-1");
    assert_eq!(claims["exp"], 1_000_000 + 2 * 86400);
    let again = Claims::issue_at("user-1", "secret", 2, 1_000_000).unwrap();
    assert_eq!(token, again);
    let other_key = Claims::issue_at("user-1", "other", 2, 1_000_000).unwrap();
    assert_ne!(token, other_key);
}

#[test]
fn issue_at_refuses_expiry_beyond_range() {
    let e = Claims::issue_at("u", "s", 1, MAX_TIMESTAMP).unwrap_err();
    let (s, _, m) = e.response_parts();
    assert_eq!((s, m.as_str()), (500, "创建令牌失败"));
}

#[test]
fn new_token_expires_days_from_now() {
    let before = chrono::Utc::now().timestamp();
    let token = Claims::new("42", "k", 3).unwrap();
    let after = chrono::Utc::now().timestamp();
    let claims = decode(&token, "k");
    assert_eq!(claims["id"], "42");
    let exp = claims["exp"].as_i64().unwrap();
    assert!(exp >= before + 3 * 86400 && exp <= after + 3 * 86400);
}
