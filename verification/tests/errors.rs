use big_totoro::result::{AppError, STATUS_BAD_REQUEST, STATUS_INTERNAL_SERVER_ERROR};

#[test]
fn response_parts_per_variant() {
    let (s, c, m) = AppError::Anyhow("boom".to_string()).response_parts();
    assert_eq!((s, c, m.as_str()), (500, 0, "boom"));
    let (s, c, m) = AppError::BadRequest("bad".to_string()).response_parts();
    assert_eq!((s, c, m.as_str()), (400, 0, "bad"));
    let (s, c, m) = AppError::ServerError("srv".to_string()).response_parts();
    assert_eq!((s, c, m.as_str()), (500, 0, "srv"));
    let (s, c, m) = AppError::CodeMessage(1001, "code".to_string()).response_parts();
    assert_eq!((s, c, m.as_str()), (400, 1001, "code"));
    assert_eq!(STATUS_BAD_REQUEST, 400);
    assert_eq!(STATUS_INTERNAL_SERVER_ERROR, 500);
}

#[test]
fn status_per_variant() {
    assert_eq!(AppError::Anyhow(String::new()).status(), 500);
    assert_eq!(AppError::ServerError(String::new()).status(), 500);
    assert_eq!(AppError::BadRequest(String::new()).status(), 400);
    assert_eq!(AppError::CodeMessage(-3, String::new()).status(), 400);
}

#[test]
fn response_body_is_json() {
    assert_eq!(
        AppError::BadRequest("无效的令牌".to_string()).response_body(),
        "{\"custom_code\":0,\"message\":\"无效的令牌\"}"
    );
    assert_eq!(
        AppError::CodeMessage(-7, "say \"hi\"\n".to_string()).response_body(),
        "{\"custom_code\":-7,\"message\":\"say \\\"hi\\\"\\n\"}"
    );
}

#[test]
fn response_body_matches_serde_json_object() {
    let e = AppError::CodeMessage(42, "tab\there \\ \u{1}".to_string());
    let mut map = serde_json::Map::new();
    map.insert("custom_code".to_string(), serde_json::Value::from(42));
    map.insert("message".to_string(), serde_json::Value::from("tab\there \\ \u{1}"));
    let expected = serde_json::to_string(&serde_json::Value::Object(map)).unwrap();
    assert_eq!(e.response_body(), expected);
}

#[test]
fn named_errors() {
    let (s, _, m) = AppError::token_creation_failed().response_parts();
    assert_eq!((s, m.as_str()), (500, "创建令牌失败"));
    let (s, _, m) = AppError::invalid_token().response_parts();
    assert_eq!((s, m.as_str()), (400, "无效的令牌"));
    let (s, _, m) = AppError::missing_bearer().response_parts();
    assert_eq!((s, m.as_str()), (400, "缺失的令牌"));
    let (s, _, m) = AppError::missing_platform().response_parts();
    assert_eq!((s, m.as_str()), (400, "缺少platform"));
    let (s, _, m) = AppError::missing_token().response_parts();
    assert_eq!((s, m.as_str()), (400, "缺少token"));
    let (s, _, m) = AppError::unsupported_platform().response_parts();
    assert_eq!((s, m.as_str()), (400, "此平台未开发"));
}

#[test]
fn response_body_escapes_controls_in_hex() {
    assert_eq!(
        AppError::BadRequest("\u{1f}\u{8}\u{c}\r\\/".to_string()).response_body(),
        "{\"custom_code\":0,\"message\":\"\\u001f\\b\\f\\r\\\\/\"}"
    );
}
