use axum::http::StatusCode;
use ws::api::deserialize::{extract_token_from_cookies, extract_token_from_header, split_cookies, AuthToken};
use ws::api::validation::{validation_error_message, ValidatedForm, ValidatedJson};
use ws::common::crud::{QueryFilter, QueryLister, QueryPager};
use ws::common::item_fields::{FieldError, ValidationErrors};
use ws::common::workshop_store::{
    LayoutStore, LineStore, NewWorkshopItemDb, PatchWorkshopItemDb, RuleStore, ShapeStore, WorkshopItemType,
    WorkshopStore,
};
use ws::config::{Config, ConfigEnv, ConfigFile, DEFAULT_HOST, DEFAULT_LOG_LEVEL, DEFAULT_PORT};
use ws::db::sql::{push_decimal, push_signed_decimal, SqlValue};
use ws::error::{DbError, ModelError};
use ws::session::session_jwt::{invalid_token_error, token_generation_error, SessionJWTData};
use ws::session::session_service::{session_cookie, signin_session, InitSession, Session, SessionData};
use ws::session::session_store::{init_session_query, SessionDb};
use ws::strings::{contains_str, parse_bounded, trim};
use ws::workshop::generic_service::{validate_new_workshop_item, validate_patch_workshop_item};
use ws::workshop::SearchParams;

#[derive(Debug, Clone)]
struct SimpleTestStruct {
    name: String,
}

#[test]
fn validated_form_wrapper_basic() {
    let valid_data = SimpleTestStruct { name: "valid".to_string() };
    let validated_form = ValidatedForm(valid_data.clone());
    assert_eq!(validated_form.0.name, "valid");
}

#[test]
fn validated_json_wrapper_basic() {
    let valid_data = SimpleTestStruct { name: "valid".to_string() };
    let validated_json = ValidatedJson(valid_data.clone());
    assert_eq!(validated_json.0.name, "valid");
}

#[test]
fn validation_message_is_one_line() {
    let errs = ValidationErrors {
        errors: vec![FieldError { field: "name", code: "length" }, FieldError { field: "icon", code: "length" }],
    };
    assert_eq!(
        validation_error_message(&errs),
        "Input validation error: [name: Validation error: length, icon: Validation error: length]"
    );
}

fn empty_env() -> ConfigEnv {
    ConfigEnv { host: None, port: None, log_level: None, database_url: None, database_pool: None }
}

#[test]
fn test_default_config() {
    let config = Config::new(None, empty_env());
    assert_eq!(config.host, DEFAULT_HOST);
    assert_eq!(config.port, DEFAULT_PORT);
    assert_eq!(config.log_level, DEFAULT_LOG_LEVEL);
}

fn file_from_toml(text: &str) -> ConfigFile {
    let t: toml::Table = text.parse().unwrap();
    ConfigFile {
        host: t.get("host").and_then(|v| v.as_str()).map(String::from),
        port: t.get("port").and_then(|v| v.as_integer()).map(|p| p as u16),
        log_level: t.get("log_level").and_then(|v| v.as_str()).map(String::from),
        database_url: t.get("database_url").and_then(|v| v.as_str()).map(String::from),
        database_pool: t.get("database_pool").and_then(|v| v.as_integer()).map(|p| p as u8),
    }
}

#[test]
fn test_config_from_file() {
    let temp_config = r#"
            host = "host.example.com"
            port = 8080
            log_level = "debug"
        "#;
    let config = Config::new(Some(file_from_toml(temp_config)), empty_env());
    assert_eq!(config.host, "host.example.com");
    assert_eq!(config.port, 8080);
    assert_eq!(config.log_level, "debug");

    let temp_config = r#"
            host = "host.example.com"
        "#;
    let config = Config::new(Some(file_from_toml(temp_config)), empty_env());
    assert_eq!(config.host, "host.example.com");
    assert_eq!(config.port, DEFAULT_PORT);
    assert_eq!(config.log_level, DEFAULT_LOG_LEVEL);
}

#[test]
fn test_config_from_env() {
    let env = ConfigEnv {
        host: Some("env.example.com".to_string()),
        port: Some("9090".to_string()),
        log_level: Some("warn".to_string()),
        database_url: None,
        database_pool: None,
    };
    let config = Config::new(None, env);
    assert_eq!(config.host, "env.example.com");
    assert_eq!(config.port, 9090);
    assert_eq!(config.log_level, "warn");
}

#[test]
fn environment_overrides_file() {
    let file = ConfigFile { host: Some("f".into()), port: Some(1), log_level: None, database_url: Some("db".into()), database_pool: Some(9) };
    let env = ConfigEnv { host: Some("e".into()), port: Some("x".into()), log_level: None, database_url: None, database_pool: Some("300".into()) };
    let config = Config::new(Some(file), env);
    assert_eq!(config.host, "e");
    assert_eq!(config.port, 7878);
    assert_eq!(config.database_url, "db");
    assert_eq!(config.database_pool, 5);
}

fn model_error_to_status_probe(error: ModelError, expected_status: StatusCode, expected_message: &str) {
    let (status, message) = error.into_status();
    assert_eq!(status, expected_status.as_u16());
    assert_eq!(message, expected_message);
}

#[test]
fn model_error_bad_request_conversion() {
    model_error_to_status_probe(ModelError::BadRequest("Invalid input".to_string()), StatusCode::BAD_REQUEST, "Invalid input");
}

#[test]
fn model_error_bad_response_conversion() {
    model_error_to_status_probe(ModelError::BadResponse("Upstream error".to_string()), StatusCode::BAD_GATEWAY, "Upstream error");
}

#[test]
fn model_error_unauthorized_conversion() {
    model_error_to_status_probe(ModelError::Unauthorized("Access denied".to_string()), StatusCode::UNAUTHORIZED, "Access denied");
}

#[test]
fn model_error_not_found_conversion() {
    model_error_to_status_probe(ModelError::NotFound("Resource not found".to_string()), StatusCode::NOT_FOUND, "Resource not found");
}

#[test]
fn model_error_logic_error_conversion() {
    model_error_to_status_probe(ModelError::LogicError("Business logic error".to_string()), StatusCode::INTERNAL_SERVER_ERROR, "Business logic error");
}

#[test]
fn model_error_unexpected_conversion() {
    model_error_to_status_probe(ModelError::Unexpected("Something went wrong".to_string()), StatusCode::INTERNAL_SERVER_ERROR, "Something went wrong");
}

#[test]
fn model_error_timeout_conversion() {
    model_error_to_status_probe(ModelError::Timeout("Request timed out".to_string()), StatusCode::GATEWAY_TIMEOUT, "Request timed out");
}

#[test]
fn model_error_unavailable_conversion() {
    model_error_to_status_probe(ModelError::Unavailable("Service unavailable".to_string()), StatusCode::SERVICE_UNAVAILABLE, "Service unavailable");
}

#[test]
fn model_error_forbidden_conversion() {
    model_error_to_status_probe(ModelError::Forbidden("Permission denied".to_string()), StatusCode::FORBIDDEN, "Permission denied");
}

#[test]
fn model_error_text_and_storage_failures() {
    assert_eq!(ModelError::NotFound("x".into()).to_string(), "Not Found: x");
    assert_eq!(ModelError::Unavailable("y".into()).to_string(), "Service Unavailable: y");
    match ModelError::from_db(DbError::RowNotFound) {
        ModelError::NotFound(m) => assert_eq!(m, "Row not found"),
        _ => panic!("expected not found"),
    }
    match ModelError::from_db(DbError::InvalidArgument("bad".into())) {
        ModelError::BadRequest(m) => assert_eq!(m, "bad"),
        _ => panic!("expected bad request"),
    }
    match ModelError::from_db(DbError::PoolTimedOut) {
        ModelError::Timeout(m) => assert_eq!(m, "Connection pool timed out"),
        _ => panic!("expected timeout"),
    }
    assert_eq!(ModelError::from_db(DbError::Io("io".into())).status_code(), 503);
    assert_eq!(ModelError::from_db(DbError::Other("o".into())).status_code(), 500);
}

#[test]
fn tokens_from_cookies_and_headers() {
    let cookies = split_cookies(" a=1 ;Authorization=Bearer tok; b=2");
    assert_eq!(cookies, vec!["a=1", "Authorization=Bearer tok", "b=2"]);
    assert_eq!(extract_token_from_cookies(&cookies), Some("tok".to_string()));
    assert_eq!(split_cookies("x;"), vec!["x", ""]);
    assert_eq!(extract_token_from_header("Bearer abc"), Some("abc".to_string()));
    assert_eq!(extract_token_from_header("Bearer aBearer bc"), Some("abc".to_string()));
    assert_eq!(extract_token_from_header("Basic abc"), None);
    assert_eq!(AuthToken::from_headers(Some("Authorization=Bearer c1"), Some("Bearer h1")).0, "c1");
    assert_eq!(AuthToken::from_headers(Some("other=1"), Some("Bearer h1")).0, "h1");
    assert_eq!(AuthToken::from_headers(None, None).0, "");
    assert_eq!(AuthToken::from_headers(None, Some("Bearer tok.en")).0, "tok.en");
    assert_eq!(AuthToken::from_headers(Some("Authorization=Basic c1"), Some("Token h1")).0, "");
}

#[test]
fn session_cookie_reads_back() {
    let data = SessionData { address: "a@b".into(), sent_at: 100, expires_at: 3700 };
    let cookie = session_cookie("tok.en", &data);
    assert_eq!(cookie, "Authorization=Bearer tok.en; HttpOnly; SameSite=Strict; Path=/; Max-Age=3600");
    let first = cookie.split(';').next().unwrap();
    assert_eq!(AuthToken::from_headers(Some(first), None).0, "tok.en");
}

#[test]
fn signin_stores_code_and_times() {
    let item = InitSession { address: "a@b".to_string() };
    assert!(item.validate().is_ok());
    assert!(InitSession { address: String::new() }.validate().is_err());
    let s = signin_session(&item, 1000, 60);
    assert_eq!(s.message, "Code to initialize session for a@b is some_code");
    assert_eq!((s.init.address, s.init.code, s.init.sent_at, s.init.expires_at), ("a@b", "some_code", 1000, 1060));
    let stored = Session::from(SessionDb { id: 1, address: "a@b".into(), sent_at: s.init.sent_at, expires_at: s.init.expires_at });
    let cookie = session_cookie("t", &SessionData::from_session(stored));
    assert!(cookie.ends_with("Max-Age=60"));
    let q = init_session_query(&s.init);
    assert_eq!(q.binds, vec![SqlValue::Text("a@b".into()), SqlValue::Text("some_code".into()), SqlValue::Int(1000), SqlValue::Int(1060)]);
}

#[test]
fn session_conversions() {
    let row = SessionDb { id: 1, address: "a".into(), sent_at: -5, expires_at: 10 };
    let s = Session::from(row);
    assert_eq!((s.sent_at, s.expires_at), (0, 10));
    let jwt = SessionJWTData::new(&s, 77);
    assert_eq!((jwt.aud.as_str(), jwt.sub.as_str(), jwt.exp, jwt.iat), ("app", "a", 10, 77));
    let d = SessionData::from_jwt_data(jwt);
    assert_eq!((d.address.as_str(), d.sent_at, d.expires_at), ("a", 77, 10));
    match invalid_token_error() {
        ModelError::Unauthorized(m) => assert_eq!(m, "Invalid or expired token"),
        _ => panic!("expected unauthorized"),
    }
    match token_generation_error("bad key") {
        ModelError::Unexpected(m) => assert_eq!(m, "Failed to generate JWT token: bad key"),
        _ => panic!("expected unexpected"),
    }
}

#[test]
fn workshop_item_types() {
    assert_eq!(WorkshopItemType::Shape.table_name(), "shape");
    assert_eq!(WorkshopItemType::Layout.id_column_name(), "layout_id");
    assert_eq!(ShapeStore::new().inner.table_name(), "shape");
    assert_eq!(LineStore::new().inner.id_column_name(), "line_id");
    assert_eq!(RuleStore::new().inner.table_name(), "rule");
    assert_eq!(LayoutStore::new().inner.table_name(), "layout");
}

#[test]
fn workshop_statements() {
    let store = WorkshopStore::new(WorkshopItemType::Line);
    let ids = vec![1i64, 2];
    let lister: QueryLister = QueryLister {
        filter: Some(QueryFilter { access: None, filter: None, ids: Some(&ids), search: Some("s") }),
        pager: QueryPager { limit: 50, offset: None },
    };
    let q = store.get_items_query(&lister);
    assert_eq!(q.sql, "SELECT l.id, l.name, l.slug, l.description, l.definition, l.created_at, l.updated_at FROM line l WHERE l.name LIKE ? AND l.id IN (1,2) LIMIT 50");
    assert_eq!(q.binds, vec![SqlValue::Text("%s%".into())]);
    let q = store.get_item_query(8);
    assert_eq!(q.sql, "SELECT l.id, l.name, l.slug, l.description, l.definition, l.created_at, l.updated_at FROM line l WHERE l.id = ?1");
    let q = store.list_entity_items_query("board", 4, &lister);
    assert_eq!(q.sql, "SELECT i.id, i.name, i.slug, i.description, i.definition, i.created_at, i.updated_at FROM line i JOIN board_line l ON i.id = l.line_id WHERE l.board_id = ? AND i.name LIKE ? AND i.id IN (1,2) LIMIT 50");
    assert_eq!(q.binds, vec![SqlValue::Int(4), SqlValue::Text("%s%".into())]);
    let q = store.link_item_to_entity_query("board", 4, 8, None, Some("nm"), 99);
    assert_eq!(q.sql, "INSERT INTO board_line (board_id, line_id, origin_id, name, created_at) VALUES (?1, ?2, ?3, ?4, ?5) RETURNING item_id as item_id, line_id as workshop_item_id, origin_id, name, created_at");
    assert_eq!(q.binds, vec![SqlValue::Int(4), SqlValue::Int(8), SqlValue::Null, SqlValue::Text("nm".into()), SqlValue::Int(99)]);
    let q = store.link_item_to_entity_query("package", 4, 8, Some(2), Some("nm"), 99);
    assert_eq!(q.sql, "INSERT INTO package_line (package_id, line_id, origin_id, created_at) VALUES (?1, ?2, ?3, ?4) RETURNING item_id as item_id, line_id as workshop_item_id, origin_id, NULL as name, created_at");
    assert_eq!(q.binds, vec![SqlValue::Int(4), SqlValue::Int(8), SqlValue::Int(2), SqlValue::Int(99)]);
    let q = store.unlink_item_from_entity_query("package", 4, 8, None);
    assert_eq!(q.sql, "DELETE FROM package_line WHERE package_id = ?1 AND line_id = ?2 AND origin_id IS ?3 RETURNING item_id as item_id, line_id as workshop_item_id, origin_id, name, created_at");
    let item = NewWorkshopItemDb { name: "n", slug: "s", description: None, definition: "{}" };
    let q = store.add_item_query(&item, 5);
    assert_eq!(q.sql, "INSERT INTO line (name, slug, description, definition, created_at, updated_at) VALUES (?1, ?2, ?3, ?4, ?5, ?5) RETURNING id, name, slug, description, definition, created_at, updated_at");
    let patch = PatchWorkshopItemDb { name: None, description: None, definition: Some("[1]") };
    let q = store.update_item_query(3, &patch, 6).unwrap();
    assert_eq!(q.sql, "UPDATE line SET definition = ?, updated_at = ? WHERE id = ? RETURNING id, name, slug, description, definition, created_at, updated_at");
    assert_eq!(q.binds, vec![SqlValue::Text("[1]".into()), SqlValue::Int(6), SqlValue::Int(3)]);
    let none = PatchWorkshopItemDb { name: None, description: None, definition: None };
    match store.update_item_query(3, &none, 6) {
        Err(ModelError::BadRequest(m)) => assert_eq!(m, "No fields to update"),
        _ => panic!("expected a bad request"),
    }
    assert_eq!(store.get_item_by_slug_query("sl").sql, "SELECT id, name, slug, description, definition, created_at, updated_at FROM line WHERE slug = ?");
    assert_eq!(store.delete_item_query(1).sql, "DELETE FROM line WHERE id = ? RETURNING id, name, slug, description, definition, created_at, updated_at");
}

#[test]
fn workshop_requests() {
    let p = SearchParams { ids: None, search: Some("x".into()), limit: None, offset: Some(3) }.into_list_params();
    let pager = p.pager.unwrap();
    assert_eq!((pager.limit, pager.offset), (50, Some(3)));
    assert_eq!(p.filter.unwrap().search, Some("x".to_string()));
    assert!(validate_new_workshop_item("Circle", "circle-1", None).is_ok());
    assert_eq!(
        validate_new_workshop_item("Ci", "1c", Some(&"d".repeat(501))).unwrap_err().to_string(),
        "name: Validation error: length\nslug: Validation error: length\nslug: Validation error: regex\ndescription: Validation error: length"
    );
    assert!(validate_patch_workshop_item(Some("ab"), None).is_err());
    assert!(validate_patch_workshop_item(None, Some("ok")).is_ok());
}

#[test]
fn numbers_read_back() {
    for n in [0u64, 7, 10, 65535, 65536, u64::MAX] {
        let mut s = String::new();
        push_decimal(&mut s, n);
        assert_eq!(s, n.to_string());
        assert_eq!(parse_bounded(&s, u64::MAX), Some(n));
        assert_eq!(parse_bounded(&s, 65535).is_some(), n <= 65535);
    }
    for i in [i64::MIN, -1, 0, 42] {
        let mut s = String::new();
        push_signed_decimal(&mut s, i);
        assert_eq!(s, i.to_string());
    }
    assert_eq!(trim("  x y \t"), "x y");
    assert!(contains_str("abcabd", "abd"));
    assert!(!contains_str("ab", "abc"));
    assert!(contains_str("", ""));
}

#[test]
fn signin_wraps_an_oversized_lifetime() {
    let item = InitSession { address: "a@b.c".to_string() };
    let s = signin_session(&item, 100, u64::MAX);
    assert_eq!(s.init.sent_at, 100);
    assert_eq!(s.init.expires_at, 99);
}
