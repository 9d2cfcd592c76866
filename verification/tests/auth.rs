use xerv_core::auth::api_key::{ApiKeyBuilder, ApiKeyHash, ApiKeyValidator};
use xerv_core::auth::config::{ApiKeyConfig, ApiKeyEntry, AuthConfig};
use xerv_core::auth::context::{AuthContext, AuthScope, ScopeSet};
use xerv_core::auth::middleware::{AuthMiddleware, SimpleHeaders};
use xerv_core::error::XervError;

fn scopes(list: &[AuthScope]) -> ScopeSet {
    let mut s = ScopeSet::new();
    for x in list {
        s.insert(*x);
    }
    s
}

fn key_config() -> ApiKeyConfig {
    let entry = ApiKeyBuilder::new("test-client")
        .with_scope(AuthScope::PipelineRead)
        .with_scope(AuthScope::TraceRead)
        .build_with_key("test-api-key-12345");

    ApiKeyConfig::new().with_key(entry)
}

fn middleware_config() -> AuthConfig {
    let api_key = ApiKeyBuilder::new("test-client")
        .with_scope(AuthScope::PipelineRead)
        .build_with_key("valid-key");

    AuthConfig::new()
        .enabled()
        .with_api_key(ApiKeyConfig::new().with_key(api_key))
        .with_exempt_path("/health")
}

#[test]
fn hash_consistency() {
    let hash1 = ApiKeyHash::from_plaintext("test-key");
    let hash2 = ApiKeyHash::from_plaintext("test-key");
    assert_eq!(hash1, hash2);
}

#[test]
fn hash_different_keys() {
    let hash1 = ApiKeyHash::from_plaintext("key1");
    let hash2 = ApiKeyHash::from_plaintext("key2");
    assert_ne!(hash1, hash2);
}

#[test]
fn hash_is_lowercase_hex_sha256() {
    let hash = ApiKeyHash::from_plaintext("abc");
    assert_eq!(hash.as_str(), "ba7816bf8f01cfea414140de5dae2223b00361a396177a9cb410ff61f20015ad");
    assert_ne!(hash.as_str(), "abc");
}

#[test]
fn validate_valid_key() {
    let config = key_config();
    let validator = ApiKeyValidator::new(&config);

    let ctx = validator.validate("test-api-key-12345");
    assert!(ctx.is_some());

    let ctx = ctx.unwrap();
    assert_eq!(ctx.identity, "test-client");
    assert!(ctx.has_scope(AuthScope::PipelineRead));
    assert!(ctx.has_scope(AuthScope::TraceRead));
    assert!(!ctx.has_scope(AuthScope::PipelineWrite));
}

#[test]
fn validate_invalid_key() {
    let config = key_config();
    let validator = ApiKeyValidator::new(&config);

    let ctx = validator.validate("invalid-key");
    assert!(ctx.is_none());
}

#[test]
fn validation_does_not_look_at_expiry() {
    let entry = ApiKeyBuilder::new("old").read_only().build_with_key("old-key").with_expires_at(1);
    let config = ApiKeyConfig::new().with_key(entry);
    let validator = ApiKeyValidator::new(&config);
    assert!(validator.validate("old-key").is_some());
    assert_eq!(validator.header_name(), "X-API-Key");
}

#[test]
fn builder_admin() {
    let entry = ApiKeyBuilder::new("admin-user").admin().build_with_key("admin-key");

    assert!(entry.scopes.contains(&AuthScope::Admin));
    assert!(entry.scopes.contains(&AuthScope::PipelineRead));
    assert!(entry.scopes.contains(&AuthScope::PipelineWrite));
}

#[test]
fn builder_operator() {
    let entry = ApiKeyBuilder::new("operator").operator().build_with_key("op-key");

    assert!(entry.scopes.contains(&AuthScope::PipelineRead));
    assert!(entry.scopes.contains(&AuthScope::TraceRead));
    assert!(entry.scopes.contains(&AuthScope::TraceResume));
    assert!(!entry.scopes.contains(&AuthScope::PipelineWrite));
}

#[test]
fn auth_config_defaults() {
    let config = AuthConfig::default();
    assert!(!config.enabled);
    assert!(config.api_key.is_none());
    assert!(config.exempt_paths.contains(&"/health".to_string()));
}

#[test]
fn path_exemption() {
    let config = AuthConfig::new().with_exempt_path("/health").with_exempt_path("/status");

    assert!(config.is_path_exempt("/health"));
    assert!(config.is_path_exempt("/api/v1/health"));
    assert!(config.is_path_exempt("/status"));
    assert!(!config.is_path_exempt("/pipelines"));
}

#[test]
fn api_key_entry_scopes() {
    let entry = ApiKeyEntry::new("test-client", "abc123")
        .with_scope(AuthScope::PipelineRead)
        .with_scope(AuthScope::TraceRead);

    assert!(entry.scopes.contains(&AuthScope::PipelineRead));
    assert!(entry.scopes.contains(&AuthScope::TraceRead));
    assert!(!entry.scopes.contains(&AuthScope::Admin));
}

#[test]
fn api_key_entry_all_scopes() {
    let entry = ApiKeyEntry::new("admin", "xyz789").with_all_scopes();
    assert!(entry.scopes.contains(&AuthScope::Admin));
    assert_eq!(entry.scopes.len(), AuthScope::all().len());
}

#[test]
fn api_key_entry_expiry() {
    let entry = ApiKeyEntry::new("client", "h").expires_in_from(1000, 60);
    assert_eq!(entry.expires_at, Some(1060));
    assert!(!entry.is_expired_at(1059));
    assert!(entry.is_expired_at(1060));
    let saturated = ApiKeyEntry::new("client", "h").expires_in_from(u64::MAX, 60);
    assert_eq!(saturated.expires_at, Some(u64::MAX));
    assert!(!ApiKeyEntry::new("client", "h").is_expired_at(u64::MAX));
}

#[test]
fn scope_parsing() {
    assert_eq!(AuthScope::parse("pipeline:read"), Some(AuthScope::PipelineRead));
    assert_eq!(AuthScope::parse("pipeline_read"), Some(AuthScope::PipelineRead));
    assert_eq!(AuthScope::parse("admin"), Some(AuthScope::Admin));
    assert_eq!(AuthScope::parse("unknown"), None);
}

#[test]
fn scope_text_roundtrip() {
    for s in AuthScope::all().to_vec() {
        assert_eq!(AuthScope::parse(s.as_str()), Some(s));
    }
}

#[test]
fn context_scope_check() {
    let ctx = AuthContext::new("test", scopes(&[AuthScope::PipelineRead, AuthScope::TraceRead]));

    assert!(ctx.has_scope(AuthScope::PipelineRead));
    assert!(ctx.has_scope(AuthScope::TraceRead));
    assert!(!ctx.has_scope(AuthScope::PipelineWrite));
}

#[test]
fn admin_has_all_scopes() {
    let ctx = AuthContext::new("admin", scopes(&[AuthScope::Admin]));

    assert!(ctx.has_scope(AuthScope::PipelineRead));
    assert!(ctx.has_scope(AuthScope::PipelineWrite));
    assert!(ctx.has_scope(AuthScope::TraceRead));
    assert!(ctx.has_scope(AuthScope::Admin));
}

#[test]
fn require_scope_success() {
    let ctx = AuthContext::new("test", scopes(&[AuthScope::PipelineRead]));

    assert!(ctx.require_scope(AuthScope::PipelineRead).is_ok());
}

#[test]
fn require_scope_failure() {
    let ctx = AuthContext::new("test", scopes(&[AuthScope::PipelineRead]));

    assert!(ctx.require_scope(AuthScope::PipelineWrite).is_err());
}

#[test]
fn context_scope_lists() {
    let ctx = AuthContext::new("test", scopes(&[AuthScope::PipelineRead, AuthScope::TraceRead]));
    assert!(ctx.has_all_scopes(&[AuthScope::PipelineRead, AuthScope::TraceRead]));
    assert!(!ctx.has_all_scopes(&[AuthScope::PipelineRead, AuthScope::Admin]));
    assert!(ctx.has_any_scope(&[AuthScope::Admin, AuthScope::TraceRead]));
    assert!(!ctx.has_any_scope(&[AuthScope::Admin]));
    assert!(ctx.has_all_scopes(&[]));
    assert!(!ctx.has_any_scope(&[]));
}

#[test]
fn auth_disabled_allows_all() {
    let config = AuthConfig::new();
    let headers = SimpleHeaders::new();

    let result = AuthMiddleware::authenticate(&config, "/pipelines", &headers);
    assert!(result.is_ok());
    let ctx = result.unwrap();
    assert_eq!(ctx.identity, "anonymous");
    assert!(ctx.has_scope(AuthScope::PipelineRead));
    assert!(ctx.has_scope(AuthScope::PipelineWrite));
}

#[test]
fn exempt_path_allows_anonymous() {
    let config = middleware_config();
    let headers = SimpleHeaders::new();

    let result = AuthMiddleware::authenticate(&config, "/health", &headers);
    assert!(result.is_ok());
    assert_eq!(result.unwrap().identity, "anonymous");
}

#[test]
fn valid_api_key_authenticates() {
    let config = middleware_config();
    let headers = SimpleHeaders::with("X-API-Key", "valid-key");

    let result = AuthMiddleware::authenticate(&config, "/pipelines", &headers);
    assert!(result.is_ok());

    let ctx = result.unwrap();
    assert_eq!(ctx.identity, "test-client");
    assert!(ctx.has_scope(AuthScope::PipelineRead));
}

#[test]
fn invalid_api_key_fails() {
    let config = middleware_config();
    let headers = SimpleHeaders::with("X-API-Key", "invalid-key");

    let result = AuthMiddleware::authenticate(&config, "/pipelines", &headers);
    assert!(result.is_err());
    assert!(matches!(result.unwrap_err(), XervError::AuthenticationFailed { .. }));
}

#[test]
fn missing_credentials_fails() {
    let config = middleware_config();
    let headers = SimpleHeaders::new();

    let result = AuthMiddleware::authenticate(&config, "/pipelines", &headers);
    assert!(result.is_err());
}

#[test]
fn requires_auth_check() {
    let config = middleware_config();

    assert!(AuthMiddleware::requires_auth(&config, "/pipelines"));
    assert!(!AuthMiddleware::requires_auth(&config, "/health"));

    let disabled_config = AuthConfig::new();
    assert!(!AuthMiddleware::requires_auth(&disabled_config, "/pipelines"));
}

#[test]
fn authenticate_key_matches_authenticate() {
    let config = middleware_config();
    let by_key = AuthMiddleware::authenticate_key(&config, "/pipelines", Some("valid-key")).unwrap();
    assert_eq!(by_key.identity, "test-client");
    assert!(AuthMiddleware::authenticate_key(&config, "/pipelines", None).is_err());
    assert_eq!(AuthMiddleware::authenticate_key(&config, "/health", None).unwrap().identity, "anonymous");
}

#[test]
fn expiry_against_the_clock() {
    assert!(ApiKeyEntry::new("a", "h").with_expires_at(0).is_expired());
    assert!(!ApiKeyEntry::new("a", "h").with_expires_at(u64::MAX).is_expired());
    assert!(!ApiKeyEntry::new("a", "h").is_expired());
}

#[test]
fn authenticate_reads_the_configured_header() {
    let entry = ApiKeyBuilder::new("custom-client").build_with_key("valid-key");
    let config = AuthConfig::new()
        .enabled()
        .with_api_key(ApiKeyConfig::new().with_header("X-Custom-Key").with_key(entry));

    let right = SimpleHeaders::with("x-custom-key", "valid-key");
    assert_eq!(AuthMiddleware::authenticate(&config, "/pipelines", &right).unwrap().identity, "custom-client");

    let wrong = SimpleHeaders::with("X-API-Key", "valid-key");
    match AuthMiddleware::authenticate(&config, "/pipelines", &wrong) {
        Err(XervError::AuthenticationFailed { cause }) => assert_eq!(cause, "Missing authentication credentials"),
        _ => panic!("expected missing credentials"),
    }
}

#[test]
fn key_hash_is_sixty_four_hex_digits() {
    assert_eq!(ApiKeyHash::from_plaintext("anything").as_str().len(), 64);
    let entry = ApiKeyBuilder::new("c").build_with_key("k");
    assert_eq!(entry.key_hash.len(), 64);
    assert!(entry.key_hash.chars().all(|c| c.is_ascii_hexdigit() && !c.is_ascii_uppercase()));
}

#[test]
fn scope_parse_upper_case() {
    assert_eq!(AuthScope::parse("ADMIN"), Some(AuthScope::Admin));
    assert_eq!(AuthScope::parse("Pipeline:Read"), Some(AuthScope::PipelineRead));
}

#[test]
fn upper_case_stored_hash_validates() {
    let upper = ApiKeyHash::from_plaintext("shout").as_str().to_uppercase();
    let config = ApiKeyConfig::new().with_key(ApiKeyEntry::new("loud", &upper));
    let validator = ApiKeyValidator::new(&config);
    assert_eq!(validator.validate("shout").unwrap().identity, "loud");
    assert!(validator.validate("whisper").is_none());
    assert!(validator.validate_hash(&ApiKeyHash::new(&upper)).is_some());
}

#[test]
fn validate_and_validate_hash_agree() {
    let config = key_config();
    let validator = ApiKeyValidator::new(&config);
    let hex = ApiKeyHash::from_plaintext("test-api-key-12345").as_str().to_string();
    let by_key = validator.validate("test-api-key-12345").unwrap();
    let by_hash = validator.validate_hash(&ApiKeyHash::new(&hex.to_uppercase())).unwrap();
    assert_eq!(by_key.identity, by_hash.identity);
    assert_eq!(by_key.has_scope(AuthScope::TraceRead), by_hash.has_scope(AuthScope::TraceRead));
    assert!(validator.validate_hash(&ApiKeyHash::new(&hex[1..])).is_none());
}

#[test]
fn scope_text_round_trips() {
    for s in [
        AuthScope::PipelineRead,
        AuthScope::PipelineWrite,
        AuthScope::TraceRead,
        AuthScope::TraceWrite,
        AuthScope::TraceResume,
        AuthScope::Admin,
    ] {
        assert_eq!(AuthScope::parse(s.as_str()), Some(s));
        assert_eq!(AuthScope::parse(&s.as_str().replace(':', "_")), Some(s));
    }
}
