use saas_api::auth::{normalize_email, normalize_slug, validate_password};
use saas_api::health::health_response;

#[test]
fn health_response_contains_service_metadata() {
    let response = health_response();

    assert_eq!(response.status, "ok");
    assert_eq!(response.service, "saas-api");
    assert_eq!(response.version, "0.1.0");
}

#[test]
fn tenant_slug_is_normalized() {
    assert_eq!(normalize_slug(" Example-Tenant ").unwrap(), "example-tenant");
    assert!(normalize_slug("-invalid").is_err());
    assert!(normalize_slug("ab").is_err());
}

#[test]
fn email_is_normalized() {
    assert_eq!(normalize_email(" Admin@Example.TEST ").unwrap(), "admin@example.test");
    assert!(normalize_email("invalid").is_err());
}

#[test]
fn password_requires_twelve_characters() {
    assert!(validate_password("123456789012").is_ok());
    assert!(validate_password("short").is_err());
}
