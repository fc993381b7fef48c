//! Configuration: key handling and store coordinates.

use authcore::config::{DbConfig, JwtConfig, KeyPair};
use authcore::errors::ApiError;

#[test]
fn connection_url_renders_exactly() {
    let cfg = DbConfig {
        host: "db.local".to_string(),
        name: "users".to_string(),
        username: "svc".to_string(),
        password: Some("pw".to_string()),
    };
    assert_eq!(cfg.connection_url(), "postgres://svc:pw@db.local/users");

    let without_password = DbConfig {
        host: "db.local".to_string(),
        name: "users".to_string(),
        username: "svc".to_string(),
        password: None,
    };
    assert_eq!(without_password.connection_url(), "postgres://svc@db.local/users");
}

#[test]
fn ttl_reads_back() {
    let cfg = JwtConfig {
        ttl_seconds: 1000,
        key: KeyPair::from_secret(b"secret".to_vec()),
    };
    assert_eq!(cfg.ttl(), 1000);
}

#[test]
fn status_codes_are_exact() {
    assert_eq!(ApiError::Auth.code(), 403);
    assert_eq!(ApiError::Unknown.code(), 500);
    assert_eq!(ApiError::AlreadyInUse.code(), 400);
}
