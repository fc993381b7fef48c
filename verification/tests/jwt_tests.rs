//! Tokens: minting, validation, boundaries and tampering.

use authcore::claims::Claims;
use authcore::config::{Config, DbKind, JwtConfig, KeyPair};
use authcore::errors::JwtError;
use authcore::hasher::{BcryptHasher, Hasher};
use authcore::jwt::{Jwt, JwtService};
use authcore::model::{Email, Password, User, UserId};
use authcore::random::SequenceRandom;
use authcore::time::FixedTime;

const NOW: i64 = 1577836800;

fn test_config(ttl_seconds: i64) -> Config {
    Config {
        jwt: JwtConfig {
            ttl_seconds,
            key: KeyPair::from_secret(b"bad secret".to_vec()),
        },
        hostname: "localhost".to_string(),
        db: DbKind::InMemory,
    }
}

fn test_service(ttl_seconds: i64, now: i64) -> JwtService<FixedTime, SequenceRandom> {
    JwtService::new(
        FixedTime { instant: now },
        SequenceRandom::new(vec![7, 8, 9]),
        test_config(ttl_seconds),
    )
}

fn default_user() -> User {
    let hasher = BcryptHasher::with_cost(4);
    User {
        id: UserId(42),
        email: Email("default@email.com".to_string()),
        password_hash: hasher.hash(&Password::new("bad password".to_string())).unwrap(),
        created_at: NOW,
    }
}

#[test]
fn can_create_and_validate_jwt() {
    let mut service = test_service(1000, NOW);
    let user = default_user();
    let jwt = service.create_jwt(user).unwrap();

    let claims = service.validate(&jwt).unwrap();
    assert_eq!(claims.email.0.as_str(), "default@email.com");
}

#[test]
fn round_trip_preserves_every_field() {
    let mut service = test_service(1000, NOW);
    let jwt = service.create_jwt(default_user()).unwrap();
    let claims = service.validate(&jwt).unwrap();

    assert_eq!(claims.subject.0, 42u128);
    assert_eq!(claims.email.0.as_str(), "default@email.com");
    assert_eq!(claims.issuer.as_str(), "localhost");
    assert_eq!(claims.issued_at, NOW);
    assert_eq!(claims.not_before, NOW);
    assert_eq!(claims.expiration, NOW + 1000);
    assert_eq!(claims.jwt_id.as_str(), "00000000-0000-0000-0000-000000000007");
}

#[test]
fn expired_one_second_ago_is_too_late() {
    let mut service = test_service(-1, NOW);
    let jwt = service.create_jwt(default_user()).unwrap();
    let r = service.validate_at(&jwt, NOW);
    assert!(matches!(r, Err(JwtError::TooLate)));
}

#[test]
fn expiring_exactly_now_is_accepted() {
    let mut service = test_service(0, NOW);
    let jwt = service.create_jwt(default_user()).unwrap();
    assert!(service.validate_at(&jwt, NOW).is_ok());
}

#[test]
fn not_before_one_second_ahead_is_too_early() {
    let mut service = test_service(1000, NOW + 1);
    let jwt = service.create_jwt(default_user()).unwrap();
    let r = service.validate_at(&jwt, NOW);
    assert!(matches!(r, Err(JwtError::TooEarly)));
}

#[test]
fn not_before_exactly_now_is_accepted() {
    let mut service = test_service(1000, NOW);
    let jwt = service.create_jwt(default_user()).unwrap();
    assert!(service.validate_at(&jwt, NOW).is_ok());
}

#[test]
fn flipping_any_signature_byte_is_invalid_signature() {
    let mut service = test_service(1000, NOW);
    let jwt = service.create_jwt(default_user()).unwrap();
    let bytes = jwt.expose().clone();
    let sig_start = 1 + bytes
        .iter()
        .enumerate()
        .filter(|(_, b)| **b == b'.')
        .map(|(i, _)| i)
        .nth(1)
        .unwrap();
    assert!(sig_start < bytes.len());
    for i in sig_start..bytes.len() {
        let mut corrupted = bytes.clone();
        corrupted[i] = if corrupted[i] == b'A' { b'B' } else { b'A' };
        if corrupted[i] == bytes[i] {
            continue;
        }
        let r = service.validate(&Jwt::from_bytes(corrupted));
        assert!(matches!(r, Err(JwtError::InvalidSig)));
    }
}

#[test]
fn wrong_key_is_invalid_signature() {
    let mut minting = test_service(1000, NOW);
    let jwt = minting.create_jwt(default_user()).unwrap();

    let other = JwtService::new(
        FixedTime { instant: NOW },
        SequenceRandom::new(vec![7]),
        Config {
            jwt: JwtConfig {
                ttl_seconds: 1000,
                key: KeyPair::from_secret(b"another secret".to_vec()),
            },
            hostname: "localhost".to_string(),
            db: DbKind::InMemory,
        },
    );
    let r = other.validate(&jwt);
    assert!(matches!(r, Err(JwtError::InvalidSig)));
}

#[test]
fn garbage_token_is_unknown() {
    let service = test_service(1000, NOW);
    let r = service.validate(&Jwt::from_bytes(b"abc".to_vec()));
    assert!(matches!(r, Err(JwtError::Unknown)));
}

#[test]
fn too_many_segments_is_unknown() {
    let service = test_service(1000, NOW);
    let r = service.validate(&Jwt::from_bytes(b"a.b.c.d".to_vec()));
    assert!(matches!(r, Err(JwtError::Unknown)));
}

#[test]
fn can_deserialize_untrusted() {
    // Parsing arbitrary bytes never yields a trusted claim set: it is
    // answered with a typed failure, not a panic.
    let service = test_service(1000, NOW);
    assert!(service.validate(&Jwt::from_bytes(Vec::new())).is_err());
    let with_bad_payload = Jwt::from_bytes(b"eyJhbGciOiJIUzI1NiJ9.bm90anNvbg.x".to_vec());
    assert!(service.validate(&with_bad_payload).is_err());
}

#[test]
fn email_with_separator_round_trips() {
    // An email holding separator bytes still round-trips: base64 keeps
    // the token framing unambiguous.
    let mut service = test_service(1000, NOW);
    let hasher = BcryptHasher::with_cost(4);
    let user = User {
        id: UserId(3),
        email: Email("dotted.user@x.com".to_string()),
        password_hash: hasher.hash(&Password::new("pw".to_string())).unwrap(),
        created_at: NOW,
    };
    let jwt = service.create_jwt(user).unwrap();
    let claims: Claims<_> = service.validate(&jwt).unwrap();
    assert_eq!(claims.email.0.as_str(), "dotted.user@x.com");
}

#[test]
fn expiration_overflow_is_unknown() {
    // The one way minting can fail: the expiration would overflow the
    // timestamp range.
    let mut service = test_service(1, i64::MAX);
    let r = service.create_jwt(default_user());
    assert!(matches!(r, Err(JwtError::Unknown)));
}
