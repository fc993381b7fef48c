//! The authentication service: registration, login, deletion and the
//! unified failure outcome.

use authcore::auth::AuthService;
use authcore::config::{Config, DbKind, JwtConfig, KeyPair};
use authcore::db::MemoryDb;
use authcore::errors::ApiError;
use authcore::hasher::{BcryptHasher, Hasher};
use authcore::jwt::JwtService;
use authcore::model::{Email, Password};
use authcore::random::SequenceRandom;
use authcore::time::FixedTime;

const NOW: i64 = 1577836800;

type TestAuth = AuthService<FixedTime, SequenceRandom, BcryptHasher, MemoryDb>;

fn test_config() -> Config {
    Config {
        jwt: JwtConfig {
            ttl_seconds: 1000,
            key: KeyPair::from_secret(b"bad secret".to_vec()),
        },
        hostname: "localhost".to_string(),
        db: DbKind::InMemory,
    }
}

fn test_auth() -> TestAuth {
    let time = FixedTime { instant: NOW };
    let jwt = JwtService::new(time, SequenceRandom::new(vec![21, 22, 23]), test_config());
    AuthService::new(
        time,
        SequenceRandom::new(vec![11, 12, 13]),
        BcryptHasher::with_cost(4),
        jwt,
        MemoryDb::new(),
    )
}

fn email(s: &str) -> Email {
    Email(s.to_string())
}

fn password(s: &str) -> Password {
    Password::new(s.to_string())
}

#[test]
fn can_create_user() {
    let mut auth = test_auth();

    let jwt = auth
        .create_user(email("default@email.com"), password("bad password"))
        .unwrap();

    let claims = auth.validate_jwt(&jwt).unwrap();
    assert_eq!(claims.email.0.as_str(), "default@email.com");

    let user = auth
        .user_with_email(&email("default@email.com"))
        .unwrap()
        .unwrap();
    assert_eq!(user.email.0, claims.email.0);
}

#[test]
fn can_login() {
    let mut auth = test_auth();
    auth.create_user(email("default@email.com"), password("bad password"))
        .unwrap();

    let jwt = auth
        .login(email("default@email.com"), password("bad password"))
        .unwrap();

    let claims = auth.validate_jwt(&jwt).unwrap();
    assert_eq!(claims.email.0.as_str(), "default@email.com");
}

#[test]
fn login_failures_are_indistinguishable() {
    let mut auth = test_auth();
    auth.create_user(email("a@x.com"), password("right")).unwrap();

    let missing = auth.login(email("nobody@x.com"), password("whatever"));
    let wrong_pw = auth.login(email("a@x.com"), password("wrong"));

    let missing_err = match missing {
        Err(e) => e,
        Ok(_) => panic!("login with unknown email must fail"),
    };
    let wrong_pw_err = match wrong_pw {
        Err(e) => e,
        Ok(_) => panic!("login with wrong password must fail"),
    };
    assert_eq!(missing_err, ApiError::Auth);
    assert_eq!(wrong_pw_err, ApiError::Auth);
    assert_eq!(missing_err, wrong_pw_err);
}

#[test]
fn duplicate_email_is_already_in_use() {
    let mut auth = test_auth();
    auth.create_user(email("a@x.com"), password("pw1")).unwrap();

    let second = auth.create_user(email("a@x.com"), password("pw2"));
    assert!(matches!(second, Err(ApiError::AlreadyInUse)));

    // Exactly one record is persisted.
    assert!(auth.user_with_email(&email("a@x.com")).unwrap().is_some());
    let first = auth.user_with_email(&email("a@x.com")).unwrap().unwrap();
    let hasher = BcryptHasher::with_cost(4);
    assert!(hasher.verify(&password("pw1"), &first.password_hash));
    assert!(!hasher.verify(&password("pw2"), &first.password_hash));
}

#[test]
fn hash_engine_failure_is_unknown() {
    let mut auth = test_auth();
    auth.hasher = BcryptHasher::with_cost(99);
    let r = auth.create_user(email("a@x.com"), password("pw"));
    assert!(matches!(r, Err(ApiError::Unknown)));
}

#[test]
fn register_login_delete_end_to_end() {
    let mut auth = test_auth();

    let t1 = auth.create_user(email("a@x.com"), password("pw1")).unwrap();
    let t2 = auth.login(email("a@x.com"), password("pw1")).unwrap();

    assert_ne!(t1.expose(), t2.expose());

    let c1 = auth.validate_jwt(&t1).unwrap();
    let c2 = auth.validate_jwt(&t2).unwrap();
    assert_eq!(c1.subject.0, c2.subject.0);

    auth.delete_user(&c2).unwrap();
    assert!(auth.user_with_email(&email("a@x.com")).unwrap().is_none());
    assert!(auth.user_with_id(c1.subject).unwrap().is_none());
}
