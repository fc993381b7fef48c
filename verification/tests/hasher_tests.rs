//! The password hasher: correctness and per-call salting.

use authcore::hasher::{BcryptHasher, Hasher};
use authcore::model::{Password, PasswordHash};

#[test]
fn hasher_works() {
    let hasher = BcryptHasher::with_cost(4);

    let password = Password::new("123".into());
    let hash = hasher.hash(&password).unwrap();
    assert!(hasher.verify(&password, &hash));

    assert!(!hasher.verify(&password, &PasswordHash::new("something".into())));
}

#[test]
fn hashing_salts_every_call() {
    let hasher = BcryptHasher::with_cost(4);
    let p = Password::new("same password".into());

    let h1 = hasher.hash(&p).unwrap();
    let h2 = hasher.hash(&p).unwrap();

    // Different salt, different digest...
    assert_ne!(h1.expose(), h2.expose());
    // ...yet both verify the password,
    assert!(hasher.verify(&p, &h1));
    assert!(hasher.verify(&p, &h2));
    // and a different password verifies against neither.
    let other = Password::new("other password".into());
    assert!(!hasher.verify(&other, &h1));
    assert!(!hasher.verify(&other, &h2));
}

#[test]
fn out_of_range_cost_is_refused() {
    let hasher = BcryptHasher::with_cost(99);
    assert!(hasher.hash(&Password::new("pw".into())).is_err());
}
