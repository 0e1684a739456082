use anime_quotes::hasher::{hash_password, verify_password};

#[test]
fn verify_of_hash_succeeds() {
    let encoded = hash_password("secret1").unwrap();
    assert!(verify_password("secret1", &encoded));
}

#[test]
fn verify_of_hash_with_other_plaintext_fails() {
    let encoded = hash_password("secret1").unwrap();
    assert!(!verify_password("secret2", &encoded));
    assert!(!verify_password("", &encoded));
}

#[test]
fn hash_is_not_the_plaintext() {
    let encoded = hash_password("secret1").unwrap();
    assert_ne!(encoded, "secret1");
    assert!(!verify_password("secret1", "secret1"));
}

#[test]
fn hash_twice_differs() {
    let first = hash_password("secret1").unwrap();
    let second = hash_password("secret1").unwrap();
    assert_ne!(first, second);
    assert!(verify_password("secret1", &first));
    assert!(verify_password("secret1", &second));
}

#[test]
fn malformed_encoded_never_matches() {
    assert!(!verify_password("secret1", ""));
    assert!(!verify_password("secret1", "$argon2id$garbage"));
    assert!(!verify_password("secret1", "no dollars at all"));
}
