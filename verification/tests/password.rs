use rbac_core::password::hash;
use rbac_core::password::verify;

#[test]
fn test_hash_and_verify() {
    let password = "test_password_123";

    let hash = hash(password).unwrap();
    assert!(verify(password, &hash).unwrap());
    assert!(!verify("wrong_password", &hash).unwrap());
}

#[test]
fn hash_is_salted_phc_string() {
    let first = hash("swordfish_1").unwrap();
    let second = hash("swordfish_1").unwrap();
    assert!(first.starts_with("$argon2"));
    // Fresh salts: two hashes of one password differ, yet both verify.
    assert_ne!(first, second);
    assert!(verify("swordfish_1", &first).unwrap());
    assert!(verify("swordfish_1", &second).unwrap());
}

#[test]
fn verify_rejects_malformed_hash() {
    let err = verify("anything", "not-a-phc-string").unwrap_err();
    assert_eq!(err.kind(), rbac_core::ErrorKind::Internal);
}
