use bulk_sms_api::error::AppErrorType;
use bulk_sms_api::util::{hash_password, verify_password};

#[test]
fn hash_password_returns_ok() {
    let password: String = "Pass12345".to_string();
    let hash = hash_password(&password).unwrap();
    let matches = verify_password(&hash, &password).unwrap();
    assert!(matches);
}

#[test]
fn verify_password_rejects_a_wrong_password() {
    let password: String = "Pass12345".to_string();
    let hash = hash_password(&password).unwrap();
    let other: String = "Pass54321".to_string();
    assert!(!verify_password(&hash, &other).unwrap());
}

#[test]
fn hashes_use_a_fresh_salt() {
    let password: String = "Pass12345".to_string();
    let h1 = hash_password(&password).unwrap();
    let h2 = hash_password(&password).unwrap();
    assert_ne!(h1, h2);
    assert!(verify_password(&h1, &password).unwrap());
    assert!(verify_password(&h2, &password).unwrap());
}

#[test]
fn verify_password_fails_on_an_undecodable_hash() {
    let bad_hash: String = "not-an-encoded-hash".to_string();
    let password: String = "Pass12345".to_string();
    let e = verify_password(&bad_hash, &password).unwrap_err();
    assert_eq!(e.error_type, AppErrorType::Internal);
    assert_eq!(e.cause.unwrap(), "Could not decode password!");
}
