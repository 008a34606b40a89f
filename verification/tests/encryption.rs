use myapp::encryption::{hash, verify};
use myapp::error::AuthError;

#[test]
fn it_works() {
    let hashed = hash("hunter2".to_string()).unwrap();
    let valid = verify("hunter2".to_string(), hashed).unwrap();
    assert!(valid)
}

#[test]
fn hash_verify_round_trip() {
    for password in ["", "p1", "a longer pass phrase with spaces"] {
        let hashed = hash(password.to_string()).unwrap();
        assert!(verify(password.to_string(), hashed.clone()).unwrap());
        assert!(!verify(format!("{password}x"), hashed).unwrap());
    }
}

#[test]
fn malformed_stored_hash_is_a_typed_error() {
    let outcome = verify("p1".to_string(), "not-a-bcrypt-hash".to_string());
    assert_eq!(outcome, Err(AuthError::HashingError));
}
