use cipher_core::keys::{create_key, generate_auth_tag, generate_nonce, EncryptionError};
use cipher_core::password::validate_password;
use cipher_core::types::{LogLevel, Status};

fn refusal_text(password: &str) -> String {
    match validate_password(password) {
        Err(EncryptionError::PasswordValidation(message)) => message,
        other => panic!("expected a refusal, got {:?}", other),
    }
}

#[test]
fn short_password_rejected() {
    assert_eq!(refusal_text("short1!"), "Password must be at least 8 characters long");
}

#[test]
fn password_without_special_rejected() {
    assert_eq!(refusal_text("NoSpecial123"), "Password must contain at least one special character");
}

#[test]
fn valid_password_accepted() {
    assert!(validate_password("Valid1Pass!").is_ok());
}

#[test]
fn long_password_rejected() {
    assert_eq!(refusal_text("Aa1!aaaaaaaaaaaaaaaaaaaaaaaaaaaaa"), "Password must not exceed 32 characters");
    assert!(validate_password("Aa1!aaaaaaaaaaaaaaaaaaaaaaaaaaaa").is_ok());
}

#[test]
fn password_missing_classes_rejected() {
    assert_eq!(refusal_text("lower1!case"), "Password must contain at least one uppercase letter");
    assert_eq!(refusal_text("UPPER1!CASE"), "Password must contain at least one lowercase letter");
    assert_eq!(refusal_text("NoDigits!!"), "Password must contain at least one number");
}

#[test]
fn password_length_counts_characters() {
    // Seven characters but more than eight bytes.
    assert_eq!(refusal_text("Ää1!Ööx"), "Password must be at least 8 characters long");
    assert!(validate_password("Ää1!Ööxy").is_ok());
}

#[test]
fn nonce_and_ad_lengths() {
    let a = generate_nonce();
    let b = generate_nonce();
    assert_eq!(a.len(), 24);
    assert_eq!(b.len(), 24);
    assert_ne!(a, b);
    assert_eq!(generate_auth_tag().len(), 32);
}

#[test]
fn key_derivation_is_deterministic() {
    let nonce = vec![7u8; 24];
    let first = create_key("Valid1Pass!", nonce.clone()).unwrap();
    let second = create_key("Valid1Pass!", nonce.clone()).unwrap();
    assert_eq!(first.len(), 32);
    assert_eq!(first, second);
}

#[test]
fn key_depends_on_password_and_nonce() {
    let base = create_key("Valid1Pass!", vec![7u8; 24]).unwrap();
    let other_nonce = create_key("Valid1Pass!", vec![8u8; 24]).unwrap();
    let other_password = create_key("Valid1Pass?", vec![7u8; 24]).unwrap();
    assert_ne!(base, other_nonce);
    assert_ne!(base, other_password);
    assert_ne!(base, vec![0u8; 32]);
}

#[test]
fn key_derivation_errors() {
    assert!(matches!(create_key("", vec![1u8; 24]), Err(EncryptionError::PasswordCreation)));
    assert!(matches!(create_key("Valid1Pass!", vec![]), Err(EncryptionError::SaltCreation)));
    assert!(matches!(create_key("Valid1Pass!", vec![1u8; 7]), Err(EncryptionError::KeyDerivation)));
    assert!(create_key("Valid1Pass!", vec![1u8; 8]).is_ok());
}

#[test]
fn status_log_levels() {
    assert_eq!(Status::Success.log_level(), LogLevel::Info);
    assert_eq!(Status::Error.log_level(), LogLevel::Error);
}
