use encryption_service::crypto::EncryptionUtils;
use encryption_service::errors::ServiceError;

fn cipher() -> EncryptionUtils {
    EncryptionUtils::new("aes-256-gcm".to_string(), 32, 100000, "default_salt".to_string())
}

#[test]
fn encrypt_then_decrypt_restores_the_plaintext() {
    let c = cipher();
    let ct = c.encrypt("secret", "pw1234567890").unwrap();
    assert!(!ct.is_empty());
    // the ciphertext is not the plaintext handed back unchanged
    assert_ne!(ct, "secret".to_string());
    let pt = c.decrypt(&ct, "pw1234567890").unwrap();
    assert_eq!(pt, "secret".to_string());
}

#[test]
fn two_encryptions_of_the_same_input_decrypt_alike() {
    let c = cipher();
    let ct1 = c.encrypt("same data", "pw").unwrap();
    let ct2 = c.encrypt("same data", "pw").unwrap();
    assert_eq!(c.decrypt(&ct1, "pw").unwrap(), "same data".to_string());
    assert_eq!(c.decrypt(&ct2, "pw").unwrap(), "same data".to_string());
}

#[test]
fn wrong_password_is_a_cipher_failure() {
    let c = cipher();
    let ct = c.encrypt("secret", "right").unwrap();
    assert_eq!(c.decrypt(&ct, "wrong").unwrap_err(), ServiceError::CipherFailure);
}

#[test]
fn malformed_ciphertext_is_a_cipher_failure() {
    let c = cipher();
    // not base64 at all
    assert_eq!(c.decrypt("@@@not-base64@@@", "pw").unwrap_err(), ServiceError::CipherFailure);
    // valid base64, but shorter than one nonce
    assert_eq!(c.decrypt("AAAA", "pw").unwrap_err(), ServiceError::CipherFailure);
    // valid base64 of garbage long enough to split
    assert_eq!(
        c.decrypt("AAAAAAAAAAAAAAAAAAAAAAAAAAAAAAAAAAAAAAAA", "pw").unwrap_err(),
        ServiceError::CipherFailure
    );
}

#[test]
fn unsupported_algorithm_is_rejected() {
    let c = EncryptionUtils::new("rot13".to_string(), 32, 1, "salt".to_string());
    assert_eq!(c.encrypt("x", "pw").unwrap_err(), ServiceError::CipherFailure);
    assert_eq!(c.decrypt("x", "pw").unwrap_err(), ServiceError::CipherFailure);
}

#[test]
fn key_length_other_than_aes_256_is_rejected() {
    let c = EncryptionUtils::new("aes-256-gcm".to_string(), 16, 1, "salt".to_string());
    assert_eq!(c.encrypt("x", "pw").unwrap_err(), ServiceError::CipherFailure);
}

#[test]
fn generate_key_has_the_configured_length_and_uses_the_salt() {
    let c = cipher();
    let k = c.generate_key("pw").unwrap();
    assert_eq!(k.len(), 32);
    // a different salt derives a different key
    let other = EncryptionUtils::new(
        "aes-256-gcm".to_string(),
        32,
        100000,
        "another_salt".to_string(),
    );
    let k2 = other.generate_key("pw").unwrap();
    assert_ne!(k, k2);
    // the derivation is deterministic
    assert_eq!(k, c.generate_key("pw").unwrap());
}

#[test]
fn oversized_key_request_fails() {
    let c = EncryptionUtils::new("aes-256-gcm".to_string(), 9000, 1, "salt".to_string());
    assert_eq!(c.generate_key("pw").unwrap_err(), ServiceError::CipherFailure);
}

#[test]
fn ciphertext_decrypts_only_with_the_same_salt() {
    let c = cipher();
    let ct = c.encrypt("secret", "pw").unwrap();
    let other = EncryptionUtils::new(
        "aes-256-gcm".to_string(),
        32,
        100000,
        "another_salt".to_string(),
    );
    assert!(other.decrypt(&ct, "pw").is_err());
}
