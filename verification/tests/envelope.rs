use mor_lms::envelope::{decrypt_vault, encrypt_vault, open, open_reaches_cipher, seal, seal_with, EncryptedVault, LocalCryptoProvider};

#[test]
fn envelope_roundtrip() {
    let env = encrypt_vault("{\"nodes\":{}}", "pw").unwrap();
    assert_eq!(env.nonce.len(), 12);
    assert_eq!(env.salt.len(), 22);
    assert_eq!(env.ciphertext.len(), "{\"nodes\":{}}".len() + 16);
    assert_eq!(decrypt_vault(&env, "pw").unwrap(), "{\"nodes\":{}}");
}

#[test]
fn fresh_salt_and_nonce_each_time() {
    let a = seal(b"same", "pw").unwrap();
    let b = seal(b"same", "pw").unwrap();
    assert!(a.salt != b.salt || a.nonce != b.nonce);
    assert_eq!(open(&a, "pw").unwrap(), b"same");
}

#[test]
fn wrong_password_is_refused() {
    let env = encrypt_vault("data", "right").unwrap();
    assert_eq!(decrypt_vault(&env, "wrong").unwrap_err(), "Wrong password or corrupted data");
}

#[test]
fn invalid_salt_is_refused() {
    let mut env = encrypt_vault("data", "pw").unwrap();
    env.salt = "bad salt!".to_string();
    assert_eq!(decrypt_vault(&env, "pw").unwrap_err(), "Invalid salt format");
}

#[test]
fn short_salt_fails_key_derivation() {
    let env = EncryptedVault { salt: "abcd".to_string(), nonce: vec![0u8; 12], ciphertext: vec![0u8; 20] };
    assert_eq!(decrypt_vault(&env, "pw").unwrap_err(), "Key derivation failed: salt is too short");
    assert_eq!(open(&env, "pw").unwrap_err(), "Key derivation failed: salt is too short");
}

#[test]
fn invalid_utf8_after_decryption() {
    let env = seal(&[0xff, 0xfe], "pw").unwrap();
    assert_eq!(decrypt_vault(&env, "pw").unwrap_err(), "Invalid UTF-8 after decryption");
}

#[test]
fn provider_starts_without_session() {
    let p = LocalCryptoProvider::new("my_brain.enc".to_string());
    assert_eq!(p.path, "my_brain.enc");
    assert!(p.session_password.is_none());
}

#[test]
fn provider_session_new_vault_then_save_and_reload() {
    let mut p = LocalCryptoProvider::new("v.enc".to_string());
    assert_eq!(p.seal_for_save("{}").unwrap_err(), "No active session. Please authenticate first.");
    assert_eq!(p.authenticate(None, "pw"), Ok(None));
    assert_eq!(p.session_password.as_deref(), Some("pw"));
    let env = p.seal_for_save("{\"nodes\":{}}").unwrap();
    let mut q = LocalCryptoProvider::new("v.enc".to_string());
    assert_eq!(q.authenticate(Some(&env), "pw"), Ok(Some("{\"nodes\":{}}".to_string())));
    assert_eq!(q.session_password.as_deref(), Some("pw"));
}

#[test]
fn provider_session_wrong_password_keeps_no_session() {
    let env = encrypt_vault("{}", "right").unwrap();
    let mut p = LocalCryptoProvider::new("v.enc".to_string());
    assert_eq!(p.authenticate(Some(&env), "wrong"), Err("Wrong password or corrupted data".to_string()));
    assert!(p.session_password.is_none());
}

#[test]
fn provider_save_then_load_roundtrip() {
    let mut p = LocalCryptoProvider::new("v.enc".to_string());
    p.authenticate(None, "pw").unwrap();
    let env = p.seal_for_save("{\"nodes\":{\"a\":{}}}").unwrap();
    let mut q = LocalCryptoProvider::new("v.enc".to_string());
    assert_eq!(q.authenticate(Some(&env), "pw").unwrap().as_deref(), Some("{\"nodes\":{\"a\":{}}}"));
    let mut r = LocalCryptoProvider::new("v.enc".to_string());
    assert_eq!(r.authenticate(Some(&env), "pw2").unwrap_err(), "Wrong password or corrupted data");
    assert!(r.session_password.is_none());
}

#[test]
fn seal_with_uses_the_given_salt_and_nonce() {
    let a = seal_with(b"payload", "pw", "c2FsdHNhbHRzYWx0c2FsdA".to_string(), [3u8; 12]).unwrap();
    let b = seal_with(b"payload", "pw", "c2FsdHNhbHRzYWx0c2FsdA".to_string(), [3u8; 12]).unwrap();
    assert_eq!(a.salt, "c2FsdHNhbHRzYWx0c2FsdA");
    assert_eq!(a.nonce, vec![3u8; 12]);
    assert_eq!(a.ciphertext, b.ciphertext);
    assert_eq!(a.ciphertext.len(), 7 + 16);
    assert_eq!(open(&a, "pw").unwrap(), b"payload");
    assert_eq!(seal_with(b"x", "pw", "abcd".to_string(), [0u8; 12]).unwrap_err(), "Key derivation failed: salt is too short");
}

#[test]
fn nonce_matters_only_once_the_cipher_is_reached() {
    let mut env = encrypt_vault("{}", "pw").unwrap();
    assert!(open_reaches_cipher(&env, "pw"));
    env.nonce = vec![0u8; 5];
    env.salt = "not a salt!".to_string();
    assert!(!open_reaches_cipher(&env, "pw"));
    assert_eq!(decrypt_vault(&env, "pw").unwrap_err(), "Invalid salt format");
    env.salt = "abcd".to_string();
    assert!(!open_reaches_cipher(&env, "pw"));
}
