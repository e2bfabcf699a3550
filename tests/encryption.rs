use aes_gcm::aead::{Aead, KeyInit};
use aes_gcm::{Aes256Gcm, Nonce};
use base64::engine::general_purpose::STANDARD;
use base64::Engine;
use omi_store::encryption::decrypt;

const SECRET: &[u8] = b"testsecret12345678901234567890123";

fn seal(plain: &str, uid: &str, nonce: [u8; 12]) -> String {
    let hk = hkdf::Hkdf::<sha2::Sha256>::new(Some(uid.as_bytes()), SECRET);
    let mut key = [0u8; 32];
    hk.expand(b"user-data-encryption", &mut key).unwrap();
    let cipher = Aes256Gcm::new_from_slice(&key).unwrap();
    let sealed = cipher.encrypt(Nonce::from_slice(&nonce), plain.as_bytes()).unwrap();
    let mut payload = nonce.to_vec();
    payload.extend(sealed);
    STANDARD.encode(payload)
}

#[test]
fn test_decrypt_returns_original_on_invalid_base64() {
    let result = decrypt("not valid base64!!!", "test-uid", SECRET);
    assert_eq!(result, "not valid base64!!!");
}

#[test]
fn test_decrypt_returns_original_on_empty_string() {
    let result = decrypt("", "test-uid", SECRET);
    assert_eq!(result, "");
}

#[test]
fn test_decrypt_returns_original_on_short_payload() {
    let result = decrypt("SGVsbG8=", "test-uid", SECRET);
    assert_eq!(result, "SGVsbG8=");
}

#[test]
fn sealed_text_opens_for_its_user_only() {
    let sealed = seal("Buy milk", "test-uid", [7u8; 12]);
    assert_eq!(decrypt(&sealed, "test-uid", SECRET), "Buy milk");
    assert_eq!(decrypt(&sealed, "other-uid", SECRET), sealed);
    assert_eq!(decrypt(&sealed, "test-uid", b"another secret"), sealed);
}
