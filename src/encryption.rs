//! Reading of user data stored with enhanced protection: base64 of a
//! 12-byte nonce followed by AES-256-GCM ciphertext and tag, under a key
//! derived for each user. Anything that does not decrypt is returned as it
//! came.
use vstd::prelude::*;
use vstd::utf8::{valid_utf8, decode_utf8};
use crate::transcript::{base64_bytes, base64_decode};

verus! {

/// The 32-byte HKDF-SHA256 output for a salt, input key material and label.
pub uninterp spec fn hkdf_sha256_32(salt: Seq<u8>, ikm: Seq<u8>, info: Seq<u8>) -> Seq<u8>;

/// The plaintext that AES-256-GCM ciphertext with its tag opens to under a
/// key and nonce, or none when the tag does not check out.
pub uninterp spec fn aes256gcm_plaintext(key: Seq<u8>, nonce: Seq<u8>, ciphertext: Seq<u8>) -> Option<Seq<u8>>;

/// Relies on `hkdf::Hkdf::<Sha256>::new` and `expand` into 32 bytes, a
/// length within HKDF's bound, so that expansion succeeds.
#[verifier::external_body]
fn hkdf_sha256(salt: &[u8], ikm: &[u8], info: &[u8]) -> (r: Vec<u8>)
    ensures
        r@ == hkdf_sha256_32(salt@, ikm@, info@),
        r@.len() == 32,
{
    let hk = hkdf::Hkdf::<sha2::Sha256>::new(Some(salt), ikm);
    let mut okm = [0u8; 32];
    match hk.expand(info, &mut okm) {
        Ok(()) => okm.to_vec(),
        Err(_) => Vec::new(),
    }
}

/// Relies on `aes_gcm::Aes256Gcm::new_from_slice` with a 32-byte key and
/// `Aead::decrypt` with a 12-byte nonce.
#[verifier::external_body]
fn aes256gcm_open(key: &[u8], nonce: &[u8], ciphertext: &[u8]) -> (r: Option<Vec<u8>>)
    requires
        key@.len() == 32,
        nonce@.len() == 12,
    ensures
        match aes256gcm_plaintext(key@, nonce@, ciphertext@) {
            Some(p) => r is Some && r->0@ == p,
            None => r is None,
        },
{
    match <aes_gcm::Aes256Gcm as aes_gcm::aead::KeyInit>::new_from_slice(key) {
        Ok(cipher) => match aes_gcm::aead::Aead::decrypt(&cipher, aes_gcm::Nonce::from_slice(nonce), ciphertext) {
            Ok(p) => Some(p),
            Err(_) => None,
        },
        Err(_) => None,
    }
}

/// Relies on `String::from_utf8`: the text when the bytes are valid UTF-8.
#[verifier::external_body]
fn utf8_text(b: Vec<u8>) -> (r: Option<String>)
    ensures
        valid_utf8(b@) ==> r is Some && r->0@ == decode_utf8(b@),
        !valid_utf8(b@) ==> r is None,
{
    match String::from_utf8(b) {
        Ok(s) => Some(s),
        Err(_) => None,
    }
}

/// The label the per-user key is derived with.
pub const KEY_LABEL: &'static str = "user-data-encryption";

/// The bytes of a nonce.
pub const NONCE_LEN: usize = 12;

/// The fewest bytes a sealed payload has: a nonce and a tag.
pub const MIN_PAYLOAD_LEN: usize = 28;

/// The key of user `uid` under `master`.
pub open spec fn user_key(master: Seq<u8>, uid: Seq<char>) -> Seq<u8> {
    hkdf_sha256_32(vstd::utf8::encode_utf8(uid), master, vstd::utf8::encode_utf8(KEY_LABEL@))
}

/// What `data` reads as for user `uid`: the plaintext where it is base64 of
/// a sealed payload that opens under the user's key to UTF-8 text, else
/// `data` itself.
pub open spec fn decrypted(data: Seq<char>, uid: Seq<char>, master: Seq<u8>) -> Seq<char> {
    if data.len() == 0 {
        data
    } else {
        match base64_bytes(data) {
            None => data,
            Some(p) => if p.len() < MIN_PAYLOAD_LEN {
                data
            } else {
                match aes256gcm_plaintext(
                    user_key(master, uid),
                    p.subrange(0, NONCE_LEN as int),
                    p.subrange(NONCE_LEN as int, p.len() as int),
                ) {
                    Some(t) => if valid_utf8(t) {
                        decode_utf8(t)
                    } else {
                        data
                    },
                    None => data,
                }
            },
        }
    }
}

fn copy_range(b: &Vec<u8>, from: usize, to: usize) -> (r: Vec<u8>)
    requires
        from <= to <= b@.len(),
    ensures
        r@ == b@.subrange(from as int, to as int),
{
    let mut r: Vec<u8> = Vec::new();
    let mut i: usize = from;
    while i < to
        invariant
            from <= i <= to,
            to <= b@.len(),
            r@ == b@.subrange(from as int, i as int),
        decreases to - i,
    {
        r.push(b[i]);
        i += 1;
        assert(r@ =~= b@.subrange(from as int, i as int));
    }
    r
}

/// The text `encrypted_data` reads as for user `uid`; the data itself where
/// it is empty, not base64, too short, does not open, or is not UTF-8.
pub fn decrypt(encrypted_data: &str, uid: &str, master_secret: &[u8]) -> (r: String)
    ensures
        r@ == decrypted(encrypted_data@, uid@, master_secret@),
{
    if encrypted_data.unicode_len() == 0 {
        return String::from_str(encrypted_data);
    }
    let payload = match base64_decode(encrypted_data) {
        Some(p) => p,
        None => return String::from_str(encrypted_data),
    };
    if payload.len() < MIN_PAYLOAD_LEN {
        return String::from_str(encrypted_data);
    }
    let nonce = copy_range(&payload, 0, NONCE_LEN);
    let ciphertext = copy_range(&payload, NONCE_LEN, payload.len());
    let key = hkdf_sha256(uid.as_bytes(), master_secret, KEY_LABEL.as_bytes());
    match aes256gcm_open(key.as_slice(), nonce.as_slice(), ciphertext.as_slice()) {
        Some(plain) => match utf8_text(plain) {
            Some(s) => s,
            None => String::from_str(encrypted_data),
        },
        None => String::from_str(encrypted_data),
    }
}

} // verus!
