use aes::cipher::block_padding::NoPadding;
use aes::cipher::{BlockEncryptMut, KeyIvInit};
use xbrowser::crypto::{chrome_decrypt, get_key_v10, pbkdf2, KeyRing};
use xbrowser::CookieError;

const V10_KEY: [u8; 16] = [253, 98, 31, 229, 162, 180, 2, 83, 157, 250, 20, 124, 169, 39, 39, 120];

fn pad(plain: &[u8]) -> Vec<u8> {
    let p = 16 - plain.len() % 16;
    let mut v = plain.to_vec();
    v.extend(std::iter::repeat(p as u8).take(p));
    v
}

fn encrypt(key: &[u8; 16], padded: &[u8]) -> Vec<u8> {
    let mut buf = padded.to_vec();
    let n = buf.len();
    cbc::Encryptor::<aes::Aes128>::new(key.into(), &[b' '; 16].into())
        .encrypt_padded_mut::<NoPadding>(&mut buf, n)
        .unwrap();
    buf
}

fn tagged(tag: &[u8], body: &[u8]) -> Vec<u8> {
    let mut v = tag.to_vec();
    v.extend_from_slice(body);
    v
}

fn plaintext(len: usize) -> Vec<u8> {
    (0..len).map(|i| b'a' + (i % 26) as u8).collect()
}

#[test]
fn v10_key_is_deterministic() {
    assert_eq!(get_key_v10(), V10_KEY);
    assert_eq!(get_key_v10(), get_key_v10());
    assert_eq!(pbkdf2(b"peanuts"), V10_KEY);
    assert_ne!(pbkdf2(b"peanutz"), V10_KEY);
}

#[test]
fn empty_ciphertext_is_no_value() {
    let keys = KeyRing::new();
    let r = keys.decrypt(&"sid".to_string(), &[]);
    assert_eq!(r, Err(CookieError::NoValue("sid".to_string())));
}

#[test]
fn short_ciphertext_is_not_encrypted() {
    let keys = KeyRing::new();
    let name = "sid".to_string();
    assert_eq!(keys.decrypt(&name, b"v"), Err(CookieError::NotEncrypted("sid".to_string())));
    assert_eq!(keys.decrypt(&name, b"v1"), Err(CookieError::NotEncrypted("sid".to_string())));
}

#[test]
fn unknown_tag_is_unsupported() {
    let keys = KeyRing::new();
    let name = "sid".to_string();
    let r = keys.decrypt(&name, &tagged(b"v99", &[0u8; 16]));
    assert_eq!(r, Err(CookieError::ChromeUnsupportedEncryption("v99".to_string())));
    let r = keys.decrypt(&name, &[0xE9, b'1', b'0']);
    assert_eq!(r, Err(CookieError::ChromeUnsupportedEncryption("\u{e9}10".to_string())));
}

#[test]
fn v10_round_trip_at_block_boundaries() {
    let keys = KeyRing::new();
    let name = "sid".to_string();
    for len in [0usize, 15, 16, 37] {
        let plain = plaintext(len);
        let ct = encrypt(&V10_KEY, &pad(&plain));
        assert_ne!(ct, pad(&plain));
        let expected: String = plain.iter().map(|b| *b as char).collect();
        assert_eq!(chrome_decrypt(&V10_KEY, &ct), Ok(expected.clone()));
        assert_eq!(keys.decrypt(&name, &tagged(b"v10", &ct)), Ok(expected));
    }
}

#[test]
fn decrypted_bytes_are_read_as_latin1() {
    let plain = [0x63u8, 0xE9, 0xFF, 0x00];
    let ct = encrypt(&V10_KEY, &pad(&plain));
    assert_eq!(chrome_decrypt(&V10_KEY, &ct), Ok("c\u{e9}\u{ff}\u{0}".to_string()));
}

#[test]
fn ragged_ciphertext_fails() {
    let keys = KeyRing::new();
    let name = "sid".to_string();
    assert_eq!(keys.decrypt(&name, &tagged(b"v10", &[1, 2, 3, 4, 5])), Err(CookieError::Decryption));
    assert_eq!(keys.decrypt(&name, b"v10"), Err(CookieError::Decryption));
}

#[test]
fn oversized_ciphertext_fails() {
    let plain = plaintext(2048);
    let ct = encrypt(&V10_KEY, &pad(&plain));
    assert_eq!(ct.len(), 2064);
    assert_eq!(chrome_decrypt(&V10_KEY, &ct), Err(CookieError::Decryption));
    let plain = plaintext(2047);
    let ct = encrypt(&V10_KEY, &pad(&plain));
    assert_eq!(ct.len(), 2048);
    assert!(chrome_decrypt(&V10_KEY, &ct).is_ok());
}

#[test]
fn malformed_padding_fails() {
    let mut block = [b'x'; 16];
    block[15] = 0;
    let ct = encrypt(&V10_KEY, &block);
    assert_eq!(chrome_decrypt(&V10_KEY, &ct), Err(CookieError::Decryption));
    block[15] = 17;
    let ct = encrypt(&V10_KEY, &block);
    assert_eq!(chrome_decrypt(&V10_KEY, &ct), Err(CookieError::Decryption));
}

#[test]
fn padding_reads_second_length() {
    // last byte 2 points at a byte 5: five bytes are cut, not two.
    let mut block = [b'k'; 16];
    block[14] = 5;
    block[15] = 2;
    let ct = encrypt(&V10_KEY, &block);
    assert_eq!(chrome_decrypt(&V10_KEY, &ct), Ok("kkkkkkkkkkk".to_string()));
}

#[test]
fn v11_needs_the_secret() {
    let mut keys = KeyRing::new();
    let name = "sid".to_string();
    let ct = tagged(b"v11", &encrypt(&pbkdf2(b"hunter2"), &pad(b"token")));
    assert!(keys.v11_pending());
    assert_eq!(keys.decrypt(&name, &ct), Err(CookieError::SecretNotLoaded));
    keys.accept_v11_secret(Some("hunter2"));
    assert!(!keys.v11_pending());
    assert_eq!(keys.decrypt(&name, &ct), Ok("token".to_string()));
}

#[test]
fn v11_store_without_secret() {
    let mut keys = KeyRing::new();
    let name = "sid".to_string();
    let ct = tagged(b"v11", &encrypt(&pbkdf2(b"hunter2"), &pad(b"token")));
    keys.accept_v11_secret(None);
    assert_eq!(keys.decrypt(&name, &ct), Err(CookieError::LibSecret));
    keys.accept_v11_secret(Some("hunter2"));
    assert_eq!(keys.decrypt(&name, &ct), Err(CookieError::LibSecret));
}

#[test]
fn v11_secret_is_requested_once() {
    let mut keys = KeyRing::new();
    let name = "sid".to_string();
    let ct = tagged(b"v11", &encrypt(&pbkdf2(b"hunter2"), &pad(b"token")));
    let mut lookups = 0;
    for _ in 0..5 {
        let mut r = keys.decrypt(&name, &ct);
        if r == Err(CookieError::SecretNotLoaded) {
            lookups += 1;
            keys.accept_v11_secret(Some("hunter2"));
            r = keys.decrypt(&name, &ct);
        }
        assert_eq!(r, Ok("token".to_string()));
    }
    assert_eq!(lookups, 1);
    keys.accept_v11_secret(Some("other"));
    assert_eq!(keys.decrypt(&name, &ct), Ok("token".to_string()));
}
