//! Key derivation, block decryption and the version-tag dispatch for
//! Chromium's encrypted cookie values.
use vstd::prelude::*;

use aes::cipher::block_padding::{NoPadding, UnpadError};
use aes::cipher::{BlockDecryptMut, KeyIvInit};

use vstd::string::StringSliceAdditionalSpecFns;

use crate::{CookieError, ErrorView, text_result};

verus! {

/// PBKDF2 with HMAC-SHA1, stretched to a 16-byte key.
pub uninterp spec fn pbkdf2_hmac_sha1_16(password: Seq<u8>, salt: Seq<u8>, rounds: u32) -> Seq<u8>;

/// AES-128 in CBC mode, decrypting whole blocks with no padding removed.
pub uninterp spec fn aes128_cbc_plain(key: Seq<u8>, iv: Seq<u8>, data: Seq<u8>) -> Seq<u8>;

#[verifier::external_type_specification]
#[verifier::external_body]
pub struct ExUnpadError(UnpadError);

/// Relies on `pbkdf2::pbkdf2_hmac::<sha1::Sha1>`: fills a 16-byte key from the
/// password, salt and round count. HMAC accepts keys of any length, so the
/// call does not panic.
#[verifier::external_body]
fn pbkdf2_hmac_sha1(password: &[u8], salt: &[u8], rounds: u32) -> (r: [u8; 16])
    ensures
        r@ == pbkdf2_hmac_sha1_16(password@, salt@, rounds),
{
    let mut key = [0u8; 16];
    pbkdf2::pbkdf2_hmac::<sha1::Sha1>(password, salt, rounds, &mut key);
    key
}

/// Relies on `cbc::Decryptor::<aes::Aes128>::decrypt_padded_mut::<NoPadding>`:
/// it fails exactly when the input is not a whole number of 16-byte blocks,
/// and otherwise decrypts every block in place.
#[verifier::external_body]
fn aes128_cbc_decrypt(key: &[u8; 16], iv: &[u8; 16], data: &[u8]) -> (r: Result<Vec<u8>, UnpadError>)
    ensures
        r is Ok <==> data@.len() % 16 == 0,
        r matches Ok(p) ==> (p@ == aes128_cbc_plain(key@, iv@, data@) && p@.len() == data@.len()),
{
    let mut buf = data.to_vec();
    let cipher = cbc::Decryptor::<aes::Aes128>::new(key.into(), iv.into());
    let failure = match cipher.decrypt_padded_mut::<NoPadding>(&mut buf) {
        Ok(_) => None,
        Err(e) => Some(e),
    };
    match failure {
        None => Ok(buf),
        Some(e) => Err(e),
    }
}

/// Relies on `String::push`: appends one character.
#[verifier::external_body]
fn push_char(s: &mut String, c: char)
    ensures
        final(s)@ == old(s)@.push(c),
{
    s.push(c);
}

/// The salt of Chromium's key derivation on Linux: `saltysalt`.
pub open spec fn chrome_salt() -> Seq<u8> {
    seq![115u8, 97, 108, 116, 121, 115, 97, 108, 116]
}

/// The fixed password behind the `v10` key: `peanuts`.
pub open spec fn v10_password() -> Seq<u8> {
    seq![112u8, 101, 97, 110, 117, 116, 115]
}

/// Rounds of PBKDF2 that Chromium applies on Linux.
pub const PBKDF2_ROUNDS: u32 = 1;

/// The 16-byte key that Chromium derives from a password.
pub open spec fn chrome_key(password: Seq<u8>) -> Seq<u8> {
    pbkdf2_hmac_sha1_16(password, chrome_salt(), PBKDF2_ROUNDS)
}

fn salt_bytes() -> (r: [u8; 9])
    ensures
        r@ == chrome_salt(),
{
    let r = [115u8, 97, 108, 116, 121, 115, 97, 108, 116];
    assert(r@ == chrome_salt());
    r
}

/// Derives a 16-byte key from a password with Chromium's salt and round count.
pub fn pbkdf2(password: &[u8]) -> (r: [u8; 16])
    ensures
        r@ == chrome_key(password@),
{
    let salt = salt_bytes();
    pbkdf2_hmac_sha1(password, salt.as_slice(), PBKDF2_ROUNDS)
}

/// The `v10` key: derived from the fixed password `peanuts`.
pub fn get_key_v10() -> (r: [u8; 16])
    ensures
        r@ == chrome_key(v10_password()),
{
    let password = [112u8, 101, 97, 110, 117, 116, 115];
    assert(password@ == v10_password());
    pbkdf2(password.as_slice())
}


/// Largest ciphertext, tag excluded, that the block decryption accepts.
pub const MAX_CIPHERTEXT_LEN: usize = 2048;

/// The initialisation vector: sixteen spaces.
pub open spec fn space_iv() -> Seq<u8> {
    Seq::new(16, |i: int| 32u8)
}

/// Bytes read one for one as characters (Latin-1).
pub open spec fn latin1(bytes: Seq<u8>) -> Seq<char> {
    bytes.map_values(|b: u8| b as char)
}

/// Where the plaintext ends under Chromium's padding convention: the last
/// byte gives a length `p`, and the byte `p` places from the end gives the
/// length that is cut off. `None` where either points outside the buffer.
pub open spec fn padding_end(plain: Seq<u8>) -> Option<int> {
    let n = plain.len() as int;
    if n == 0 {
        None
    } else {
        let p = plain[n - 1] as int;
        if p == 0 || p > n {
            None
        } else {
            let q = plain[n - p] as int;
            if q > n {
                None
            } else {
                Some(n - q)
            }
        }
    }
}

/// What the block decryption makes of `data` under `key`.
pub open spec fn block_plaintext(key: Seq<u8>, data: Seq<u8>) -> Result<Seq<char>, ErrorView> {
    if data.len() > MAX_CIPHERTEXT_LEN || data.len() % 16 != 0 {
        Err(ErrorView::Decryption)
    } else {
        let plain = aes128_cbc_plain(key, space_iv(), data);
        match padding_end(plain) {
            Some(end) => Ok(latin1(plain.subrange(0, end))),
            None => Err(ErrorView::Decryption),
        }
    }
}

/// Standard block padding to a whole number of 16-byte blocks: `p` bytes of
/// value `p`, with `p` from 1 to 16.
pub open spec fn pkcs7_pad(plain: Seq<u8>) -> Seq<u8> {
    let p = 16 - plain.len() % 16;
    plain + Seq::new(p as nat, |i: int| p as u8)
}

/// On a plaintext padded in the standard way, Chromium's convention cuts off
/// exactly the padding.
pub proof fn lemma_padding_round_trip(plain: Seq<u8>)
    ensures
        padding_end(pkcs7_pad(plain)) == Some(plain.len() as int),
        pkcs7_pad(plain).subrange(0, plain.len() as int) == plain,
        pkcs7_pad(plain).len() % 16 == 0,
{
    let padded = pkcs7_pad(plain);
    let p = 16 - plain.len() % 16;
    assert(padded.len() == plain.len() + p);
    assert(padded[padded.len() - 1] == p as u8);
    assert(padded[padded.len() - p] == p as u8);
    assert(padded.subrange(0, plain.len() as int) =~= plain);
}

/// The cipher engine recovers a plaintext from a ciphertext whose block
/// decryption gives that plaintext padded in the standard way.
pub proof fn lemma_block_round_trip(key: Seq<u8>, data: Seq<u8>, plain: Seq<u8>)
    requires
        aes128_cbc_plain(key, space_iv(), data) == pkcs7_pad(plain),
        data.len() == pkcs7_pad(plain).len(),
        data.len() <= MAX_CIPHERTEXT_LEN,
    ensures
        block_plaintext(key, data) == Ok::<Seq<char>, ErrorView>(latin1(plain)),
{
    lemma_padding_round_trip(plain);
}

/// The per-machine (`v11`) key, as far as it has been fetched.
#[derive(Debug)]
pub enum V11Key {
    /// The secret store has not been asked yet.
    Pending,
    /// The key derived from the secret that the store gave.
    Ready([u8; 16]),
    /// The store was asked and gave nothing.
    Unavailable,
}

/// The mathematical content of a [`V11Key`].
pub enum V11View {
    Pending,
    Ready(Seq<u8>),
    Unavailable,
}

/// The keys that Chromium's cookie values are encrypted with. The `v11` key
/// is filled in once, from the secret store, and never changes after that.
#[derive(Debug)]
pub struct KeyRing {
    v10: [u8; 16],
    v11: V11Key,
}

/// The mathematical content of a [`KeyRing`].
pub struct KeyRingView {
    pub v10: Seq<u8>,
    pub v11: V11View,
}

impl View for KeyRing {
    type V = KeyRingView;

    closed spec fn view(&self) -> KeyRingView {
        KeyRingView {
            v10: self.v10@,
            v11: match self.v11 {
                V11Key::Pending => V11View::Pending,
                V11Key::Ready(k) => V11View::Ready(k@),
                V11Key::Unavailable => V11View::Unavailable,
            },
        }
    }
}

/// The `v11` state after the secret store answered with `secret`.
pub open spec fn v11_from_secret(secret: Option<Seq<u8>>) -> V11View {
    match secret {
        Some(s) => V11View::Ready(chrome_key(s)),
        None => V11View::Unavailable,
    }
}

impl KeyRing {
    /// A key ring with the `v10` key derived and the `v11` key not yet fetched.
    pub fn new() -> (r: KeyRing)
        ensures
            r@.v10 == chrome_key(v10_password()),
            r@.v11 is Pending,
    {
        KeyRing { v10: get_key_v10(), v11: V11Key::Pending }
    }

    /// Whether the secret store still has to be asked for the `v11` secret.
    pub fn v11_pending(&self) -> (r: bool)
        ensures
            r == (self@.v11 is Pending),
    {
        match self.v11 {
            V11Key::Pending => true,
            _ => false,
        }
    }

    /// Takes the secret store's answer (`None`: unreachable or no match).
    /// Only the first answer counts: once the store has been asked, the ring
    /// keeps what it has.
    pub fn accept_v11_secret(&mut self, secret: Option<&str>)
        ensures
            final(self)@.v10 == old(self)@.v10,
            !(old(self)@.v11 is Pending) ==> final(self)@.v11 == old(self)@.v11,
            old(self)@.v11 is Pending ==> final(self)@.v11 == v11_from_secret(
                match secret {
                    Some(s) => Some(s.spec_bytes()),
                    None => None,
                },
            ),
    {
        match self.v11 {
            V11Key::Pending => {},
            _ => return ,
        }
        match secret {
            Some(s) => {
                let key = pbkdf2(s.as_bytes());
                self.v11 = V11Key::Ready(key);
            },
            None => {
                self.v11 = V11Key::Unavailable;
            },
        }
    }
}

/// The first three bytes of a ciphertext.
pub open spec fn version_tag(ct: Seq<u8>) -> Seq<u8> {
    ct.subrange(0, 3)
}

/// `v10`
pub open spec fn v10_tag() -> Seq<u8> {
    seq![118u8, 49, 48]
}

/// `v11`
pub open spec fn v11_tag() -> Seq<u8> {
    seq![118u8, 49, 49]
}

/// What decrypting the ciphertext `ct` of the cookie `name` gives with `keys`.
pub open spec fn decrypt_spec(name: Seq<char>, ct: Seq<u8>, keys: KeyRingView) -> Result<
    Seq<char>,
    ErrorView,
> {
    if ct.len() == 0 {
        Err(ErrorView::NoValue(name))
    } else if ct.len() < 3 {
        Err(ErrorView::NotEncrypted(name))
    } else {
        let data = ct.subrange(3, ct.len() as int);
        if version_tag(ct) == v10_tag() {
            block_plaintext(keys.v10, data)
        } else if version_tag(ct) == v11_tag() {
            match keys.v11 {
                V11View::Ready(k) => block_plaintext(k, data),
                V11View::Unavailable => Err(ErrorView::LibSecret),
                V11View::Pending => Err(ErrorView::SecretNotLoaded),
            }
        } else {
            Err(ErrorView::ChromeUnsupportedEncryption(latin1(version_tag(ct))))
        }
    }
}

fn space_iv_bytes() -> (r: [u8; 16])
    ensures
        r@ == space_iv(),
{
    let r = [32u8; 16];
    assert(r@ =~= space_iv());
    r
}

/// Reads the first `end` bytes one for one as characters.
fn latin1_decode(bytes: &[u8], end: usize) -> (r: String)
    requires
        end <= bytes@.len(),
    ensures
        r@ == latin1(bytes@.subrange(0, end as int)),
{
    let mut r = String::new();
    let mut i: usize = 0;
    while i < end
        invariant
            i <= end <= bytes@.len(),
            r@ == latin1(bytes@.subrange(0, i as int)),
        decreases end - i,
    {
        push_char(&mut r, bytes[i] as char);
        i = i + 1;
        assert(latin1(bytes@.subrange(0, i as int)) =~= latin1(bytes@.subrange(0, (i - 1) as int)).push(
            bytes@[i - 1] as char,
        ));
    }
    r
}

/// Where the plaintext ends in a decrypted buffer (see [`padding_end`]).
fn trim_padding(pt: &Vec<u8>) -> (r: Option<usize>)
    ensures
        match r {
            Some(end) => padding_end(pt@) == Some(end as int),
            None => padding_end(pt@) is None,
        },
{
    let n = pt.len();
    if n == 0 {
        return None;
    }
    let padding = pt[n - 1] as usize;
    if padding == 0 || padding > n {
        return None;
    }
    let cut = pt[n - padding] as usize;
    if cut > n {
        return None;
    }
    Some(n - cut)
}

/// Decrypts `data` (tag excluded) with `key` and strips Chromium's padding.
pub fn chrome_decrypt(key: &[u8; 16], data: &[u8]) -> (r: Result<String, CookieError>)
    ensures
        text_result(r) == block_plaintext(key@, data@),
{
    if data.len() > MAX_CIPHERTEXT_LEN {
        return Err(CookieError::Decryption);
    }
    let iv = space_iv_bytes();
    let plain = match aes128_cbc_decrypt(key, &iv, data) {
        Ok(p) => p,
        Err(_) => {
            return Err(CookieError::Decryption);
        },
    };
    match trim_padding(&plain) {
        Some(end) => Ok(latin1_decode(plain.as_slice(), end)),
        None => Err(CookieError::Decryption),
    }
}

impl KeyRing {
    /// Decrypts the ciphertext `ct` of the cookie `name`: picks the key by
    /// the version tag, then runs the cipher engine.
    pub fn decrypt(&self, name: &String, ct: &[u8]) -> (r: Result<String, CookieError>)
        ensures
            text_result(r) == decrypt_spec(name@, ct@, self@),
    {
        let n = ct.len();
        if n == 0 {
            return Err(CookieError::NoValue(name.clone()));
        }
        if n < 3 {
            return Err(CookieError::NotEncrypted(name.clone()));
        }
        let (_tag, data) = ct.split_at(3);
        let is_v1 = ct[0] == 118 && ct[1] == 49;
        proof {
            assert(version_tag(ct@) =~= seq![ct@[0], ct@[1], ct@[2]]);
        }
        if is_v1 && ct[2] == 48 {
            assert(version_tag(ct@) =~= v10_tag());
            chrome_decrypt(&self.v10, data)
        } else if is_v1 && ct[2] == 49 {
            assert(version_tag(ct@) =~= v11_tag());
            match &self.v11 {
                V11Key::Ready(k) => chrome_decrypt(k, data),
                V11Key::Unavailable => Err(CookieError::LibSecret),
                V11Key::Pending => Err(CookieError::SecretNotLoaded),
            }
        } else {
            assert(version_tag(ct@) != v10_tag() && version_tag(ct@) != v11_tag()) by {
                if version_tag(ct@) == v10_tag() {
                    assert(version_tag(ct@)[2] == v10_tag()[2]);
                }
                if version_tag(ct@) == v11_tag() {
                    assert(version_tag(ct@)[2] == v11_tag()[2]);
                }
            }
            Err(CookieError::ChromeUnsupportedEncryption(latin1_decode(ct, 3)))
        }
    }
}

/// Once the secret store has been asked, decryption never asks for it again:
/// only a ring whose `v11` key is still pending reports `SecretNotLoaded`.
pub proof fn lemma_secret_requested_once(name: Seq<char>, ct: Seq<u8>, keys: KeyRingView)
    requires
        !(keys.v11 is Pending),
    ensures
        decrypt_spec(name, ct, keys) != Err::<Seq<char>, ErrorView>(ErrorView::SecretNotLoaded),
{
}

/// A ring that has taken the store's answer is no longer pending, whatever
/// the answer was, so no later decryption asks the store again.
pub proof fn lemma_answer_ends_pending(secret: Option<Seq<u8>>)
    ensures
        !(v11_from_secret(secret) is Pending),
{
}

} // verus!
