//! Decryption and normalisation of the cookies that Chromium and Firefox keep
//! in their profile databases.
use vstd::prelude::*;

pub mod time;
pub mod crypto;
pub mod chrome;
pub mod firefox;
pub mod cookiejar;

use crate::crypto::{KeyRing, KeyRingView};

verus! {

/// Why a cookie could not be read, mapped or decrypted.
#[derive(Debug, Clone, PartialEq, Eq)]
pub enum CookieError {
    /// The ciphertext is too short to hold a version tag (cookie name).
    NotEncrypted(String),
    /// There is no ciphertext at all (cookie name).
    NoValue(String),
    /// The cipher failed, or the plaintext's padding is malformed.
    Decryption,
    /// The ciphertext carries a version tag that is not known (the tag).
    ChromeUnsupportedEncryption(String),
    /// The secret store could not be reached or held no matching secret.
    LibSecret,
    /// The per-machine key is needed and has not been fetched yet.
    SecretNotLoaded,
    /// The row source could not deliver a column (column, reason).
    Column(String, String),
    /// A column that must hold a time holds the unset value `0` (column).
    UnsetTimestamp(String),
    /// `has_expires` disagrees with the presence of an expiry (cookie name).
    ExpiryMismatch(String),
}

/// The mathematical content of a [`CookieError`].
pub enum ErrorView {
    NotEncrypted(Seq<char>),
    NoValue(Seq<char>),
    Decryption,
    ChromeUnsupportedEncryption(Seq<char>),
    LibSecret,
    SecretNotLoaded,
    Column(Seq<char>, Seq<char>),
    UnsetTimestamp(Seq<char>),
    ExpiryMismatch(Seq<char>),
}

impl View for CookieError {
    type V = ErrorView;

    open spec fn view(&self) -> ErrorView {
        match self {
            CookieError::NotEncrypted(n) => ErrorView::NotEncrypted(n@),
            CookieError::NoValue(n) => ErrorView::NoValue(n@),
            CookieError::Decryption => ErrorView::Decryption,
            CookieError::ChromeUnsupportedEncryption(t) => ErrorView::ChromeUnsupportedEncryption(t@),
            CookieError::LibSecret => ErrorView::LibSecret,
            CookieError::SecretNotLoaded => ErrorView::SecretNotLoaded,
            CookieError::Column(c, w) => ErrorView::Column(c@, w@),
            CookieError::UnsetTimestamp(c) => ErrorView::UnsetTimestamp(c@),
            CookieError::ExpiryMismatch(n) => ErrorView::ExpiryMismatch(n@),
        }
    }
}

/// A textual result seen through the views of its text and its error.
pub open spec fn text_result(r: Result<String, CookieError>) -> Result<Seq<char>, ErrorView> {
    match r {
        Ok(s) => Ok(s@),
        Err(e) => Err(e@),
    }
}

/// Operating system that wrote a browser profile.
#[derive(Debug, Clone, Copy, PartialEq, Eq, Structural)]
pub enum Os {
    Win,
    Linux,
    Osx,
}

/// Browser that wrote a profile.
#[derive(Debug, Clone, Copy, PartialEq, Eq, Structural)]
pub enum Browser {
    Chrome,
    Chromium,
    Firefox,
    Safari,
}

/// Whose profile is read, and how it was written.
#[derive(Debug, Clone)]
pub struct Env {
    pub os: Os,
    pub browser: Browser,
    pub user: String,
}

impl Env {
    /// The user's home directory, `/home/<user>`: only its place on Linux
    /// is known.
    pub fn path_home(&self) -> (r: String)
        requires
            self.os == Os::Linux,
        ensures
            r@ == "/home/"@ + self.user@,
    {
        let mut home = "/home/".to_owned();
        home.append(self.user.as_str());
        home
    }
}

/// What Chromium and Firefox cookies share: a name and a value.
pub trait Cookie {
    /// The cookie's name.
    spec fn name_view(&self) -> Seq<char>;

    /// The cookie's value, read with `keys` where it is encrypted.
    spec fn value_view(&self, keys: KeyRingView) -> Result<Seq<char>, ErrorView>;

    /// A value asks for the per-machine key only while that key is not fetched.
    proof fn lemma_secret_only_while_pending(&self, keys: KeyRingView)
        ensures
            self.value_view(keys) == Err::<Seq<char>, ErrorView>(ErrorView::SecretNotLoaded)
                ==> keys.v11 is Pending,
    ;

    /// The cookie's name, copied.
    fn name(&self) -> (r: String)
        ensures
            r@ == self.name_view(),
    ;

    /// The cookie's value, decrypted with `keys` where it is stored encrypted.
    fn value(&self, keys: &KeyRing) -> (r: Result<String, CookieError>)
        ensures
            text_result(r) == self.value_view(keys@),
    ;
}

} // verus!
