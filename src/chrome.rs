//! Chromium's `cookies` table: the row shape, the normalised cookie, and the
//! mapping between them.
use vstd::prelude::*;

use crate::crypto::{KeyRing, KeyRingView, decrypt_spec};
use crate::time::{Timestamp, chrome_unix_secs, from_epoch};
use crate::{Cookie, CookieError, ErrorView, text_result};

verus! {

/// Where a cookie may be sent from, as Chromium stores it.
#[derive(Debug, Clone, Copy, PartialEq, Eq, Structural)]
pub enum CookieSourceScheme {
    Unset,
    NonSecure,
    Secure,
    /// A stored value that this library does not know (the raw value).
    Other(i64),
}

impl CookieSourceScheme {
    pub open spec fn spec_from_raw(raw: i64) -> CookieSourceScheme {
        if raw == 0 {
            CookieSourceScheme::Unset
        } else if raw == 1 {
            CookieSourceScheme::NonSecure
        } else if raw == 2 {
            CookieSourceScheme::Secure
        } else {
            CookieSourceScheme::Other(raw)
        }
    }

    /// Reads the stored integer; values not known are kept as `Other`.
    pub fn from_raw(raw: i64) -> (r: CookieSourceScheme)
        ensures
            r == CookieSourceScheme::spec_from_raw(raw),
    {
        if raw == 0 {
            CookieSourceScheme::Unset
        } else if raw == 1 {
            CookieSourceScheme::NonSecure
        } else if raw == 2 {
            CookieSourceScheme::Secure
        } else {
            CookieSourceScheme::Other(raw)
        }
    }
}

/// The same-site restriction of a cookie, as Chromium stores it.
#[derive(Debug, Clone, Copy, PartialEq, Eq, Structural)]
pub enum CookieSameSite {
    Unspecified,
    NoRestriction,
    LaxMode,
    StrictMode,
    /// A stored value that this library does not know (the raw value).
    Other(i64),
}

impl CookieSameSite {
    pub open spec fn spec_from_raw(raw: i64) -> CookieSameSite {
        if raw == -1 {
            CookieSameSite::Unspecified
        } else if raw == 0 {
            CookieSameSite::NoRestriction
        } else if raw == 1 {
            CookieSameSite::LaxMode
        } else if raw == 2 {
            CookieSameSite::StrictMode
        } else {
            CookieSameSite::Other(raw)
        }
    }

    /// Reads the stored integer; values not known are kept as `Other`.
    pub fn from_raw(raw: i64) -> (r: CookieSameSite)
        ensures
            r == CookieSameSite::spec_from_raw(raw),
    {
        if raw == -1 {
            CookieSameSite::Unspecified
        } else if raw == 0 {
            CookieSameSite::NoRestriction
        } else if raw == 1 {
            CookieSameSite::LaxMode
        } else if raw == 2 {
            CookieSameSite::StrictMode
        } else {
            CookieSameSite::Other(raw)
        }
    }
}

/// One row of Chromium's `cookies` table, each column read by its name.
#[derive(Debug, Clone)]
pub struct ChromeRow {
    pub creation_utc: i64,
    pub host_key: String,
    pub name: String,
    pub value: String,
    pub encrypted_value: Vec<u8>,
    pub path: String,
    pub expires_utc: i64,
    pub is_secure: bool,
    pub is_httponly: bool,
    pub last_access_utc: i64,
    pub has_expires: bool,
    pub is_persistent: bool,
    pub priority: i64,
    pub samesite: i64,
    pub source_scheme: i64,
    pub source_port: i64,
    pub is_same_party: bool,
    pub last_update_utc: i64,
}

/// A cookie of Chromium, normalised.
#[derive(Debug)]
pub struct ChromeCookie {
    pub name: String,
    pub host_key: String,
    pub path: String,
    /// The plaintext value; `None` where the value is stored encrypted.
    pub value: Option<String>,
    pub encrypted_value: Vec<u8>,
    pub creation_utc: Timestamp,
    pub last_access_utc: Timestamp,
    pub last_update_utc: Timestamp,
    pub has_expires: bool,
    pub expires_utc: Option<Timestamp>,
    pub source_port: u32,
    pub is_secure: bool,
    pub is_httponly: bool,
    pub is_persistent: bool,
    pub is_same_party: bool,
    pub priority: i64,
    pub samesite: CookieSameSite,
    pub source_scheme: CookieSourceScheme,
}

/// The instant of a Chromium timestamp that is set.
pub open spec fn chrome_time(raw: i64) -> Timestamp {
    Timestamp { secs: chrome_unix_secs(raw as int) as i64 }
}

/// The expiry of a Chromium cookie: `0` means none.
pub open spec fn chrome_expiry(raw: i64) -> Option<Timestamp> {
    if raw == 0 {
        None
    } else {
        Some(chrome_time(raw))
    }
}

/// Why a row cannot be mapped, checked in this order; `None` where it can.
pub open spec fn chrome_row_error(row: ChromeRow) -> Option<ErrorView> {
    if row.creation_utc == 0 {
        Some(ErrorView::UnsetTimestamp("creation_utc"@))
    } else if row.last_access_utc == 0 {
        Some(ErrorView::UnsetTimestamp("last_access_utc"@))
    } else if row.last_update_utc == 0 {
        Some(ErrorView::UnsetTimestamp("last_update_utc"@))
    } else if row.has_expires != (row.expires_utc != 0) {
        Some(ErrorView::ExpiryMismatch(row.name@))
    } else {
        None
    }
}

/// The cookie that a row maps to: an empty `value` means that the value is
/// stored encrypted.
pub open spec fn chrome_cookie_of(row: ChromeRow) -> ChromeCookie {
    ChromeCookie {
        name: row.name,
        host_key: row.host_key,
        path: row.path,
        value: if row.value@.len() == 0 {
            None
        } else {
            Some(row.value)
        },
        encrypted_value: row.encrypted_value,
        creation_utc: chrome_time(row.creation_utc),
        last_access_utc: chrome_time(row.last_access_utc),
        last_update_utc: chrome_time(row.last_update_utc),
        has_expires: row.has_expires,
        expires_utc: chrome_expiry(row.expires_utc),
        source_port: #[verifier::truncate] (row.source_port as u32),
        is_secure: row.is_secure,
        is_httponly: row.is_httponly,
        is_persistent: row.is_persistent,
        is_same_party: row.is_same_party,
        priority: row.priority,
        samesite: CookieSameSite::spec_from_raw(row.samesite),
        source_scheme: CookieSourceScheme::spec_from_raw(row.source_scheme),
    }
}

/// The value of a Chromium cookie: the plaintext where one is stored, else
/// the decrypted ciphertext; no ciphertext at all reads as the empty value.
pub open spec fn chrome_value(c: ChromeCookie, keys: KeyRingView) -> Result<Seq<char>, ErrorView> {
    match c.value {
        Some(v) => Ok(v@),
        None => match decrypt_spec(c.name@, c.encrypted_value@, keys) {
            Err(ErrorView::NoValue(_)) => Ok(Seq::empty()),
            other => other,
        },
    }
}

/// Reads a Chromium timestamp that must be set.
fn required_time(raw: i64, column: &str) -> (r: Result<Timestamp, CookieError>)
    ensures
        raw == 0 ==> (r matches Err(e) && e@ == ErrorView::UnsetTimestamp(column@)),
        raw != 0 ==> r == Ok::<Timestamp, CookieError>(chrome_time(raw)),
{
    match from_epoch(raw) {
        Some(t) => Ok(t),
        None => Err(CookieError::UnsetTimestamp(column.to_owned())),
    }
}

impl ChromeCookie {
    /// Maps a row of the `cookies` table to a cookie. Fails where a time that
    /// must be set is `0`, or where `has_expires` disagrees with the expiry.
    pub fn try_from(row: ChromeRow) -> (r: Result<ChromeCookie, CookieError>)
        ensures
            match r {
                Ok(c) => chrome_row_error(row) is None && c == chrome_cookie_of(row),
                Err(e) => chrome_row_error(row) == Some(e@),
            },
            r matches Ok(c) ==> c.has_expires == c.expires_utc is Some,
    {
        let creation_utc = match required_time(row.creation_utc, "creation_utc") {
            Ok(t) => t,
            Err(e) => {
                return Err(e);
            },
        };
        let last_access_utc = match required_time(row.last_access_utc, "last_access_utc") {
            Ok(t) => t,
            Err(e) => {
                return Err(e);
            },
        };
        let last_update_utc = match required_time(row.last_update_utc, "last_update_utc") {
            Ok(t) => t,
            Err(e) => {
                return Err(e);
            },
        };
        let expires_utc = from_epoch(row.expires_utc);
        let has_expiry = match expires_utc {
            Some(_) => true,
            None => false,
        };
        if row.has_expires != has_expiry {
            return Err(CookieError::ExpiryMismatch(row.name));
        }
        let value = if row.value.as_str().is_empty() {
            None
        } else {
            Some(row.value)
        };
        Ok(ChromeCookie {
            name: row.name,
            host_key: row.host_key,
            path: row.path,
            value,
            encrypted_value: row.encrypted_value,
            creation_utc,
            last_access_utc,
            last_update_utc,
            has_expires: row.has_expires,
            expires_utc,
            source_port: #[verifier::truncate] (row.source_port as u32),
            is_secure: row.is_secure,
            is_httponly: row.is_httponly,
            is_persistent: row.is_persistent,
            is_same_party: row.is_same_party,
            priority: row.priority,
            samesite: CookieSameSite::from_raw(row.samesite),
            source_scheme: CookieSourceScheme::from_raw(row.source_scheme),
        })
    }

    /// Decrypts the stored ciphertext with the key its version tag selects.
    pub fn decrypt(&self, keys: &KeyRing) -> (r: Result<String, CookieError>)
        ensures
            text_result(r) == decrypt_spec(self.name@, self.encrypted_value@, keys@),
    {
        keys.decrypt(&self.name, self.encrypted_value.as_slice())
    }
}

/// A mapped cookie has an expiry exactly when its `has_expires` flag is set.
pub proof fn lemma_mapped_expiry_flag(row: ChromeRow)
    requires
        chrome_row_error(row) is None,
    ensures
        chrome_cookie_of(row).has_expires == chrome_cookie_of(row).expires_utc is Some,
{
}

/// A row whose `has_expires` flag disagrees with its expiry never maps.
pub proof fn lemma_expiry_mismatch_rejected(row: ChromeRow)
    requires
        row.has_expires != (row.expires_utc != 0),
    ensures
        chrome_row_error(row) is Some,
{
}

impl Cookie for ChromeCookie {
    open spec fn name_view(&self) -> Seq<char> {
        self.name@
    }

    open spec fn value_view(&self, keys: KeyRingView) -> Result<Seq<char>, ErrorView> {
        chrome_value(*self, keys)
    }

    proof fn lemma_secret_only_while_pending(&self, keys: KeyRingView) {
    }

    fn name(&self) -> (r: String) {
        self.name.clone()
    }

    fn value(&self, keys: &KeyRing) -> (r: Result<String, CookieError>) {
        match &self.value {
            Some(v) => Ok(v.clone()),
            None => match self.decrypt(keys) {
                Err(CookieError::NoValue(_)) => Ok(String::new()),
                other => other,
            },
        }
    }
}

} // verus!
