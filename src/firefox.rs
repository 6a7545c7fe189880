//! Firefox's `moz_cookies` table: the row shape, the normalised cookie, and
//! the mapping between them.
use vstd::prelude::*;

use crate::crypto::{KeyRing, KeyRingView};
use crate::time::{Timestamp, from_epoch_microseconds, from_epoch_seconds, micros_unix_secs};
use crate::{Cookie, CookieError, ErrorView};

verus! {

/// One row of Firefox's `moz_cookies` table, each column read by its name.
#[derive(Debug, Clone)]
pub struct FirefoxRow {
    pub id: i64,
    pub origin_attributes: String,
    pub name: String,
    pub value: String,
    pub host: String,
    pub path: String,
    pub expiry: i64,
    pub last_accessed: i64,
    pub creation_time: i64,
    pub is_secure: bool,
    pub is_http_only: bool,
    pub in_browser_element: bool,
    pub same_site: bool,
    pub raw_same_site: bool,
    pub scheme_map: bool,
}

/// A cookie of Firefox, normalised. Firefox stores values in plaintext.
#[derive(Debug, PartialEq, Eq)]
pub struct FirefoxCookie {
    pub id: u64,
    pub origin_attributes: String,
    pub name: String,
    pub value: String,
    pub host: String,
    pub path: String,
    /// `None` for a session cookie (stored expiry `0`).
    pub expiry: Option<Timestamp>,
    pub last_accessed: Timestamp,
    pub creation_time: Timestamp,
    pub is_secure: bool,
    pub is_http_only: bool,
    pub in_browser_element: bool,
    pub same_site: bool,
    pub raw_same_site: bool,
    pub scheme_map: bool,
}

/// The instant of a Firefox microsecond timestamp that is set.
pub open spec fn firefox_time(raw: i64) -> Timestamp {
    Timestamp { secs: micros_unix_secs(raw as int) as i64 }
}

/// The expiry of a Firefox cookie (seconds): `0` means a session cookie.
pub open spec fn firefox_expiry(raw: i64) -> Option<Timestamp> {
    if raw == 0 {
        None
    } else {
        Some((Timestamp { secs: raw }))
    }
}

/// Why a row cannot be mapped, checked in this order; `None` where it can.
pub open spec fn firefox_row_error(row: FirefoxRow) -> Option<ErrorView> {
    if row.last_accessed == 0 {
        Some(ErrorView::UnsetTimestamp("lastAccessed"@))
    } else if row.creation_time == 0 {
        Some(ErrorView::UnsetTimestamp("creationTime"@))
    } else {
        None
    }
}

/// The cookie that a row maps to.
pub open spec fn firefox_cookie_of(row: FirefoxRow) -> FirefoxCookie {
    FirefoxCookie {
        id: #[verifier::truncate] (row.id as u64),
        origin_attributes: row.origin_attributes,
        name: row.name,
        value: row.value,
        host: row.host,
        path: row.path,
        expiry: firefox_expiry(row.expiry),
        last_accessed: firefox_time(row.last_accessed),
        creation_time: firefox_time(row.creation_time),
        is_secure: row.is_secure,
        is_http_only: row.is_http_only,
        in_browser_element: row.in_browser_element,
        same_site: row.same_site,
        raw_same_site: row.raw_same_site,
        scheme_map: row.scheme_map,
    }
}

/// Reads a Firefox microsecond timestamp that must be set.
fn required_time(raw: i64, column: &str) -> (r: Result<Timestamp, CookieError>)
    ensures
        raw == 0 ==> (r matches Err(e) && e@ == ErrorView::UnsetTimestamp(column@)),
        raw != 0 ==> r == Ok::<Timestamp, CookieError>(firefox_time(raw)),
{
    match from_epoch_microseconds(raw) {
        Some(t) => Ok(t),
        None => Err(CookieError::UnsetTimestamp(column.to_owned())),
    }
}

impl FirefoxCookie {
    /// Maps a row of the `moz_cookies` table to a cookie. Fails where the
    /// access or creation time is `0`.
    pub fn try_from(row: FirefoxRow) -> (r: Result<FirefoxCookie, CookieError>)
        ensures
            match r {
                Ok(c) => firefox_row_error(row) is None && c == firefox_cookie_of(row),
                Err(e) => firefox_row_error(row) == Some(e@),
            },
    {
        let last_accessed = match required_time(row.last_accessed, "lastAccessed") {
            Ok(t) => t,
            Err(e) => {
                return Err(e);
            },
        };
        let creation_time = match required_time(row.creation_time, "creationTime") {
            Ok(t) => t,
            Err(e) => {
                return Err(e);
            },
        };
        Ok(FirefoxCookie {
            id: #[verifier::truncate] (row.id as u64),
            origin_attributes: row.origin_attributes,
            name: row.name,
            value: row.value,
            host: row.host,
            path: row.path,
            expiry: from_epoch_seconds(row.expiry),
            last_accessed,
            creation_time,
            is_secure: row.is_secure,
            is_http_only: row.is_http_only,
            in_browser_element: row.in_browser_element,
            same_site: row.same_site,
            raw_same_site: row.raw_same_site,
            scheme_map: row.scheme_map,
        })
    }
}

impl Cookie for FirefoxCookie {
    open spec fn name_view(&self) -> Seq<char> {
        self.name@
    }

    open spec fn value_view(&self, keys: KeyRingView) -> Result<Seq<char>, ErrorView> {
        Ok(self.value@)
    }

    proof fn lemma_secret_only_while_pending(&self, keys: KeyRingView) {
    }

    fn name(&self) -> (r: String) {
        self.name.clone()
    }

    fn value(&self, keys: &KeyRing) -> (r: Result<String, CookieError>) {
        Ok(self.value.clone())
    }
}

} // verus!
