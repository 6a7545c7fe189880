use aes::cipher::block_padding::NoPadding;
use aes::cipher::{BlockEncryptMut, KeyIvInit};
use xbrowser::chrome::{ChromeCookie, ChromeRow};
use xbrowser::cookiejar::CookieJar;
use xbrowser::crypto::{pbkdf2, KeyRing};
use xbrowser::firefox::{FirefoxCookie, FirefoxRow};
use xbrowser::CookieError;

fn firefox(name: &str, value: &str) -> FirefoxCookie {
    FirefoxCookie::try_from(FirefoxRow {
        id: 1,
        origin_attributes: String::new(),
        name: name.to_string(),
        value: value.to_string(),
        host: "example.com".to_string(),
        path: "/".to_string(),
        expiry: 0,
        last_accessed: 1_000_000,
        creation_time: 1_000_000,
        is_secure: false,
        is_http_only: false,
        in_browser_element: false,
        same_site: false,
        raw_same_site: false,
        scheme_map: false,
    })
    .unwrap()
}

fn chrome(name: &str, value: &str, encrypted: Vec<u8>) -> ChromeCookie {
    ChromeCookie::try_from(ChromeRow {
        creation_utc: 13_222_310_400_000_000,
        host_key: "example.com".to_string(),
        name: name.to_string(),
        value: value.to_string(),
        encrypted_value: encrypted,
        path: "/".to_string(),
        expires_utc: 0,
        is_secure: false,
        is_httponly: false,
        last_access_utc: 13_222_310_400_000_000,
        has_expires: false,
        is_persistent: false,
        priority: 1,
        samesite: -1,
        source_scheme: 0,
        source_port: 80,
        is_same_party: false,
        last_update_utc: 13_222_310_400_000_000,
    })
    .unwrap()
}

fn v11_token(password: &[u8], plain: &[u8]) -> Vec<u8> {
    let p = 16 - plain.len() % 16;
    let mut buf = plain.to_vec();
    buf.extend(std::iter::repeat(p as u8).take(p));
    let n = buf.len();
    cbc::Encryptor::<aes::Aes128>::new(&pbkdf2(password).into(), &[b' '; 16].into())
        .encrypt_padded_mut::<NoPadding>(&mut buf, n)
        .unwrap();
    let mut ct = b"v11".to_vec();
    ct.extend_from_slice(&buf);
    ct
}

#[test]
fn empty_jar_renders_empty() {
    let jar: CookieJar<FirefoxCookie> = CookieJar::new();
    assert_eq!(jar.len(), 0);
    assert_eq!(jar.render_header(&KeyRing::new()), Ok(String::new()));
}

#[test]
fn jar_renders_sorted_by_name() {
    let mut jar = CookieJar::new();
    jar.add_cookie("b".to_string(), Box::new(firefox("b", "2")));
    jar.add_cookie("a".to_string(), Box::new(firefox("a", "1")));
    assert_eq!(jar.render_header(&KeyRing::new()), Ok("a=1; b=2".to_string()));
}

#[test]
fn single_cookie_has_no_separator() {
    let mut jar = CookieJar::new();
    jar.add_cookie("only".to_string(), Box::new(firefox("only", "x")));
    assert_eq!(jar.render_header(&KeyRing::new()), Ok("only=x".to_string()));
}

#[test]
fn readding_a_name_replaces() {
    let mut jar = CookieJar::new();
    jar.add_cookie("a".to_string(), Box::new(firefox("a", "1")));
    jar.add_cookie("b".to_string(), Box::new(firefox("b", "2")));
    jar.add_cookie("a".to_string(), Box::new(firefox("a", "3")));
    assert_eq!(jar.len(), 2);
    assert_eq!(jar.get("a").unwrap().value, "3");
    assert!(jar.get("c").is_none());
    assert_eq!(jar.render_header(&KeyRing::new()), Ok("a=3; b=2".to_string()));
}

#[test]
fn order_is_by_code_point() {
    let mut jar = CookieJar::new();
    for name in ["b", "a", "B", "\u{e9}", "ab", "A"] {
        jar.add_cookie(name.to_string(), Box::new(firefox(name, "v")));
    }
    assert_eq!(
        jar.render_header(&KeyRing::new()),
        Ok("A=v; B=v; a=v; ab=v; b=v; \u{e9}=v".to_string())
    );
}

#[test]
fn undecryptable_value_renders_empty() {
    let mut jar = CookieJar::new();
    jar.add_cookie("a".to_string(), Box::new(chrome("a", "", b"v10abc".to_vec())));
    jar.add_cookie("b".to_string(), Box::new(chrome("b", "2", Vec::new())));
    jar.add_cookie("c".to_string(), Box::new(chrome("c", "", Vec::new())));
    assert_eq!(jar.render_header(&KeyRing::new()), Ok("a=; b=2; c=".to_string()));
}

#[test]
fn render_asks_for_the_secret_once() {
    let mut jar = CookieJar::new();
    jar.add_cookie("a".to_string(), Box::new(chrome("a", "", v11_token(b"s3cret", b"one"))));
    jar.add_cookie("b".to_string(), Box::new(chrome("b", "", v11_token(b"s3cret", b"two"))));
    let mut keys = KeyRing::new();
    let mut lookups = 0;
    let text = loop {
        match jar.render_header(&keys) {
            Ok(s) => break s,
            Err(e) => {
                assert_eq!(e, CookieError::SecretNotLoaded);
                lookups += 1;
                keys.accept_v11_secret(Some("s3cret"));
            }
        }
    };
    assert_eq!(text, "a=one; b=two");
    assert_eq!(lookups, 1);
    assert_eq!(jar.render_header(&keys), Ok("a=one; b=two".to_string()));
}

#[test]
fn names_are_sorted_and_unique() {
    let mut jar: CookieJar<FirefoxCookie> = CookieJar::default();
    for name in ["z", "m", "a", "m"] {
        jar.add_cookie(name.to_string(), Box::new(firefox(name, "v")));
    }
    assert_eq!(jar.names(), vec!["a".to_string(), "m".to_string(), "z".to_string()]);
    assert_eq!(jar.len(), 3);
}
