use esp_embedded::auth::{
    challenge_bytes, check_credentials, check_digest, cookie_config, handle_login,
    handle_login_at, open_session, open_session_at, response_matches, Authorized, Login,
    LoginData, UserData, SESSION_IDLE_SECS,
};
use esp_embedded::nonce::NonceStore;
use esp_embedded::session::{Expiry, LruMemoryStore, SessionId, SessionStore};
use esp_embedded::time::{Duration, Instant, TICK_HZ};

const NONCE: u64 = 0x0102_0304_0506_0708;

const GOOD_RESPONSE: &str = "edb9c1eda1f80fef593abbf56e314c52dbd635a4f49af7274cf5c0800e374ac2";

fn secs(s: u64) -> Instant {
    Instant::from_ticks(s * TICK_HZ)
}

fn text32(s: &str) -> heapless::String<32> {
    heapless::String::try_from(s).unwrap()
}

fn login_data(user: &str, response: &str, nonce: u64) -> LoginData {
    LoginData { user: text32(user), response: heapless::String::try_from(response).unwrap(), nonce }
}

fn reply_of(login: Login) -> (bool, u16, &'static str, String) {
    match login {
        Login::Done { session, reply } => {
            (session.is_some(), reply.status, reply.body, reply.cookie.as_str().to_string())
        },
        _ => panic!("the login goes on"),
    }
}

fn refusal(body: &'static str) -> (bool, u16, &'static str, String) {
    (false, 401, body, String::new())
}

#[test]
fn nonce_is_good_once() {
    let mut store: NonceStore<4> = NonceStore::new();
    store.insert_at(5, secs(100));
    assert!(store.verify_at(5, secs(101)));
    assert!(!store.verify_at(5, secs(101)));
}

#[test]
fn nonce_is_good_for_half_a_minute() {
    let mut store: NonceStore<4> = NonceStore::new();
    store.insert_at(5, secs(100));
    store.insert_at(6, secs(100));
    assert!(store.verify_at(5, Instant::from_ticks(130 * TICK_HZ - 1)));
    assert!(!store.verify_at(6, secs(130)));
    // a try that came too late uses the nonce up as well
    assert!(!store.verify_at(6, secs(101)));
}

#[test]
fn unknown_nonce_is_refused() {
    let mut store: NonceStore<4> = NonceStore::new();
    store.insert_at(5, secs(100));
    assert!(!store.verify_at(6, secs(100)));
    assert!(store.verify_at(5, secs(100)));
}

#[test]
fn nonces_do_not_disturb_each_other() {
    let mut store: NonceStore<4> = NonceStore::new();
    store.insert_at(5, secs(100));
    store.insert_at(6, secs(100));
    assert!(store.verify_at(5, secs(101)));
    assert!(store.verify_at(6, secs(101)));
}

#[test]
fn latest_nonces_are_kept() {
    let mut store: NonceStore<3> = NonceStore::new();
    for n in 1..=5u64 {
        store.insert_at(n, secs(100));
    }
    assert!(!store.verify_at(1, secs(100)));
    assert!(!store.verify_at(2, secs(100)));
    assert!(store.verify_at(3, secs(100)));
    assert!(store.verify_at(4, secs(100)));
    assert!(store.verify_at(5, secs(100)));
}

#[test]
fn free_slots_stand_for_nonce_zero() {
    let mut store: NonceStore<2> = NonceStore::new();
    assert!(store.verify_at(0, secs(1)));
    assert!(!store.verify_at(0, secs(30)));
}

#[test]
fn nonces_by_the_system_clock() {
    let mut store: NonceStore<2> = NonceStore::new();
    store.insert(77);
    assert!(store.verify(77));
    assert!(!store.verify(77));
    assert!(!store.verify(78));
}

#[test]
fn store_without_slots_knows_no_nonce() {
    let mut store: NonceStore<0> = NonceStore::new();
    assert!(!store.verify_at(0, secs(0)));
}

#[test]
fn cookies_of_the_login() {
    let c = cookie_config();
    assert_eq!(c.name, "session");
    assert!(c.http_only);
    assert_eq!(c.same_site, "Strict");
    assert!(!c.secure);
    assert_eq!(c.path, "/");
}

#[test]
fn challenge_is_nonce_then_name_then_password() {
    let mut expected = vec![1u8, 2, 3, 4, 5, 6, 7, 8];
    expected.extend_from_slice(b"adminsecret");
    assert_eq!(challenge_bytes(NONCE, "admin", "secret"), expected);
    assert_eq!(challenge_bytes(u64::MAX, "", ""), vec![255u8; 8]);
}

#[test]
fn responses_are_lower_case_hexadecimal() {
    assert!(response_matches(&[0x0a, 0xff], "0aff"));
    assert!(!response_matches(&[0x0a, 0xff], "0AFF"));
    assert!(!response_matches(&[0x0a, 0xff], "0aff0"));
    assert!(!response_matches(&[0x0a, 0xff], ""));
}

#[test]
fn login_with_a_bad_nonce_is_refused() {
    let mut nonces: NonceStore<8> = NonceStore::new();
    let login = handle_login_at(&mut nonces, login_data("admin", GOOD_RESPONSE, NONCE), secs(0));
    assert_eq!(reply_of(login), refusal("Nonce expired or invalid"));
}

#[test]
fn login_with_a_good_nonce_goes_on_once() {
    let mut nonces: NonceStore<8> = NonceStore::new();
    nonces.insert(NONCE);
    let first = handle_login(&mut nonces, login_data("admin", GOOD_RESPONSE, NONCE));
    assert!(matches!(first, Login::Credentials(_)));
    let second = handle_login(&mut nonces, login_data("admin", GOOD_RESPONSE, NONCE));
    assert_eq!(reply_of(second), refusal("Nonce expired or invalid"));
}

#[test]
fn password_is_proved_by_the_digest_of_the_challenge() {
    let data = login_data("admin", GOOD_RESPONSE, NONCE);
    match check_credentials(&data, Some(text32("admin")), Some(text32("secret"))) {
        Login::Token(user) => assert_eq!(user.username.as_str(), "admin"),
        _ => panic!("the password was proved"),
    }
}

#[test]
fn wrong_credentials_are_refused() {
    let data = login_data("admin", GOOD_RESPONSE, NONCE);
    let refused = refusal("Invalid credentials");
    let with = |user: Option<&str>, password: Option<&str>| {
        reply_of(check_credentials(&data, user.map(text32), password.map(text32)))
    };
    assert_eq!(with(Some("admin"), Some("other")), refused);
    assert_eq!(with(Some("root"), Some("secret")), refused);
    assert_eq!(with(None, Some("secret")), refused);
    assert_eq!(with(Some("admin"), None), refused);
    assert_eq!(with(None, None), refused);
    let other_nonce = login_data("admin", GOOD_RESPONSE, NONCE + 1);
    let r = check_credentials(&other_nonce, Some(text32("admin")), Some(text32("secret")));
    assert_eq!(reply_of(r), refused);
    let upper = login_data("admin", &GOOD_RESPONSE.to_uppercase(), NONCE);
    let r = check_credentials(&upper, Some(text32("admin")), Some(text32("secret")));
    assert_eq!(reply_of(r), refused);
}

#[test]
fn digest_is_compared_with_the_response() {
    let data = login_data("admin", "00ff", 1);
    assert!(matches!(check_digest(&data, text32("admin"), &[0x00, 0xff]), Login::Token(_)));
    let r = check_digest(&data, text32("admin"), &[0x00, 0xfe]);
    assert_eq!(reply_of(r), refusal("Invalid credentials"));
    let r = check_digest(&data, text32("Admin"), &[0x00, 0xff]);
    assert_eq!(reply_of(r), refusal("Invalid credentials"));
}

#[test]
fn login_opens_a_session() {
    let login = open_session_at(UserData { username: text32("admin") }, u64::MAX, secs(50));
    match login {
        Login::Done { session, reply } => {
            let session = session.unwrap();
            assert_eq!(session.id, SessionId(u64::MAX));
            assert_eq!(session.data.username.as_str(), "admin");
            assert_eq!(session.expiry, Expiry::OnInactivity(Duration::from_secs(3600)));
            assert_eq!(session.last_active, secs(50));
            assert_eq!(reply.status, 200);
            assert_eq!(reply.body, "Login successful");
            assert_eq!(
                reply.cookie.as_str(),
                "session=18446744073709551615; Path=/; Max-Age=3600; SameSite=Strict; HttpOnly"
            );
        },
        _ => panic!("the login is over"),
    }
}

#[test]
fn session_is_opened_by_the_system_clock() {
    let before = Instant::now();
    let login = open_session(UserData { username: text32("u") }, 9);
    let after = Instant::now();
    match login {
        Login::Done { session, .. } => {
            let active = session.unwrap().last_active;
            assert!(before.ticks <= active.ticks && active.ticks <= after.ticks);
        },
        _ => panic!("the login is over"),
    }
}

fn logged_in() -> (LruMemoryStore<UserData, 4>, String) {
    let mut store: LruMemoryStore<UserData, 4> = LruMemoryStore::new();
    match open_session_at(UserData { username: text32("admin") }, 123, secs(10)) {
        Login::Done { session, reply } => {
            assert!(store.save(session.unwrap()));
            let kept = reply.cookie.as_str().split(';').next().unwrap().to_string();
            (store, kept)
        },
        _ => panic!("the login is over"),
    }
}

#[test]
fn login_lets_in_until_an_hour_of_idleness() {
    let (mut store, cookie) = logged_in();
    let header = format!("theme=dark; {}", cookie);
    let hour = SESSION_IDLE_SECS;
    let a = Authorized::from_request_parts_at(&mut store, Some(header.as_bytes()), secs(10 + hour));
    let session = a.ok().unwrap().session;
    assert_eq!(session.data.username.as_str(), "admin");
    assert_eq!(session.last_active, secs(10 + hour));
    let late = Instant::from_ticks((10 + 2 * hour) * TICK_HZ + 1);
    let a = Authorized::from_request_parts_at(&mut store, Some(cookie.as_bytes()), late);
    assert_eq!(a.err().unwrap().location, "/login");
}

#[test]
fn requests_without_a_session_are_sent_to_the_login_page() {
    let (mut store, _) = logged_in();
    let headers: [Option<&[u8]>; 5] =
        [None, Some(b""), Some(b"session=124"), Some(b"session=abc"), Some(&[0xff])];
    for header in headers {
        let a = Authorized::from_request_parts_at(&mut store, header, secs(11));
        assert_eq!(a.err().unwrap().location, "/login");
    }
    assert!(Authorized::from_request_parts_at(&mut store, Some(b"session=123"), secs(11)).is_ok());
}

#[test]
fn deleted_session_is_shut_out() {
    let (mut store, cookie) = logged_in();
    assert!(store.delete(SessionId(123)));
    let a = Authorized::from_request_parts(&mut store, Some(cookie.as_bytes()));
    assert!(a.is_err());
}

#[test]
fn request_is_answered_by_the_system_clock() {
    let mut store: LruMemoryStore<UserData, 4> = LruMemoryStore::new();
    if let Login::Done { session, .. } = open_session(UserData { username: text32("a") }, 5) {
        store.save(session.unwrap());
    }
    assert!(Authorized::from_request_parts(&mut store, Some(b"session=5")).is_ok());
    assert!(Authorized::from_request_parts(&mut store, None).is_err());
}
