use esp_embedded::cookie::{
    find_session_id, format_clear_cookie, format_set_cookie, is_white_space, session_id_of,
    CookieConfig, FormatError,
};
use esp_embedded::session::{Expiry, LruMemoryStore, Record, SessionId, SessionStore};
use esp_embedded::text::{chars_of, decimal_string, hex_chars, same_text};
use esp_embedded::time::{Duration, Instant, TICK_HZ};

fn at(ticks: u64) -> Instant {
    Instant::from_ticks(ticks)
}

fn idle(id: u64, data: u32, idle_ticks: u64, active: u64) -> Record<u32> {
    Record {
        id: SessionId(id),
        data,
        expiry: Expiry::OnInactivity(Duration::from_ticks(idle_ticks)),
        last_active: at(active),
    }
}

fn login_cookies() -> CookieConfig {
    CookieConfig {
        name: "session",
        http_only: true,
        same_site: "Strict",
        secure: false,
        path: "/",
    }
}

#[test]
fn clock_does_not_run_backwards() {
    let a = Instant::now();
    let b = Instant::now();
    assert!(a.ticks <= b.ticks);
}

#[test]
fn durations_and_instants() {
    assert_eq!(TICK_HZ, embassy_time::TICK_HZ);
    assert_eq!(Duration::from_secs(3600).ticks, 3_600_000_000);
    assert_eq!(Duration::from_ticks(1_999_999).as_secs(), 1);
    assert_eq!(at(5).plus(Duration::from_ticks(7)), at(12));
    assert_eq!(at(12).saturating_duration_since(at(5)).ticks, 7);
    assert_eq!(at(5).saturating_duration_since(at(12)).ticks, 0);
}

#[test]
fn inactivity_ends_a_session_after_the_deadline() {
    let r = idle(1, 0, 100, 1000);
    assert!(!r.is_expired(at(1100)));
    assert!(r.is_expired(at(1101)));
}

#[test]
fn fixed_end_ends_a_session() {
    let r = Record {
        id: SessionId(1),
        data: 0u32,
        expiry: Expiry::AtDateTime(at(500)),
        last_active: at(900),
    };
    assert!(!r.is_expired(at(500)));
    assert!(r.is_expired(at(501)));
}

#[test]
fn saved_session_is_loaded_and_becomes_active() {
    let mut store: LruMemoryStore<u32, 2> = LruMemoryStore::new();
    assert!(!store.contains(SessionId(7)));
    assert!(store.save(idle(7, 42, 100, 1000)));
    assert!(store.contains(SessionId(7)));
    let found = store.load(SessionId(7), at(1050)).unwrap();
    assert_eq!(found, idle(7, 42, 100, 1050));
    // active again, so that the end is put off
    assert!(store.load(SessionId(7), at(1150)).is_some());
    assert!(store.load(SessionId(7), at(1251)).is_none());
    // the load of an expired session removes it
    assert!(!store.contains(SessionId(7)));
}

#[test]
fn fixed_end_is_not_put_off_by_use() {
    let mut store: LruMemoryStore<u32, 1> = LruMemoryStore::new();
    store.save(Record {
        id: SessionId(3),
        data: 1,
        expiry: Expiry::AtDateTime(at(200)),
        last_active: at(0),
    });
    assert!(store.load(SessionId(3), at(200)).is_some());
    assert!(store.load(SessionId(3), at(201)).is_none());
}

#[test]
fn unknown_session_is_not_loaded() {
    let mut store: LruMemoryStore<u32, 2> = LruMemoryStore::new();
    assert!(store.load(SessionId(1), at(0)).is_none());
    assert!(!store.delete(SessionId(1)));
}

#[test]
fn save_updates_a_session_in_place() {
    let mut store: LruMemoryStore<u32, 2> = LruMemoryStore::new();
    store.save(idle(1, 10, 100, 0));
    store.save(idle(1, 11, 100, 5));
    assert_eq!(store.load(SessionId(1), at(6)).unwrap().data, 11);
    assert!(store.delete(SessionId(1)));
    assert!(!store.contains(SessionId(1)));
}

#[test]
fn full_store_drops_the_least_recently_used() {
    let mut store: LruMemoryStore<u32, 3> = LruMemoryStore::new();
    store.save(idle(1, 1, 1000, 10));
    store.save(idle(2, 2, 1000, 20));
    store.save(idle(3, 3, 1000, 30));
    // session 1 is used, so that session 2 is the oldest
    assert!(store.load(SessionId(1), at(40)).is_some());
    store.save(idle(4, 4, 1000, 50));
    assert!(store.contains(SessionId(1)));
    assert!(!store.contains(SessionId(2)));
    assert!(store.contains(SessionId(3)));
    assert!(store.contains(SessionId(4)));
}

#[test]
fn of_two_equally_old_the_first_is_dropped() {
    let mut store: LruMemoryStore<u32, 2> = LruMemoryStore::new();
    store.save(idle(1, 1, 1000, 10));
    store.save(idle(2, 2, 1000, 10));
    store.save(idle(3, 3, 1000, 10));
    assert!(!store.contains(SessionId(1)));
    assert!(store.contains(SessionId(2)));
    assert!(store.contains(SessionId(3)));
}

#[test]
fn stored_session_is_updated_though_an_earlier_slot_is_free() {
    let mut store: LruMemoryStore<u32, 2> = LruMemoryStore::new();
    store.save(idle(1, 1, 1000, 10));
    store.save(idle(2, 2, 1000, 20));
    store.delete(SessionId(1));
    store.save(idle(2, 22, 1000, 30));
    assert_eq!(store.load(SessionId(2), at(31)).unwrap().data, 22);
    // one record was there, so that one delete removes the session
    assert!(store.delete(SessionId(2)));
    assert!(!store.contains(SessionId(2)));
    assert!(store.load(SessionId(2), at(32)).is_none());
}

#[test]
fn update_displaces_nobody() {
    let mut store: LruMemoryStore<u32, 2> = LruMemoryStore::new();
    store.save(idle(1, 1, 1000, 10));
    store.save(idle(2, 2, 1000, 20));
    store.save(idle(2, 22, 1000, 30));
    assert!(store.contains(SessionId(1)));
    assert_eq!(store.load(SessionId(2), at(31)).unwrap().data, 22);
}

#[test]
fn default_cookies_are_secure() {
    let c = CookieConfig::default();
    assert_eq!(c.name, "session");
    assert!(c.http_only);
    assert_eq!(c.same_site, "Strict");
    assert!(c.secure);
    assert_eq!(c.path, "/");
}

#[test]
fn set_cookie_text() {
    let mut buf = heapless::String::<128>::new();
    let r = idle(99, 0, 3600 * TICK_HZ, 0);
    assert_eq!(format_set_cookie(&r, &CookieConfig::default(), &mut buf), Ok(()));
    assert_eq!(
        buf.as_str(),
        "session=99; Path=/; Max-Age=3600; SameSite=Strict; HttpOnly; Secure"
    );
}

#[test]
fn set_cookie_counts_seconds_to_a_fixed_end() {
    let mut buf = heapless::String::<128>::new();
    let r = Record {
        id: SessionId(u64::MAX),
        data: 0u32,
        expiry: Expiry::AtDateTime(at(10_500_000)),
        last_active: at(1_000_000),
    };
    let config = CookieConfig {
        name: "s",
        http_only: false,
        same_site: "Lax",
        secure: false,
        path: "/app",
    };
    assert_eq!(format_set_cookie(&r, &config, &mut buf), Ok(()));
    assert_eq!(buf.as_str(), "s=18446744073709551615; Path=/app; Max-Age=9; SameSite=Lax");
}

#[test]
fn set_cookie_past_its_end_has_no_age() {
    let mut buf = heapless::String::<128>::new();
    let r = Record {
        id: SessionId(0),
        data: 0u32,
        expiry: Expiry::AtDateTime(at(1)),
        last_active: at(1_000_000),
    };
    assert_eq!(format_set_cookie(&r, &login_cookies(), &mut buf), Ok(()));
    assert_eq!(buf.as_str(), "session=0; Path=/; Max-Age=0; SameSite=Strict; HttpOnly");
}

#[test]
fn cookie_that_does_not_fit_is_an_error() {
    let mut buf = heapless::String::<128>::new();
    for _ in 0..12 {
        buf.push_str("0123456789").unwrap();
    }
    let r = idle(1, 0, 0, 0);
    assert_eq!(format_set_cookie(&r, &login_cookies(), &mut buf), Err(FormatError));
    // "session" and "=" are eight bytes, which is all there was room for
    assert!(buf.as_str().ends_with("9session="));
    assert_eq!(buf.len(), 128);
}

#[test]
fn clear_cookie_text() {
    let mut buf = heapless::String::<128>::new();
    assert_eq!(format_clear_cookie(&CookieConfig::default(), &mut buf), Ok(()));
    assert_eq!(
        buf.as_str(),
        "session=; Path=/; Max-Age=0; SameSite=Strict; HttpOnly; Secure"
    );
    assert_eq!(format_clear_cookie(&CookieConfig::default(), &mut buf), Ok(()));
    assert_eq!(format_clear_cookie(&CookieConfig::default(), &mut buf), Err(FormatError));
}

#[test]
fn session_id_is_found_in_a_header() {
    assert_eq!(find_session_id("session=42"), Some(42));
    assert_eq!(find_session_id("a=b; session=42; c=d"), Some(42));
    assert_eq!(find_session_id("  session=7  "), Some(7));
    assert_eq!(find_session_id("session=+7"), Some(7));
    assert_eq!(find_session_id("session=007"), Some(7));
    assert_eq!(find_session_id("session=18446744073709551615"), Some(u64::MAX));
}

#[test]
fn first_session_cookie_that_is_a_number_counts() {
    assert_eq!(find_session_id("session=x; session=2; session=3"), Some(2));
    assert_eq!(find_session_id("session=; session=9"), Some(9));
    assert_eq!(find_session_id(";;session=9"), Some(9));
}

#[test]
fn headers_without_an_id() {
    assert_eq!(find_session_id(""), None);
    assert_eq!(find_session_id("session"), None);
    assert_eq!(find_session_id("session="), None);
    assert_eq!(find_session_id("session=+"), None);
    assert_eq!(find_session_id("session=-1"), None);
    assert_eq!(find_session_id("session=1=2"), None);
    assert_eq!(find_session_id("session =1"), None);
    assert_eq!(find_session_id("session= 1"), None);
    assert_eq!(find_session_id("Session=1"), None);
    assert_eq!(find_session_id("sessions=1"), None);
    assert_eq!(find_session_id("session=18446744073709551616"), None);
    assert_eq!(find_session_id("session=1844674407370955161500"), None);
}

#[test]
fn header_bytes_have_to_be_text() {
    assert_eq!(session_id_of(Some(b"session=5")), Some(SessionId(5)));
    assert_eq!(session_id_of(Some(&[0xFF, b';', b's'])), None);
    assert_eq!(session_id_of(Some(b"")), None);
    assert_eq!(session_id_of(None), None);
    assert_eq!(session_id_of(Some("n\u{e4}me=1; session=6".as_bytes())), Some(SessionId(6)));
}

#[test]
fn cookie_comes_back_with_its_id() {
    for id in [0u64, 1, 10, 12345678901234567890, u64::MAX] {
        let mut buf = heapless::String::<128>::new();
        format_set_cookie(&idle(id, 0, 0, 0), &login_cookies(), &mut buf).unwrap();
        let kept = buf.as_str().split(';').next().unwrap();
        assert_eq!(find_session_id(kept), Some(id));
    }
}

#[test]
fn cleared_cookie_carries_no_id() {
    let mut buf = heapless::String::<128>::new();
    format_clear_cookie(&login_cookies(), &mut buf).unwrap();
    let kept = buf.as_str().split(';').next().unwrap();
    assert_eq!(find_session_id(kept), None);
}

#[test]
fn white_space_is_that_of_unicode() {
    for u in 0..0x11_0000u32 {
        if let Some(c) = char::from_u32(u) {
            assert_eq!(is_white_space(c), c.is_whitespace());
        }
    }
}

#[test]
fn texts_are_compared_and_spelled_out() {
    assert!(same_text("abc", "abc"));
    assert!(!same_text("abc", "abd"));
    assert!(!same_text("abc", "ab"));
    assert_eq!(chars_of("a\u{e9}"), vec!['a', '\u{e9}']);
    assert_eq!(decimal_string(0), "0");
    assert_eq!(decimal_string(u64::MAX), "18446744073709551615");
    let hex: String = hex_chars(&[0x00, 0x0f, 0xa5]).into_iter().collect();
    assert_eq!(hex, "000fa5");
}

#[test]
fn deadline_past_the_clock_is_noticed() {
    let mut store: LruMemoryStore<u32, 2> = LruMemoryStore::new();
    store.save(idle(1, 0, u64::MAX, 0));
    store.save(idle(2, 0, u64::MAX, 1));
    assert!(store.can_load(SessionId(1)));
    assert!(!store.can_load(SessionId(2)));
    assert!(store.can_load(SessionId(3)));
    assert!(store.load(SessionId(1), at(7)).is_some());
    // the load has put the deadline off, past what the clock can reach
    assert!(!store.can_load(SessionId(1)));
}
