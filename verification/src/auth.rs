//! Logging in, and telling who is logged in.
use crate::cookie::{
    first_id, format_set_cookie, header_id, is_digit, is_first_named, joined, kept_by_client,
    law_cookie_comes_back, lemma_decimal, lemma_first_named, lemma_joined_steps,
    lemma_one_first_named, max_age, opt_bytes, session_id_of, set_cookie_pieces, set_cookie_text,
    with_semicolons, CookieConfig,
};
use crate::nonce::{
    accepted, is_first_slot, issued, law_nonce_is_good_once, lemma_slot_from, only_at, used,
    NonceSlot, NonceStore,
};
use crate::session::{
    handed_out, is_past, is_save_slot, is_slot_of, law_saved_is_found, lemma_is_no_slot,
    lemma_is_slot_of, Expiry, LruMemoryStore, Record, SessionId, SessionStore,
};
use crate::text::{
    chars_of, clone32, decimal, empty128, fits, hex, hex_chars, is_hex_of, is_plain_number,
    lemma_hex, lemma_one_spelling, place_value, same_chars, same_text, str32, str64, text128,
    text32, text64,
};
use crate::time::{Duration, Instant, TICK_HZ};
use sha2::Digest;
use vstd::arithmetic::div_mod::lemma_div_denominator;
use vstd::prelude::*;
use vstd::utf8::{
    encode_utf8, encode_utf8_decode_utf8, encode_utf8_valid_utf8, is_ascii_chars,
    is_ascii_chars_encode_utf8, valid_utf8,
};

verus! {

/// After how many idle seconds a session ends.
pub const SESSION_IDLE_SECS: u64 = 3600;

/// Who a session belongs to.
#[derive(Debug, PartialEq, Eq)]
pub struct UserData {
    pub username: heapless::String<32>,
}

impl Clone for UserData {
    fn clone(&self) -> (r: UserData)
        ensures
            text32(r.username) == text32(self.username),
    {
        UserData { username: clone32(&self.username) }
    }
}

/// What the login page sends: the user's name, a nonce that it was handed out, and the proof
/// that the user knows the password.
pub struct LoginData {
    pub user: heapless::String<32>,
    pub response: heapless::String<64>,
    pub nonce: u64,
}

/// How the login's cookies are set.
pub open spec fn is_login_cookie(config: CookieConfig) -> bool {
    &&& config.name@ == "session"@
    &&& config.http_only
    &&& config.same_site@ == "Strict"@
    &&& !config.secure
    &&& config.path@ == "/"@
}

pub fn cookie_config() -> (r: CookieConfig)
    ensures
        is_login_cookie(r),
{
    CookieConfig {
        name: "session",
        http_only: true,
        same_site: "Strict",
        secure: false,
        path: "/",
    }
}

// ---- The proof of the password --------------------------------------------------------------

/// What `sha2::Sha256::digest` returns.
pub uninterp spec fn sha256_digest(bytes: Seq<u8>) -> Seq<u8>;

/// `sha2::Sha256::digest`: the SHA-256 digest of the bytes, which is 32 bytes long.
#[verifier::external_body]
fn sha256(bytes: &[u8]) -> (r: Vec<u8>)
    ensures
        r@ == sha256_digest(bytes@),
        r@.len() == 32,
{
    sha2::Sha256::digest(bytes).to_vec()
}

/// A number's eight bytes, the highest first.
pub open spec fn be_bytes(n: u64) -> Seq<u8> {
    seq![
        (n / 0x100_0000_0000_0000) as u8,
        (n / 0x1_0000_0000_0000 % 0x100) as u8,
        (n / 0x100_0000_0000 % 0x100) as u8,
        (n / 0x1_0000_0000 % 0x100) as u8,
        (n / 0x100_0000 % 0x100) as u8,
        (n / 0x1_0000 % 0x100) as u8,
        (n / 0x100 % 0x100) as u8,
        (n % 0x100) as u8,
    ]
}

/// What the login page is to take the digest of: the nonce, the user's name and the password.
pub open spec fn challenge(nonce: u64, user: Seq<char>, password: Seq<char>) -> Seq<u8> {
    be_bytes(nonce) + encode_utf8(user) + encode_utf8(password)
}

/// The bytes that the proof of the password is the digest of.
pub fn challenge_bytes(nonce: u64, user: &str, password: &str) -> (r: Vec<u8>)
    ensures
        r@ == challenge(nonce, user@, password@),
{
    let mut r: Vec<u8> = Vec::new();
    r.push((nonce / 0x100_0000_0000_0000) as u8);
    r.push((nonce / 0x1_0000_0000_0000 % 0x100) as u8);
    r.push((nonce / 0x100_0000_0000 % 0x100) as u8);
    r.push((nonce / 0x1_0000_0000 % 0x100) as u8);
    r.push((nonce / 0x100_0000 % 0x100) as u8);
    r.push((nonce / 0x1_0000 % 0x100) as u8);
    r.push((nonce / 0x100 % 0x100) as u8);
    r.push((nonce % 0x100) as u8);
    assert(r@ =~= be_bytes(nonce));
    r.extend_from_slice(user.as_bytes());
    r.extend_from_slice(password.as_bytes());
    r
}

/// Whether a response is a digest, in lower-case hexadecimal.
pub fn response_matches(digest: &[u8], response: &str) -> (r: bool)
    ensures
        r == (response@ == hex(digest@)),
{
    let expected = hex_chars(digest);
    let given = chars_of(response);
    same_chars(&expected, &given)
}

// ---- Logging in -----------------------------------------------------------------------------

/// What the client is told.
pub struct LoginReply {
    pub status: u16,
    pub body: &'static str,
    /// The cookie to set; empty where none is.
    pub cookie: heapless::String<128>,
}

pub const STATUS_OK: u16 = 200;

pub const STATUS_UNAUTHORIZED: u16 = 401;

/// How far a login has come.
pub enum Login {
    /// The nonce was good. The name and the password on the device are wanted.
    Credentials(LoginData),
    /// The password was proved. A random number is wanted, for a new session of this user.
    Token(UserData),
    /// The login is over. Where it opened a session, that is to be saved first.
    Done { session: Option<Record<UserData>>, reply: LoginReply },
}

/// Whether a login is refused, for the reason `body`.
pub open spec fn refused(login: Login, body: Seq<char>) -> bool {
    login matches Login::Done { session, reply } && session is None && reply.status
        == STATUS_UNAUTHORIZED && reply.body@ == body && text128(reply.cookie) == Seq::<
        char,
    >::empty()
}

fn refuse(body: &'static str) -> (r: Login)
    ensures
        refused(r, body@),
{
    Login::Done {
        session: None,
        reply: LoginReply { status: STATUS_UNAUTHORIZED, body, cookie: empty128() },
    }
}

/// Whether `r` is how a login starts whose nonce is good, or is not.
pub open spec fn started(data: LoginData, good: bool, r: Login) -> bool {
    if good {
        r == Login::Credentials(data)
    } else {
        refused(r, "Nonce expired or invalid"@)
    }
}

/// Starts a login at `now`: it takes a nonce that is good, and uses it up.
pub fn handle_login_at<const N: usize>(
    nonces: &mut NonceStore<N>,
    data: LoginData,
    now: Instant,
) -> (r: Login)
    requires
        old(nonces).wf(),
    ensures
        final(nonces).wf(),
        final(nonces).slots() == used(old(nonces).slots(), data.nonce),
        final(nonces).next() == old(nonces).next(),
        started(data, accepted(old(nonces).slots(), data.nonce, now), r),
{
    if nonces.verify_at(data.nonce, now) {
        Login::Credentials(data)
    } else {
        refuse("Nonce expired or invalid")
    }
}

/// Starts a login now, by the system clock.
pub fn handle_login<const N: usize>(nonces: &mut NonceStore<N>, data: LoginData) -> (r: Login)
    requires
        old(nonces).wf(),
    ensures
        final(nonces).wf(),
        final(nonces).slots() == used(old(nonces).slots(), data.nonce),
        final(nonces).next() == old(nonces).next(),
        exists|now: Instant|
            started(data, #[trigger] accepted(old(nonces).slots(), data.nonce, now), r),
{
    let now = Instant::now();
    handle_login_at(nonces, data, now)
}

pub open spec fn opt_text32(s: Option<heapless::String<32>>) -> Option<Seq<char>> {
    match s {
        Some(s) => Some(text32(s)),
        None => None,
    }
}

/// Whether a login names the user on the device and proves their password, where `digest` is the
/// digest of the challenge.
pub open spec fn proves(data: LoginData, user: Seq<char>, digest: Seq<u8>) -> bool {
    &&& text32(data.user) == user
    &&& text64(data.response) == hex(digest)
}

/// Whether a login names the user on the device and proves their password.
pub open spec fn proved(
    data: LoginData,
    user: Option<Seq<char>>,
    password: Option<Seq<char>>,
) -> bool {
    user matches Some(u) && password matches Some(p) && proves(
        data,
        u,
        sha256_digest(challenge(data.nonce, u, p)),
    )
}

/// Whether `r` is how a login goes on whose password is proved, or is not.
pub open spec fn went_on(proved: bool, user: Seq<char>, r: Login) -> bool {
    if proved {
        r matches Login::Token(data) && text32(data.username) == user
    } else {
        refused(r, "Invalid credentials"@)
    }
}

/// Goes on with a login whose nonce was good, with the digest of its challenge.
pub fn check_digest(data: &LoginData, user: heapless::String<32>, digest: &[u8]) -> (r: Login)
    ensures
        went_on(proves(*data, text32(user), digest@), text32(user), r),
{
    if same_text(str32(&user), str32(&data.user)) && response_matches(
        digest,
        str64(&data.response),
    ) {
        Login::Token(UserData { username: user })
    } else {
        refuse("Invalid credentials")
    }
}

/// Goes on with a login whose nonce was good, with the name and the password on the device.
pub fn check_credentials(
    data: &LoginData,
    user: Option<heapless::String<32>>,
    password: Option<heapless::String<32>>,
) -> (r: Login)
    ensures
        went_on(
            proved(*data, opt_text32(user), opt_text32(password)),
            text32(data.user),
            r,
        ),
{
    match (user, password) {
        (Some(user), Some(password)) => {
            let bytes = challenge_bytes(data.nonce, str32(&user), str32(&password));
            let digest = sha256(bytes.as_slice());
            check_digest(data, user, digest.as_slice())
        },
        _ => refuse("Invalid credentials"),
    }
}

/// The session that a login at `now` opens.
pub open spec fn new_session(user: UserData, token: u64, now: Instant) -> Record<UserData> {
    Record {
        id: SessionId(token),
        data: user,
        expiry: Expiry::OnInactivity(
            Duration { ticks: (SESSION_IDLE_SECS * TICK_HZ) as u64 },
        ),
        last_active: now,
    }
}

/// The cookie that a login sets.
pub open spec fn login_cookie(token: u64) -> Seq<char> {
    "session="@ + decimal(token as nat) + "; Path=/; Max-Age=3600; SameSite=Strict; HttpOnly"@
}

proof fn lemma_login_cookie_pieces<D>(record: Record<D>, config: CookieConfig)
    requires
        is_login_cookie(config),
        record.expiry == Expiry::OnInactivity(
            Duration { ticks: (SESSION_IDLE_SECS * TICK_HZ) as u64 },
        ),
    ensures
        set_cookie_text(record, config) == login_cookie(record.id.0),
{
    let pieces = set_cookie_pieces(record, config);
    reveal_with_fuel(decimal, 5);
    reveal_strlit("session=");
    reveal_strlit("session");
    reveal_strlit("=");
    reveal_strlit("; Path=");
    reveal_strlit("/");
    reveal_strlit("; Max-Age=");
    reveal_strlit("; SameSite=");
    reveal_strlit("Strict");
    reveal_strlit("; HttpOnly");
    reveal_strlit("");
    reveal_strlit("; Path=/; Max-Age=3600; SameSite=Strict; HttpOnly");
    assert(max_age(record) == 3600);
    assert(decimal(3600) =~= seq!['3', '6', '0', '0']);
    lemma_joined_steps(pieces);
    assert(joined(pieces) =~= login_cookie(record.id.0));
}

spec fn tens(k: nat) -> nat
    decreases k,
{
    if k == 0 {
        1
    } else {
        10 * tens((k - 1) as nat)
    }
}

proof fn lemma_decimal_is_short(n: nat, k: nat)
    requires
        k > 0,
        n < tens(k),
    ensures
        decimal(n).len() <= k,
    decreases k,
{
    if n >= 10 {
        assert(k > 1) by {
            if k == 1 {
                assert(tens(1) == 10 * tens(0));
            }
        }
        lemma_decimal_is_short(n / 10, (k - 1) as nat);
    }
}

proof fn lemma_login_cookie_fits(token: u64)
    ensures
        fits(login_cookie(token), 128),
{
    reveal_with_fuel(tens, 21);
    lemma_decimal_is_short(token as nat, 20);
    lemma_decimal(token as nat);
    reveal_strlit("session=");
    reveal_strlit("; Path=/; Max-Age=3600; SameSite=Strict; HttpOnly");
    let digits = decimal(token as nat);
    assert(forall|i: int| 0 <= i < digits.len() ==> is_digit(#[trigger] digits[i]));
    assert(is_ascii_chars(login_cookie(token)));
    is_ascii_chars_encode_utf8(login_cookie(token));
}

/// Whether `r` is a login at `now` that succeeded.
pub open spec fn opened(user: UserData, token: u64, now: Instant, r: Login) -> bool {
    r matches Login::Done { session, reply } && session == Some(new_session(user, token, now))
        && reply.status == STATUS_OK && reply.body@ == "Login successful"@ && text128(reply.cookie)
        == login_cookie(token)
}

/// Ends a login at `now` with a new session, under a random number.
pub fn open_session_at(user: UserData, token: u64, now: Instant) -> (r: Login)
    ensures
        opened(user, token, now, r),
{
    let record = Record {
        id: SessionId(token),
        data: user,
        expiry: Expiry::OnInactivity(Duration::from_secs(SESSION_IDLE_SECS)),
        last_active: now,
    };
    let config = cookie_config();
    let mut cookie = empty128();
    proof {
        lemma_login_cookie_pieces(record, config);
        lemma_login_cookie_fits(token);
        assert(text128(cookie) + login_cookie(token) =~= login_cookie(token));
    }
    let _ = format_set_cookie(&record, &config, &mut cookie);
    Login::Done {
        session: Some(record),
        reply: LoginReply { status: STATUS_OK, body: "Login successful", cookie },
    }
}

/// Ends a login now, by the system clock, with a new session.
pub fn open_session(user: UserData, token: u64) -> (r: Login)
    ensures
        exists|now: Instant| #[trigger] opened(user, token, now, r),
{
    let now = Instant::now();
    open_session_at(user, token, now)
}

// ---- Who is logged in -----------------------------------------------------------------------

/// Another place that the client is sent to.
#[derive(Clone, Copy, Debug)]
pub struct Redirect {
    pub location: &'static str,
}

/// A request that comes with the cookie of a session that is not over.
pub struct Authorized {
    pub session: Record<UserData>,
}

/// What a store holds for the session that a request names.
pub open spec fn session_named<S: SessionStore<UserData>>(
    store: S,
    header: Option<Seq<u8>>,
) -> Option<Record<UserData>> {
    match header_id(header) {
        Some(id) => store.lookup(id),
        None => None,
    }
}

/// Whether `after` is what a request at `now` leaves of a store: one that names a session loads it,
/// and one that names none changes nothing.
pub open spec fn left_by<S: SessionStore<UserData>>(
    store: S,
    header: Option<Seq<u8>>,
    now: Instant,
    after: S,
) -> bool {
    match header_id(header) {
        Some(id) => store.is_after_load(id, now, after),
        None => after == store,
    }
}

/// Whether `r` is the answer at `now` to a request for which the store holds `stored`: it is let
/// in with its session, now active at `now`, or sent to the login page.
pub open spec fn answered(
    stored: Option<Record<UserData>>,
    now: Instant,
    r: Result<Authorized, Redirect>,
) -> bool {
    match stored {
        Some(record) if !record.expired(now) => r matches Ok(a) && handed_out(
            record,
            now,
            a.session,
        ),
        _ => r matches Err(to) && to.location@ == "/login"@,
    }
}

impl Authorized {
    /// Lets a request in with the session that was found for it, and sends one without a session
    /// to the login page.
    pub fn from_session(found: Option<Record<UserData>>) -> (r: Result<Authorized, Redirect>)
        ensures
            match found {
                Some(session) => r == Ok::<Authorized, Redirect>(Authorized { session }),
                None => r matches Err(to) && to.location@ == "/login"@,
            },
    {
        match found {
            Some(session) => Ok(Authorized { session }),
            None => Err(Redirect { location: "/login" }),
        }
    }

    /// Reads the session's ID from a request's cookie header and looks the session up, at `now`.
    pub fn from_request_parts_at<S: SessionStore<UserData>>(
        store: &mut S,
        cookie_header: Option<&[u8]>,
        now: Instant,
    ) -> (r: Result<Authorized, Redirect>)
        requires
            old(store).wf(),
            session_named(*old(store), opt_bytes(cookie_header)) matches Some(record)
                ==> record.deadline() <= u64::MAX,
        ensures
            final(store).wf(),
            final(store).has_room() == old(store).has_room(),
            left_by(*old(store), opt_bytes(cookie_header), now, *final(store)),
            answered(session_named(*old(store), opt_bytes(cookie_header)), now, r),
    {
        let found = match session_id_of(cookie_header) {
            Some(id) => store.load(id, now),
            None => None,
        };
        Authorized::from_session(found)
    }

    /// Reads the session's ID from a request's cookie header and looks the session up now, by the
    /// system clock.
    pub fn from_request_parts<S: SessionStore<UserData>>(
        store: &mut S,
        cookie_header: Option<&[u8]>,
    ) -> (r: Result<Authorized, Redirect>)
        requires
            old(store).wf(),
            session_named(*old(store), opt_bytes(cookie_header)) matches Some(record)
                ==> record.deadline() <= u64::MAX,
        ensures
            final(store).wf(),
            final(store).has_room() == old(store).has_room(),
            exists|now: Instant|
                left_by(*old(store), opt_bytes(cookie_header), now, *final(store))
                    && #[trigger] answered(
                    session_named(*old(store), opt_bytes(cookie_header)),
                    now,
                    r,
                ),
    {
        let now = Instant::now();
        Authorized::from_request_parts_at(store, cookie_header, now)
    }
}

// ---- Laws -----------------------------------------------------------------------------------

/// A client that logged in and sends its cookie back is let in with the session that was opened
/// for it, until that has been idle for an hour.
pub proof fn law_login_lets_in<const N: usize>(
    before: LruMemoryStore<UserData, N>,
    after: LruMemoryStore<UserData, N>,
    user: UserData,
    token: u64,
    now: Instant,
    i: int,
    later: Instant,
)
    requires
        0 <= i < before@.len(),
        is_save_slot(before@, SessionId(token), i),
        after@ == before@.update(i, Some(new_session(user, token, now))),
    ensures
        ({
            let header = Some(encode_utf8(kept_by_client(login_cookie(token))));
            let session = new_session(user, token, now);
            &&& header_id(header) == Some(SessionId(token))
            &&& session_named(after, header) == Some(session)
            &&& session.expired(later) <==> later.ticks > now.ticks + SESSION_IDLE_SECS * TICK_HZ
        }),
{
    let cookie = kept_by_client(login_cookie(token));
    let session = new_session(user, token, now);
    let config = CookieConfig {
        name: "session",
        http_only: true,
        same_site: "Strict",
        secure: false,
        path: "/",
    };
    lemma_login_cookie_pieces(session, config);
    law_cookie_comes_back(session, config);
    encode_utf8_valid_utf8(cookie);
    encode_utf8_decode_utf8(cookie);
    law_saved_is_found(before@, SessionId(token), i, session);
}

/// A request gets in if and only if its cookies name a session that the store has and that is not
/// over; every other one is sent to the login page.
pub proof fn law_only_open_sessions_get_in<S: SessionStore<UserData>>(
    store: S,
    header: Option<Seq<u8>>,
    now: Instant,
    r: Result<Authorized, Redirect>,
)
    requires
        answered(session_named(store, header), now, r),
    ensures
        r is Ok <==> header_id(header) is Some && store.lookup(header_id(header)->0) is Some
            && !store.lookup(header_id(header)->0)->0.expired(now),
        r matches Err(to) ==> to.location@ == "/login"@,
        header is None ==> r is Err,
        header matches Some(bytes) && !valid_utf8(bytes) ==> r is Err,
{
}

/// The same login message is good once: with its nonce used up, it is refused at any later time.
pub proof fn law_replayed_login_is_refused(
    slots: Seq<NonceSlot>,
    next: int,
    data: LoginData,
    when: Instant,
    later: Instant,
    r: Login,
)
    requires
        0 <= next < slots.len(),
        data.nonce != 0,
        only_at(slots, data.nonce, next),
        started(
            data,
            accepted(used(issued(slots, next, data.nonce, when), data.nonce), data.nonce, later),
            r,
        ),
    ensures
        refused(r, "Nonce expired or invalid"@),
{
    law_nonce_is_good_once(slots, next, data.nonce, when, later, later);
}

// ---- What the operations do -----------------------------------------------------------------

/// Whether bytes are those that a user proves a password with: the eight bytes of the nonce, the
/// highest first, then the whole name and then the whole password, both in UTF-8.
pub open spec fn is_challenge(
    bytes: Seq<u8>,
    nonce: u64,
    user: Seq<char>,
    password: Seq<char>,
) -> bool {
    let name_end = 8 + encode_utf8(user).len();
    &&& bytes.len() == name_end + encode_utf8(password).len()
    &&& nonce == ((((((bytes[0] * 256 + bytes[1]) * 256 + bytes[2]) * 256 + bytes[3]) * 256
        + bytes[4]) * 256 + bytes[5]) * 256 + bytes[6]) * 256 + bytes[7]
    &&& bytes.subrange(8, name_end as int) == encode_utf8(user)
    &&& bytes.skip(name_end as int) == encode_utf8(password)
}

/// The number that eight bytes stand for, the highest first.
spec fn be_value(b: Seq<u8>) -> int {
    ((((((b[0] * 256 + b[1]) * 256 + b[2]) * 256 + b[3]) * 256 + b[4]) * 256 + b[5]) * 256 + b[6])
        * 256 + b[7]
}

/// Dividing by 256 again and again.
proof fn lemma_quotients(n: int)
    requires
        n >= 0,
    ensures
        n / 0x1_0000 == n / 0x100 / 0x100,
        n / 0x100_0000 == n / 0x1_0000 / 0x100,
        n / 0x1_0000_0000 == n / 0x100_0000 / 0x100,
        n / 0x100_0000_0000 == n / 0x1_0000_0000 / 0x100,
        n / 0x1_0000_0000_0000 == n / 0x100_0000_0000 / 0x100,
        n / 0x100_0000_0000_0000 == n / 0x1_0000_0000_0000 / 0x100,
{
    lemma_div_denominator(n, 0x100, 0x100);
    lemma_div_denominator(n, 0x1_0000, 0x100);
    lemma_div_denominator(n, 0x100_0000, 0x100);
    lemma_div_denominator(n, 0x1_0000_0000, 0x100);
    lemma_div_denominator(n, 0x100_0000_0000, 0x100);
    lemma_div_denominator(n, 0x1_0000_0000_0000, 0x100);
}

proof fn lemma_split(q: int)
    ensures
        q == q / 0x100 * 256 + q % 0x100,
{
}

proof fn lemma_unsplit(q: int, m: int, b: u8)
    requires
        q == m * 256 + b,
    ensures
        q / 0x100 == m,
        q % 0x100 == b,
{
}

proof fn lemma_be_bytes(n: u64)
    ensures
        n == be_value(be_bytes(n)),
{
    let b = be_bytes(n);
    let q1 = n as int / 0x100;
    let q2 = n as int / 0x1_0000;
    let q3 = n as int / 0x100_0000;
    let q4 = n as int / 0x1_0000_0000;
    let q5 = n as int / 0x100_0000_0000;
    let q6 = n as int / 0x1_0000_0000_0000;
    let q7 = n as int / 0x100_0000_0000_0000;
    lemma_quotients(n as int);
    lemma_split(n as int);
    lemma_split(q1);
    lemma_split(q2);
    lemma_split(q3);
    lemma_split(q4);
    lemma_split(q5);
    lemma_split(q6);
    assert(q7 == b[0]);
    assert(q6 == b[0] * 256 + b[1]);
    assert(q5 == q6 * 256 + b[2]);
    assert(q4 == q5 * 256 + b[3]);
    assert(q3 == q4 * 256 + b[4]);
    assert(q2 == q3 * 256 + b[5]);
    assert(q1 == q2 * 256 + b[6]);
    assert(n == q1 * 256 + b[7]);
}

proof fn lemma_one_number(b: Seq<u8>, n: u64)
    requires
        b.len() == 8,
        n == be_value(b),
    ensures
        b == be_bytes(n),
{
    let m7 = b[0] as int;
    let m6 = m7 * 256 + b[1];
    let m5 = m6 * 256 + b[2];
    let m4 = m5 * 256 + b[3];
    let m3 = m4 * 256 + b[4];
    let m2 = m3 * 256 + b[5];
    let m1 = m2 * 256 + b[6];
    lemma_quotients(n as int);
    lemma_unsplit(n as int, m1, b[7]);
    lemma_unsplit(m1, m2, b[6]);
    lemma_unsplit(m2, m3, b[5]);
    lemma_unsplit(m3, m4, b[4]);
    lemma_unsplit(m4, m5, b[3]);
    lemma_unsplit(m5, m6, b[2]);
    lemma_unsplit(m6, m7, b[1]);
    assert(b =~= be_bytes(n));
}

proof fn lemma_challenge(bytes: Seq<u8>, nonce: u64, user: Seq<char>, password: Seq<char>)
    ensures
        is_challenge(bytes, nonce, user, password) <==> bytes == challenge(nonce, user, password),
{
    let built = challenge(nonce, user, password);
    let name_end = 8 + encode_utf8(user).len() as int;
    lemma_be_bytes(nonce);
    assert(built.subrange(8, name_end) =~= encode_utf8(user));
    assert(built.skip(name_end) =~= encode_utf8(password));
    if is_challenge(bytes, nonce, user, password) {
        lemma_one_number(bytes.take(8), nonce);
        assert(bytes =~= bytes.take(8) + bytes.subrange(8, name_end) + bytes.skip(name_end));
    }
}

/// The challenge is the nonce, the name and the password, each in full.
pub proof fn law_challenge_is_complete(nonce: u64, user: &str, password: &str, r: Vec<u8>)
    requires
        call_ensures(challenge_bytes, (nonce, user, password), r),
    ensures
        is_challenge(r@, nonce, user@, password@),
{
    lemma_challenge(r@, nonce, user@, password@);
}

/// Challenges of one user differ where the nonces or the passwords differ, however long the
/// passwords are.
pub proof fn law_challenges_differ(
    nonce: u64,
    password: &str,
    r: Vec<u8>,
    other_nonce: u64,
    other_password: &str,
    other_r: Vec<u8>,
    user: &str,
)
    requires
        call_ensures(challenge_bytes, (nonce, user, password), r),
        call_ensures(challenge_bytes, (other_nonce, user, other_password), other_r),
    ensures
        r@ == other_r@ <==> nonce == other_nonce && password@ == other_password@,
{
    lemma_challenge(r@, nonce, user@, password@);
    lemma_challenge(other_r@, other_nonce, user@, other_password@);
    encode_utf8_decode_utf8(password@);
    encode_utf8_decode_utf8(other_password@);
}

/// A response is right where it is the digest in lower-case hexadecimal.
pub proof fn law_response_is_hexadecimal(digest: &[u8], response: &str, r: bool)
    requires
        call_ensures(response_matches, (digest, response), r),
    ensures
        r == is_hex_of(response@, digest@),
{
    lemma_hex(digest@);
}

/// Whether a login ended with the client being refused: status 401, this text, no cookie and no
/// session.
pub open spec fn turned_away(login: Login, text: Seq<char>) -> bool {
    &&& login matches Login::Done { session, reply }
    &&& session is None
    &&& reply.status == 401
    &&& reply.body@ == text
    &&& text128(reply.cookie).len() == 0
}

/// With the digest of the challenge at hand a login goes on, for the user on the device, exactly
/// where it names that user and its response is the digest.
pub proof fn law_digest_decides(
    data: LoginData,
    user: heapless::String<32>,
    digest: &[u8],
    r: Login,
)
    requires
        call_ensures(check_digest, (&data, user, digest), r),
    ensures
        if text32(data.user) == text32(user) && is_hex_of(text64(data.response), digest@) {
            r matches Login::Token(to) && text32(to.username) == text32(user)
        } else {
            turned_away(r, "Invalid credentials"@)
        },
{
    lemma_hex(digest@);
}

/// A login whose nonce was good goes on exactly where the device has a name and a password, the
/// login names that user, and its response is the SHA-256 digest, in hexadecimal, of the nonce,
/// the name and the password. Any other one is refused.
pub proof fn law_password_is_asked_for(
    data: LoginData,
    user: Option<heapless::String<32>>,
    password: Option<heapless::String<32>>,
    bytes: Seq<u8>,
    r: Login,
)
    requires
        user is Some && password is Some ==> is_challenge(
            bytes,
            data.nonce,
            text32(user->0),
            text32(password->0),
        ),
        call_ensures(check_credentials, (&data, user, password), r),
    ensures
        if user is Some && password is Some && text32(user->0) == text32(data.user) && is_hex_of(
            text64(data.response),
            sha256_digest(bytes),
        ) {
            r matches Login::Token(to) && text32(to.username) == text32(user->0)
        } else {
            turned_away(r, "Invalid credentials"@)
        },
{
    if user is Some && password is Some {
        lemma_challenge(bytes, data.nonce, text32(user->0), text32(password->0));
        lemma_hex(sha256_digest(bytes));
    }
    if let Login::Done { reply, .. } = r {
        assert(Seq::<char>::empty().len() == 0);
    }
}

/// A login goes on with what was sent where its nonce was handed out less than 30 s, or 30 million
/// ticks, before; any other one is refused. Either way the slot of the nonce is free afterwards.
pub proof fn law_login_takes_a_nonce<const N: usize>(
    nonces: &mut NonceStore<N>,
    data: LoginData,
    now: Instant,
    r: Login,
    i: int,
)
    requires
        is_first_slot(old(nonces).slots(), data.nonce, i),
        call_ensures(handle_login_at::<N>, (nonces, data, now), r),
    ensures
        ({
            let slots = old(nonces).slots();
            let good = i < slots.len() && now.ticks < slots[i].1.ticks + 30_000_000;
            &&& good ==> r == Login::Credentials(data)
            &&& !good ==> turned_away(r, "Nonce expired or invalid"@)
            &&& final(nonces).slots() == if i < slots.len() {
                slots.update(i, (0, slots[i].1))
            } else {
                slots
            }
        }),
{
    lemma_slot_from(old(nonces).slots(), data.nonce, 0);
}

/// The login's cookie is named "session", is sent for every path and to the same site only, and is
/// kept from scripts. It is sent over plain HTTP too.
pub proof fn law_login_cookie_settings(r: CookieConfig)
    requires
        call_ensures(cookie_config, (), r),
    ensures
        r.name@ == "session"@,
        r.path@ == "/"@,
        r.same_site@ == "Strict"@,
        r.http_only,
        !r.secure,
{
}

/// A login that succeeds opens a session for the user, under the random number, that ends after an
/// hour without use; the client gets status 200 and a cookie with the number in it, for an hour.
pub proof fn law_login_opens_session(
    user: UserData,
    token: u64,
    now: Instant,
    id: Seq<char>,
    r: Login,
)
    requires
        is_plain_number(id) && place_value(id) == token,
        call_ensures(open_session_at, (user, token, now), r),
    ensures
        r matches Login::Done { session, reply } && {
            &&& session matches Some(record)
            &&& record.id == SessionId(token)
            &&& record.data == user
            &&& record.expiry == Expiry::OnInactivity(Duration { ticks: 3_600_000_000 })
            &&& record.last_active == now
            &&& reply.status == 200
            &&& reply.body@ == "Login successful"@
            &&& text128(reply.cookie) == "session="@ + id
                + "; Path=/; Max-Age=3600; SameSite=Strict; HttpOnly"@
        },
{
    lemma_one_spelling(id);
}

/// A request is let in with the session that the first session cookie of its header names, if the
/// store has that session and it is not over; the session is active from now on. Every other
/// request is sent to the login page.
pub proof fn law_request_is_let_in<const N: usize>(
    cookies: Seq<Seq<char>>,
    named: Option<u64>,
    i: int,
    store: &mut LruMemoryStore<UserData, N>,
    header: &[u8],
    now: Instant,
    r: Result<Authorized, Redirect>,
)
    requires
        old(store).wf(),
        cookies.len() > 0,
        forall|j: int| 0 <= j < cookies.len() ==> !(#[trigger] cookies[j]).contains(';'),
        header@ == encode_utf8(with_semicolons(cookies)),
        is_first_named(cookies, named),
        named matches Some(id) ==> is_slot_of(old(store)@, SessionId(id), i) || forall|j: int|
            !#[trigger] is_slot_of(old(store)@, SessionId(id), j),
        call_ensures(
            Authorized::from_request_parts_at::<LruMemoryStore<UserData, N>>,
            (store, Some(header), now),
            r,
        ),
    ensures
        ({
            let slots = old(store)@;
            if named is Some && is_slot_of(slots, SessionId(named->0), i) && !is_past(
                slots[i]->0.expiry,
                slots[i]->0.last_active,
                now,
            ) {
                &&& r matches Ok(a)
                &&& a.session.id == SessionId(named->0)
                &&& a.session.expiry == slots[i]->0.expiry
                &&& a.session.last_active == now
                &&& text32(a.session.data.username) == text32(slots[i]->0.data.username)
                &&& final(store)@ == slots.update(
                    i,
                    Some(Record { last_active: now, ..slots[i]->0 }),
                )
            } else {
                &&& r matches Err(to)
                &&& to.location@ == "/login"@
                &&& final(store)@ == if named is Some && is_slot_of(
                    slots,
                    SessionId(named->0),
                    i,
                ) {
                    slots.update(i, None)
                } else {
                    slots
                }
            }
        }),
{
    let text = with_semicolons(cookies);
    encode_utf8_valid_utf8(text);
    encode_utf8_decode_utf8(text);
    lemma_first_named(cookies);
    lemma_one_first_named(cookies, named, first_id(text, 0));
    if let Some(id) = named {
        if is_slot_of(old(store)@, SessionId(id), i) {
            lemma_is_slot_of(old(store)@, SessionId(id), i);
        } else {
            lemma_is_no_slot(old(store)@, SessionId(id));
        }
    }
}

/// By the system clock too, a login whose nonce stands in no slot is refused, every other one goes
/// on with what was sent or is refused, and the slot of the nonce is free afterwards.
pub proof fn law_login_takes_a_nonce_now<const N: usize>(
    nonces: &mut NonceStore<N>,
    data: LoginData,
    r: Login,
    i: int,
)
    requires
        is_first_slot(old(nonces).slots(), data.nonce, i),
        call_ensures(handle_login::<N>, (nonces, data), r),
    ensures
        r == Login::Credentials(data) || turned_away(r, "Nonce expired or invalid"@),
        i == old(nonces).slots().len() ==> turned_away(r, "Nonce expired or invalid"@),
        final(nonces).slots() == if i < old(nonces).slots().len() {
            old(nonces).slots().update(i, (0, old(nonces).slots()[i].1))
        } else {
            old(nonces).slots()
        },
{
    lemma_slot_from(old(nonces).slots(), data.nonce, 0);
}

/// By the system clock too, a login that succeeds opens a session that ends after an hour without
/// use, and sets its cookie for an hour.
pub proof fn law_login_opens_session_now(user: UserData, token: u64, id: Seq<char>, r: Login)
    requires
        is_plain_number(id) && place_value(id) == token,
        call_ensures(open_session, (user, token), r),
    ensures
        r matches Login::Done { session, reply } && {
            &&& session matches Some(record)
            &&& record.id == SessionId(token)
            &&& record.data == user
            &&& record.expiry == Expiry::OnInactivity(Duration { ticks: 3_600_000_000 })
            &&& reply.status == 200
            &&& reply.body@ == "Login successful"@
            &&& text128(reply.cookie) == "session="@ + id
                + "; Path=/; Max-Age=3600; SameSite=Strict; HttpOnly"@
        },
{
    lemma_one_spelling(id);
}

} // verus!
