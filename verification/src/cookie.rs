//! Cookies that carry a session's ID: writing them, and finding the ID in a request.
use crate::session::{Expiry, Record, SessionId};
use crate::text::{
    chars_of, decimal, decimal_string, digit, encode_utf8_concat, fits, is_plain_number,
    law_place_value_grows, lemma_one_spelling, place_value, push128, text128,
};
use crate::time::TICK_HZ;
use vstd::prelude::*;
use vstd::utf8::{
    decode_utf8, encode_utf8, encode_utf8_decode_utf8, encode_utf8_valid_utf8, valid_utf8,
};

verus! {

/// How session cookies are set.
#[derive(Clone, Copy, Debug)]
pub struct CookieConfig {
    pub name: &'static str,
    pub http_only: bool,
    pub same_site: &'static str,
    pub secure: bool,
    pub path: &'static str,
}

impl Default for CookieConfig {
    fn default() -> (r: CookieConfig)
        ensures
            r.name@ == "session"@,
            r.http_only,
            r.same_site@ == "Strict"@,
            r.secure,
            r.path@ == "/"@,
    {
        CookieConfig {
            name: "session",
            http_only: true,
            same_site: "Strict",
            secure: true,
            path: "/",
        }
    }
}

/// A cookie that does not fit where it is written.
#[derive(Clone, Copy, Debug, PartialEq, Eq, Structural)]
pub struct FormatError;

/// The seconds that a cookie is to last.
pub open spec fn max_age<D>(record: Record<D>) -> nat {
    match record.expiry {
        Expiry::OnInactivity(d) => (d.ticks / TICK_HZ) as nat,
        Expiry::AtDateTime(i) => (i.since(record.last_active).ticks / TICK_HZ) as nat,
    }
}

pub open spec fn http_only_attr(config: CookieConfig) -> Seq<char> {
    if config.http_only {
        "; HttpOnly"@
    } else {
        ""@
    }
}

pub open spec fn secure_attr(config: CookieConfig) -> Seq<char> {
    if config.secure {
        "; Secure"@
    } else {
        ""@
    }
}

/// The cookie for a session, in the pieces in which it is written.
pub open spec fn set_cookie_pieces<D>(record: Record<D>, config: CookieConfig) -> Seq<Seq<char>> {
    seq![
        config.name@,
        "="@,
        decimal(record.id.0 as nat),
        "; Path="@,
        config.path@,
        "; Max-Age="@,
        decimal(max_age(record)),
        "; SameSite="@,
        config.same_site@,
        http_only_attr(config),
        secure_attr(config),
    ]
}

/// The cookie that takes a session's cookie away, in the pieces in which it is written.
pub open spec fn clear_cookie_pieces(config: CookieConfig) -> Seq<Seq<char>> {
    seq![
        config.name@,
        "=; Path="@,
        config.path@,
        "; Max-Age=0; SameSite="@,
        config.same_site@,
        http_only_attr(config),
        secure_attr(config),
    ]
}

/// Pieces of text, put together.
pub open spec fn joined(pieces: Seq<Seq<char>>) -> Seq<char>
    decreases pieces.len(),
{
    if pieces.len() == 0 {
        Seq::empty()
    } else {
        joined(pieces.drop_last()) + pieces.last()
    }
}

/// How many of the pieces fit behind `text` in 128 bytes, up to the first that does not.
pub open spec fn pieces_that_fit(text: Seq<char>, pieces: Seq<Seq<char>>) -> nat
    decreases pieces.len(),
{
    if pieces.len() == 0 {
        0
    } else {
        let before = pieces_that_fit(text, pieces.drop_last());
        if before == pieces.len() - 1 && fits(text + joined(pieces), 128) {
            pieces.len()
        } else {
            before
        }
    }
}

/// Whether `after` and `r` are what writing the pieces behind `before` comes to: the pieces up to
/// the first that does not fit, and an error where there is one.
pub open spec fn wrote(
    before: Seq<char>,
    pieces: Seq<Seq<char>>,
    after: Seq<char>,
    r: Result<(), FormatError>,
) -> bool {
    let n = pieces_that_fit(before, pieces);
    &&& after == before + joined(pieces.take(n as int))
    &&& r == if n == pieces.len() {
        Ok::<(), FormatError>(())
    } else {
        Err(FormatError)
    }
}

/// The text of each of some strings.
pub open spec fn texts(strings: Seq<&str>) -> Seq<Seq<char>> {
    Seq::new(strings.len(), |i: int| strings[i]@)
}

proof fn lemma_stops_at_first_misfit(text: Seq<char>, pieces: Seq<Seq<char>>, n: int)
    requires
        0 <= n <= pieces.len(),
        pieces_that_fit(text, pieces.take(n)) < n,
    ensures
        pieces_that_fit(text, pieces) == pieces_that_fit(text, pieces.take(n)),
    decreases pieces.len() - n,
{
    if n < pieces.len() {
        assert(pieces.take(n + 1).drop_last() =~= pieces.take(n));
        lemma_stops_at_first_misfit(text, pieces, n + 1);
    } else {
        assert(pieces.take(n) =~= pieces);
    }
}

fn write_pieces(buf: &mut heapless::String<128>, pieces: &Vec<&str>) -> (r: Result<
    (),
    FormatError,
>)
    ensures
        wrote(text128(*old(buf)), texts(pieces@), text128(*final(buf)), r),
{
    let ghost before = text128(*buf);
    let ghost all = texts(pieces@);
    let mut i: usize = 0;
    assert(all.take(0) =~= Seq::empty());
    assert(before + joined(all.take(0)) =~= before);
    while i < pieces.len()
        invariant
            i <= pieces@.len(),
            before == text128(*old(buf)),
            all == texts(pieces@),
            text128(*buf) == before + joined(all.take(i as int)),
            pieces_that_fit(before, all.take(i as int)) == i,
        decreases pieces@.len() - i,
    {
        let piece: &str = pieces[i];
        proof {
            let next = all.take(i + 1);
            assert(next.drop_last() =~= all.take(i as int));
            assert(next.last() == piece@);
            assert(before + joined(next) =~= (before + joined(all.take(i as int))) + piece@);
            encode_utf8_concat(before + joined(all.take(i as int)), piece@);
        }
        if push128(buf, piece).is_err() {
            proof {
                lemma_stops_at_first_misfit(before, all, i + 1);
            }
            return Err(FormatError);
        }
        i = i + 1;
    }
    assert(all.take(i as int) =~= all);
    Ok(())
}

proof fn lemma_all_fit(text: Seq<char>, pieces: Seq<Seq<char>>)
    requires
        pieces.len() > 0,
    ensures
        (pieces_that_fit(text, pieces) == pieces.len()) <==> fits(text + joined(pieces), 128),
        pieces_that_fit(text, pieces) <= pieces.len(),
    decreases pieces.len(),
{
    let shorter = pieces.drop_last();
    assert(text + joined(pieces) =~= (text + joined(shorter)) + pieces.last());
    encode_utf8_concat(text + joined(shorter), pieces.last());
    if shorter.len() > 0 {
        lemma_all_fit(text, shorter);
    }
}

/// The cookie for a session.
pub open spec fn set_cookie_text<D>(record: Record<D>, config: CookieConfig) -> Seq<char> {
    joined(set_cookie_pieces(record, config))
}

/// The cookie that takes a session's cookie away.
pub open spec fn clear_cookie_text(config: CookieConfig) -> Seq<char> {
    joined(clear_cookie_pieces(config))
}

/// Appends the cookie for a session to `buf`. Where it does not fit, the pieces before the first
/// that does not fit are appended.
pub fn format_set_cookie<D>(
    record: &Record<D>,
    config: &CookieConfig,
    buf: &mut heapless::String<128>,
) -> (r: Result<(), FormatError>)
    ensures
        r is Ok <==> fits(text128(*old(buf)) + set_cookie_text(*record, *config), 128),
        r is Ok ==> text128(*final(buf)) == text128(*old(buf)) + set_cookie_text(
            *record,
            *config,
        ),
        wrote(
            text128(*old(buf)),
            set_cookie_pieces(*record, *config),
            text128(*final(buf)),
            r,
        ),
{
    let age: u64 = match record.expiry {
        Expiry::OnInactivity(d) => d.as_secs(),
        Expiry::AtDateTime(i) => i.saturating_duration_since(record.last_active).as_secs(),
    };
    let id = decimal_string(record.id.0);
    let age = decimal_string(age);
    let http_only: &str = if config.http_only {
        "; HttpOnly"
    } else {
        ""
    };
    let secure: &str = if config.secure {
        "; Secure"
    } else {
        ""
    };
    let mut pieces: Vec<&str> = Vec::new();
    pieces.push(config.name);
    pieces.push("=");
    pieces.push(id.as_str());
    pieces.push("; Path=");
    pieces.push(config.path);
    pieces.push("; Max-Age=");
    pieces.push(age.as_str());
    pieces.push("; SameSite=");
    pieces.push(config.same_site);
    pieces.push(http_only);
    pieces.push(secure);
    proof {
        let all = set_cookie_pieces(*record, *config);
        assert(texts(pieces@) =~= all);
        lemma_all_fit(text128(*buf), all);
        assert(all.take(all.len() as int) =~= all);
    }
    write_pieces(buf, &pieces)
}

/// Appends the cookie that takes a session's cookie away to `buf`. Where it does not fit, the
/// pieces before the first that does not fit are appended.
pub fn format_clear_cookie(config: &CookieConfig, buf: &mut heapless::String<128>) -> (r: Result<
    (),
    FormatError,
>)
    ensures
        r is Ok <==> fits(text128(*old(buf)) + clear_cookie_text(*config), 128),
        r is Ok ==> text128(*final(buf)) == text128(*old(buf)) + clear_cookie_text(*config),
        wrote(text128(*old(buf)), clear_cookie_pieces(*config), text128(*final(buf)), r),
{
    let http_only: &str = if config.http_only {
        "; HttpOnly"
    } else {
        ""
    };
    let secure: &str = if config.secure {
        "; Secure"
    } else {
        ""
    };
    let mut pieces: Vec<&str> = Vec::new();
    pieces.push(config.name);
    pieces.push("=; Path=");
    pieces.push(config.path);
    pieces.push("; Max-Age=0; SameSite=");
    pieces.push(config.same_site);
    pieces.push(http_only);
    pieces.push(secure);
    proof {
        let all = clear_cookie_pieces(*config);
        assert(texts(pieces@) =~= all);
        lemma_all_fit(text128(*buf), all);
        assert(all.take(all.len() as int) =~= all);
    }
    write_pieces(buf, &pieces)
}

// ---- Reading --------------------------------------------------------------------------------

/// Whether a character is white space.
pub open spec fn is_space(c: char) -> bool {
    let u = c as u32;
    ||| 0x09 <= u <= 0x0D
    ||| u == 0x20
    ||| u == 0x85
    ||| u == 0xA0
    ||| u == 0x1680
    ||| 0x2000 <= u <= 0x200A
    ||| u == 0x2028
    ||| u == 0x2029
    ||| u == 0x202F
    ||| u == 0x205F
    ||| u == 0x3000
}

/// Whether a character is white space.
pub fn is_white_space(c: char) -> (r: bool)
    ensures
        r == is_space(c),
{
    let u = c as u32;
    (0x09 <= u && u <= 0x0D) || u == 0x20 || u == 0x85 || u == 0xA0 || u == 0x1680 || (0x2000 <= u
        && u <= 0x200A) || u == 0x2028 || u == 0x2029 || u == 0x202F || u == 0x205F || u == 0x3000
}

/// `s` without the white space at its start.
pub open spec fn trim_start(s: Seq<char>) -> Seq<char>
    decreases s.len(),
{
    if s.len() > 0 && is_space(s[0]) {
        trim_start(s.drop_first())
    } else {
        s
    }
}

/// `s` without the white space at its end.
pub open spec fn trim_end(s: Seq<char>) -> Seq<char>
    decreases s.len(),
{
    if s.len() > 0 && is_space(s.last()) {
        trim_end(s.drop_last())
    } else {
        s
    }
}

/// The first place from `i` on where `s` has `c`, or the length of `s`.
pub open spec fn find(s: Seq<char>, c: char, i: int) -> int
    decreases s.len() - i,
{
    if i < 0 || i >= s.len() {
        s.len() as int
    } else if s[i] == c {
        i
    } else {
        find(s, c, i + 1)
    }
}

pub open spec fn is_digit(c: char) -> bool {
    '0' <= c <= '9'
}

/// The number that decimal digits stand for.
pub open spec fn digits_value(s: Seq<char>) -> nat
    decreases s.len(),
{
    if s.len() == 0 {
        0
    } else {
        10 * digits_value(s.drop_last()) + (s.last() as nat - 48) as nat
    }
}

pub open spec fn all_digits(s: Seq<char>) -> bool {
    forall|i: int| 0 <= i < s.len() ==> is_digit(#[trigger] s[i])
}

/// A number's text without the plus sign that may lead it.
pub open spec fn unsigned_part(s: Seq<char>) -> Seq<char> {
    if s.len() > 0 && s[0] == '+' {
        s.skip(1)
    } else {
        s
    }
}

/// The number that a text stands for: decimal digits, with a plus sign or without, and no more
/// than 64 bits hold.
pub open spec fn parsed_u64(s: Seq<char>) -> Option<u64> {
    let digits = unsigned_part(s);
    if digits.len() > 0 && all_digits(digits) && digits_value(digits) <= u64::MAX {
        Some(digits_value(digits) as u64)
    } else {
        None
    }
}

/// The ID in one cookie of a header: that of a cookie named "session" whose value is a number.
pub open spec fn cookie_id(cookie: Seq<char>) -> Option<u64> {
    let cookie = trim_end(trim_start(cookie));
    let eq = find(cookie, '=', 0);
    if eq < cookie.len() && cookie.take(eq) == "session"@ {
        parsed_u64(cookie.skip(eq + 1))
    } else {
        None
    }
}

/// `find` stops at the first place, from `i` on, that holds the character.
pub proof fn lemma_find(s: Seq<char>, c: char, i: int)
    requires
        0 <= i <= s.len(),
    ensures
        i <= find(s, c, i) <= s.len(),
        find(s, c, i) < s.len() ==> s[find(s, c, i)] == c,
        forall|j: int| i <= j < find(s, c, i) ==> s[j] != c,
    decreases s.len() - i,
{
    if i < s.len() && s[i] != c {
        lemma_find(s, c, i + 1);
    }
}

proof fn lemma_found(s: Seq<char>, c: char, i: int, r: int)
    requires
        0 <= i <= r <= s.len(),
        forall|j: int| i <= j < r ==> s[j] != c,
        r < s.len() ==> s[r] == c,
    ensures
        find(s, c, i) == r,
    decreases r - i,
{
    if i < r {
        lemma_found(s, c, i + 1, r);
    }
}

/// The ID in the first cookie from `from` on that has one. Cookies are set off by semicolons.
pub open spec fn first_id(header: Seq<char>, from: int) -> Option<u64>
    decreases header.len() - from,
{
    if from < 0 || from > header.len() {
        None
    } else {
        let end = find(header, ';', from);
        let id = cookie_id(header.subrange(from, end));
        if id is Some || end >= header.len() {
            id
        } else {
            proof {
                lemma_find(header, ';', from);
            }
            first_id(header, end + 1)
        }
    }
}

/// The session's ID in a request's cookie header, where there is one and it is text.
pub open spec fn header_id(header: Option<Seq<u8>>) -> Option<SessionId> {
    match header {
        Some(bytes) => if valid_utf8(bytes) {
            match first_id(decode_utf8(bytes), 0) {
                Some(id) => Some(SessionId(id)),
                None => None,
            }
        } else {
            None
        },
        None => None,
    }
}

fn trimmed(v: &Vec<char>, lo: usize, hi: usize) -> (r: (usize, usize))
    requires
        lo <= hi <= v@.len(),
    ensures
        lo <= r.0 <= r.1 <= hi,
        v@.subrange(r.0 as int, r.1 as int) == trim_end(
            trim_start(v@.subrange(lo as int, hi as int)),
        ),
{
    let mut a = lo;
    while a < hi && is_white_space(v[a])
        invariant
            lo <= a <= hi <= v@.len(),
            trim_start(v@.subrange(lo as int, hi as int)) == trim_start(
                v@.subrange(a as int, hi as int),
            ),
        decreases hi - a,
    {
        assert(v@.subrange(a as int, hi as int).drop_first() =~= v@.subrange(a + 1, hi as int));
        a = a + 1;
    }
    let ghost start = trim_start(v@.subrange(lo as int, hi as int));
    assert(start == v@.subrange(a as int, hi as int));
    let mut b = hi;
    while b > a && is_white_space(v[b - 1])
        invariant
            a <= b <= hi <= v@.len(),
            trim_end(start) == trim_end(v@.subrange(a as int, b as int)),
        decreases b - a,
    {
        assert(v@.subrange(a as int, b as int).drop_last() =~= v@.subrange(a as int, b - 1));
        b = b - 1;
    }
    (a, b)
}

fn find_char(v: &Vec<char>, c: char, lo: usize, hi: usize) -> (r: usize)
    requires
        lo <= hi <= v@.len(),
    ensures
        lo <= r <= hi,
        forall|j: int| lo <= j < r ==> v@[j] != c,
        r < hi ==> v@[r as int] == c,
{
    let mut i = lo;
    while i < hi
        invariant
            lo <= i <= hi <= v@.len(),
            forall|j: int| lo <= j < i ==> v@[j] != c,
        decreases hi - i,
    {
        if v[i] == c {
            return i;
        }
        i = i + 1;
    }
    i
}

proof fn lemma_value_grows(s: Seq<char>, n: int)
    requires
        0 <= n <= s.len(),
    ensures
        digits_value(s.take(n)) <= digits_value(s),
    decreases s.len() - n,
{
    if n < s.len() {
        assert(s.take(n + 1).drop_last() =~= s.take(n));
        lemma_value_grows(s, n + 1);
    } else {
        assert(s.take(n) =~= s);
    }
}

fn parse_number(v: &Vec<char>, lo: usize, hi: usize) -> (r: Option<u64>)
    requires
        lo <= hi <= v@.len(),
    ensures
        r == parsed_u64(v@.subrange(lo as int, hi as int)),
{
    let ghost text = v@.subrange(lo as int, hi as int);
    let start: usize = if lo < hi && v[lo] == '+' {
        lo + 1
    } else {
        lo
    };
    let ghost digits = v@.subrange(start as int, hi as int);
    assert(digits =~= unsigned_part(text));
    if start >= hi {
        return None;
    }
    let mut value: u64 = 0;
    let mut i = start;
    assert(digits.take(0) =~= Seq::empty());
    while i < hi
        invariant
            start <= i <= hi <= v@.len(),
            digits == v@.subrange(start as int, hi as int),
            digits.len() > 0,
            digits == unsigned_part(text),
            text == v@.subrange(lo as int, hi as int),
            value == digits_value(digits.take(i - start)),
            forall|j: int| 0 <= j < i - start ==> is_digit(#[trigger] digits[j]),
        decreases hi - i,
    {
        let c = v[i];
        if !('0' <= c && c <= '9') {
            assert(!is_digit(digits[i - start]));
            return None;
        }
        let d = c as u64 - 48;
        proof {
            let next = digits.take(i - start + 1);
            assert(next.drop_last() =~= digits.take(i - start));
            assert(next.last() == c);
            assert(digits_value(next) == 10 * value + d);
            lemma_value_grows(digits, i - start + 1);
        }
        if value > (u64::MAX - d) / 10 {
            return None;
        }
        value = value * 10 + d;
        i = i + 1;
    }
    assert(digits.take(i - start) =~= digits);
    Some(value)
}

fn parse_cookie(v: &Vec<char>, lo: usize, hi: usize) -> (r: Option<u64>)
    requires
        lo <= hi <= v@.len(),
    ensures
        r == cookie_id(v@.subrange(lo as int, hi as int)),
{
    let (a, b) = trimmed(v, lo, hi);
    let ghost cookie = v@.subrange(a as int, b as int);
    let eq = find_char(v, '=', a, b);
    proof {
        reveal_strlit("session");
        lemma_found(cookie, '=', 0, eq - a);
    }
    if eq >= b || eq - a != 7 || v[a] != 's' || v[a + 1] != 'e' || v[a + 2] != 's' || v[a + 3]
        != 's' || v[a + 4] != 'i' || v[a + 5] != 'o' || v[a + 6] != 'n' {
        proof {
            let name = cookie.take(eq - a);
            if eq < b && name == "session"@ {
                assert(name.len() == 7);
                assert(forall|j: int| 0 <= j < 7 ==> name[j] == v@[a + j]);
                assert(name[0] == 's' && name[1] == 'e' && name[2] == 's' && name[3] == 's'
                    && name[4] == 'i' && name[5] == 'o' && name[6] == 'n');
            }
        }
        return None;
    }
    assert(cookie.take(eq - a) =~= "session"@);
    assert(cookie.skip(eq - a + 1) =~= v@.subrange(eq + 1, b as int));
    parse_number(v, eq + 1, b)
}

/// The session's ID in a cookie header's text.
pub fn find_session_id(header: &str) -> (r: Option<u64>)
    ensures
        r == first_id(header@, 0),
{
    let v = chars_of(header);
    let mut from: usize = 0;
    loop
        invariant
            v@ == header@,
            from <= v@.len(),
            first_id(v@, 0) == first_id(v@, from as int),
        decreases v@.len() - from,
    {
        let end = find_char(&v, ';', from, v.len());
        proof {
            lemma_found(v@, ';', from as int, end as int);
        }
        let id = parse_cookie(&v, from, end);
        if id.is_some() || end >= v.len() {
            return id;
        }
        from = end + 1;
    }
}

/// `core::str::from_utf8`: the text of bytes that are valid UTF-8, and nothing for others.
#[verifier::external_body]
fn utf8_text(bytes: &[u8]) -> (r: Option<&str>)
    ensures
        r is Some <==> valid_utf8(bytes@),
        r matches Some(s) ==> s@ == decode_utf8(bytes@),
{
    core::str::from_utf8(bytes).ok()
}

/// The bytes of an optional header.
pub open spec fn opt_bytes(header: Option<&[u8]>) -> Option<Seq<u8>> {
    match header {
        Some(bytes) => Some(bytes@),
        None => None,
    }
}

/// The session's ID in a request's cookie header.
pub fn session_id_of(header: Option<&[u8]>) -> (r: Option<SessionId>)
    ensures
        r == header_id(opt_bytes(header)),
{
    match header {
        Some(bytes) => match utf8_text(bytes) {
            Some(text) => match find_session_id(text) {
                Some(id) => Some(SessionId(id)),
                None => None,
            },
            None => None,
        },
        None => None,
    }
}

// ---- Laws -----------------------------------------------------------------------------------

pub(crate) proof fn lemma_decimal(n: nat)
    ensures
        decimal(n).len() > 0,
        all_digits(decimal(n)),
        digits_value(decimal(n)) == n,
    decreases n,
{
    if n >= 10 {
        lemma_decimal(n / 10);
        assert(decimal(n).drop_last() =~= decimal(n / 10));
    } else {
        assert(decimal(n).drop_last() =~= Seq::empty());
        assert(digits_value(Seq::empty()) == 0);
    }
    assert(decimal(n).last() == digit(n % 10));
    assert(digits_value(decimal(n)) == 10 * digits_value(decimal(n).drop_last()) + n % 10);
}

/// Pieces put together are the ones before the last put together, and the last.
pub(crate) proof fn lemma_joined_steps(pieces: Seq<Seq<char>>)
    ensures
        joined(pieces.take(0)) == Seq::<char>::empty(),
        forall|n: int|
            1 <= n <= pieces.len() ==> joined(#[trigger] pieces.take(n)) == joined(
                pieces.take(n - 1),
            ) + pieces[n - 1],
        pieces.take(pieces.len() as int) == pieces,
{
    assert forall|n: int| 1 <= n <= pieces.len() implies joined(#[trigger] pieces.take(n))
        == joined(pieces.take(n - 1)) + pieces[n - 1] by {
        assert(pieces.take(n).drop_last() =~= pieces.take(n - 1));
    }
}

proof fn lemma_joined_prefix(pieces: Seq<Seq<char>>, n: int)
    requires
        0 <= n <= pieces.len(),
    ensures
        joined(pieces.take(n)).len() <= joined(pieces).len(),
        joined(pieces).take(joined(pieces.take(n)).len() as int) == joined(pieces.take(n)),
    decreases pieces.len() - n,
{
    lemma_joined_steps(pieces);
    if n < pieces.len() {
        lemma_joined_prefix(pieces, n + 1);
    }
    assert(joined(pieces).take(joined(pieces.take(n)).len() as int) =~= joined(pieces.take(n)));
}

proof fn lemma_find_behind(a: Seq<char>, b: Seq<char>, c: char, i: int)
    requires
        0 <= i <= b.len(),
    ensures
        find(a + b, c, a.len() + i) == a.len() + find(b, c, i),
    decreases b.len() - i,
{
    if i < b.len() {
        assert((a + b)[a.len() + i] == b[i]);
        if b[i] != c {
            lemma_find_behind(a, b, c, i + 1);
        }
    }
}

proof fn lemma_first_id_behind(a: Seq<char>, b: Seq<char>, i: int)
    requires
        0 <= i <= b.len(),
    ensures
        first_id(a + b, a.len() + i) == first_id(b, i),
    decreases b.len() - i,
{
    let end = find(b, ';', i);
    lemma_find(b, ';', i);
    lemma_find_behind(a, b, ';', i);
    assert((a + b).subrange(a.len() + i, a.len() + end) =~= b.subrange(i, end));
    if end < b.len() {
        lemma_first_id_behind(a, b, end + 1);
    }
}

/// A cookie header is read cookie by cookie: the first cookie that carries an ID gives it, and one
/// that carries none changes nothing.
pub proof fn law_first_session_cookie_counts(cookie: Seq<char>, rest: Seq<char>)
    requires
        !cookie.contains(';'),
    ensures
        first_id(cookie, 0) == cookie_id(cookie),
        first_id(cookie.push(';') + rest, 0) == if cookie_id(cookie) is Some {
            cookie_id(cookie)
        } else {
            first_id(rest, 0)
        },
{
    let header = cookie.push(';') + rest;
    assert forall|j: int| 0 <= j < cookie.len() implies cookie[j] != ';' && header[j] != ';' by {
        assert(cookie.contains(cookie[j]));
    }
    lemma_found(cookie, ';', 0, cookie.len() as int);
    lemma_found(header, ';', 0, cookie.len() as int);
    assert(cookie.subrange(0, cookie.len() as int) =~= cookie);
    assert(header.subrange(0, cookie.len() as int) =~= cookie);
    lemma_first_id_behind(cookie.push(';'), rest, 0);
}

/// What a client keeps of a cookie: its name and its value, up to the first semicolon.
pub open spec fn kept_by_client(cookie: Seq<char>) -> Seq<char> {
    cookie.take(find(cookie, ';', 0))
}

proof fn lemma_session_pair(value: Seq<char>)
    requires
        all_digits(value),
    ensures
        cookie_id("session="@ + value) == parsed_u64(value),
{
    let pair = "session="@ + value;
    reveal_strlit("session=");
    reveal_strlit("session");
    assert(forall|j: int| 0 <= j < value.len() ==> is_digit(#[trigger] value[j]));
    assert(trim_start(pair) == pair);
    assert(pair.last() == if value.len() > 0 {
        value.last()
    } else {
        '='
    });
    assert(trim_end(pair) == pair);
    lemma_found(pair, '=', 0, 7);
    assert(pair.take(7) =~= "session"@);
    assert(pair.skip(8) =~= value);
}

/// A session's cookie comes back with the session's ID in it.
pub proof fn law_cookie_comes_back<D>(record: Record<D>, config: CookieConfig)
    requires
        config.name@ == "session"@,
    ensures
        first_id(kept_by_client(set_cookie_text(record, config)), 0) == Some(record.id.0),
{
    let pieces = set_cookie_pieces(record, config);
    let text = set_cookie_text(record, config);
    let value = decimal(record.id.0 as nat);
    let pair = "session="@ + value;
    lemma_decimal(record.id.0 as nat);
    reveal_strlit("session=");
    reveal_strlit("session");
    reveal_strlit("=");
    reveal_strlit("; Path=");
    lemma_joined_steps(pieces);
    assert(joined(pieces.take(4)) =~= pair + "; Path="@);
    lemma_joined_prefix(pieces, 4);
    let n = pair.len() + 7;
    assert(text.take(n as int) == pair + "; Path="@);
    assert(forall|j: int| 0 <= j < pair.len() + 7 ==> text[j] == text.take(n as int)[j]);
    assert(forall|j: int| 0 <= j < value.len() ==> is_digit(#[trigger] value[j]));
    lemma_found(text, ';', 0, pair.len() as int);
    assert(kept_by_client(text) =~= pair);
    lemma_session_pair(value);
    assert(unsigned_part(value) == value);
    assert(!pair.contains(';'));
    law_first_session_cookie_counts(pair, Seq::empty());
}

/// The cookie that takes a session's cookie away carries no ID.
pub proof fn law_cleared_cookie_carries_no_id(config: CookieConfig)
    requires
        config.name@ == "session"@,
    ensures
        first_id(kept_by_client(clear_cookie_text(config)), 0) is None,
{
    let pieces = clear_cookie_pieces(config);
    let text = clear_cookie_text(config);
    let pair = "session="@ + Seq::empty();
    reveal_strlit("session=");
    reveal_strlit("session");
    reveal_strlit("=; Path=");
    lemma_joined_steps(pieces);
    assert(joined(pieces.take(2)) =~= "session"@ + "=; Path="@);
    lemma_joined_prefix(pieces, 2);
    assert(forall|j: int| 0 <= j < 15 ==> text[j] == text.take(15)[j]);
    lemma_found(text, ';', 0, 8);
    assert(kept_by_client(text) =~= pair);
    lemma_session_pair(Seq::empty());
    assert(!pair.contains(';'));
    law_first_session_cookie_counts(pair, Seq::empty());
}

// ---- What is written ------------------------------------------------------------------------

/// How many whole seconds a session with this policy, last active at `active`, has left. A second
/// has a million ticks.
pub open spec fn secs_left(expiry: Expiry, active: crate::time::Instant) -> int {
    match expiry {
        Expiry::OnInactivity(idle) => idle.ticks as int / 1_000_000,
        Expiry::AtDateTime(end) => if end.ticks > active.ticks {
            (end.ticks - active.ticks) / 1_000_000
        } else {
            0
        },
    }
}

proof fn lemma_where_writing_stops(text: Seq<char>, pieces: Seq<Seq<char>>)
    ensures
        ({
            let n = pieces_that_fit(text, pieces) as int;
            &&& n <= pieces.len()
            &&& n > 0 ==> fits(text + joined(pieces.take(n)), 128)
            &&& n < pieces.len() ==> !fits(text + joined(pieces.take(n + 1)), 128)
        }),
    decreases pieces.len(),
{
    if pieces.len() > 0 {
        let shorter = pieces.drop_last();
        lemma_where_writing_stops(text, shorter);
        let n = pieces_that_fit(text, shorter) as int;
        assert(pieces.take(n) =~= shorter.take(n));
        assert(pieces.take(pieces.len() as int) =~= pieces);
        if n < shorter.len() {
            assert(pieces.take(n + 1) =~= shorter.take(n + 1));
        }
    }
}

proof fn lemma_joined_is_flat(pieces: Seq<Seq<char>>)
    ensures
        joined(pieces) == pieces.flatten(),
    decreases pieces.len(),
{
    pieces.lemma_flatten_and_flatten_alt_are_equivalent();
    if pieces.len() > 0 {
        lemma_joined_is_flat(pieces.drop_last());
        pieces.drop_last().lemma_flatten_and_flatten_alt_are_equivalent();
    }
}

/// Whether writing pieces of text behind `before` came to `after` and `r`: all of them where they
/// take at most 128 bytes together, else an error and as many as fit.
pub open spec fn written(
    before: Seq<char>,
    pieces: Seq<Seq<char>>,
    after: Seq<char>,
    r: Result<(), FormatError>,
) -> bool {
    if encode_utf8(before + pieces.flatten()).len() <= 128 {
        r is Ok && after == before + pieces.flatten()
    } else {
        &&& r is Err
        &&& exists|n: int|
            {
                &&& 0 <= n < pieces.len()
                &&& after == before + (#[trigger] pieces.take(n)).flatten()
                &&& n > 0 ==> encode_utf8(after).len() <= 128
                &&& encode_utf8(before + pieces.take(n + 1).flatten()).len() > 128
            }
    }
}

proof fn lemma_wrote_is_written(
    before: Seq<char>,
    pieces: Seq<Seq<char>>,
    after: Seq<char>,
    r: Result<(), FormatError>,
)
    requires
        pieces.len() > 0,
        wrote(before, pieces, after, r),
    ensures
        written(before, pieces, after, r),
{
    let n = pieces_that_fit(before, pieces) as int;
    lemma_where_writing_stops(before, pieces);
    lemma_all_fit(before, pieces);
    lemma_joined_is_flat(pieces);
    lemma_joined_is_flat(pieces.take(n));
    assert(pieces.take(pieces.len() as int) =~= pieces);
    if n < pieces.len() {
        lemma_joined_is_flat(pieces.take(n + 1));
    }
}

/// A session's cookie: the name, the ID in decimal, the path, the whole seconds that the session
/// has left, and the attributes that the configuration asks for, in this order.
pub proof fn law_session_cookie_is_written<D>(
    record: Record<D>,
    config: CookieConfig,
    id: Seq<char>,
    age: Seq<char>,
    buf: &mut heapless::String<128>,
    r: Result<(), FormatError>,
)
    requires
        is_plain_number(id) && place_value(id) == record.id.0,
        is_plain_number(age) && place_value(age) == secs_left(record.expiry, record.last_active),
        call_ensures(format_set_cookie::<D>, (&record, &config, buf), r),
    ensures
        written(
            text128(*old(buf)),
            seq![
                config.name@,
                "="@,
                id,
                "; Path="@,
                config.path@,
                "; Max-Age="@,
                age,
                "; SameSite="@,
                config.same_site@,
                if config.http_only {
                    "; HttpOnly"@
                } else {
                    Seq::empty()
                },
                if config.secure {
                    "; Secure"@
                } else {
                    Seq::empty()
                },
            ],
            text128(*final(buf)),
            r,
        ),
{
    lemma_one_spelling(id);
    lemma_one_spelling(age);
    reveal_strlit("");
    assert(""@ =~= Seq::empty());
    lemma_wrote_is_written(
        text128(*old(buf)),
        set_cookie_pieces(record, config),
        text128(*final(buf)),
        r,
    );
}

/// The cookie that takes a session's cookie away: the same name without a value, the same path,
/// no second left, and the attributes that the configuration asks for.
pub proof fn law_clearing_cookie_is_written(
    config: CookieConfig,
    buf: &mut heapless::String<128>,
    r: Result<(), FormatError>,
)
    requires
        call_ensures(format_clear_cookie, (&config, buf), r),
    ensures
        written(
            text128(*old(buf)),
            seq![
                config.name@,
                "=; Path="@,
                config.path@,
                "; Max-Age=0; SameSite="@,
                config.same_site@,
                if config.http_only {
                    "; HttpOnly"@
                } else {
                    Seq::empty()
                },
                if config.secure {
                    "; Secure"@
                } else {
                    Seq::empty()
                },
            ],
            text128(*final(buf)),
            r,
        ),
{
    reveal_strlit("");
    assert(""@ =~= Seq::empty());
    lemma_wrote_is_written(
        text128(*old(buf)),
        clear_cookie_pieces(config),
        text128(*final(buf)),
        r,
    );
}

spec fn attributes_of(config: CookieConfig) -> Seq<char> {
    "; SameSite="@ + config.same_site@ + http_only_attr(config) + secure_attr(config)
}

proof fn lemma_four_more(p: Seq<char>, a: Seq<char>, b: Seq<char>, c: Seq<char>, d: Seq<char>)
    ensures
        p + a + b + c + d == p + (a + b + c + d),
{
    assert(p + a + b + c + d =~= p + (a + b + c + d));
}

proof fn lemma_set_cookie_text<D>(record: Record<D>, config: CookieConfig)
    ensures
        set_cookie_text(record, config) == config.name@ + "="@ + decimal(record.id.0 as nat)
            + "; Path="@ + config.path@ + "; Max-Age="@ + decimal(max_age(record))
            + attributes_of(config),
{
    let pieces = set_cookie_pieces(record, config);
    lemma_joined_steps(pieces);
    assert(joined(pieces.take(1)) =~= config.name@);
    assert(joined(pieces.take(7)) == config.name@ + "="@ + decimal(record.id.0 as nat)
        + "; Path="@ + config.path@ + "; Max-Age="@ + decimal(max_age(record)));
    lemma_four_more(
        joined(pieces.take(7)),
        "; SameSite="@,
        config.same_site@,
        http_only_attr(config),
        secure_attr(config),
    );
    assert(joined(pieces.take(8)) == joined(pieces.take(7)) + "; SameSite="@);
    assert(joined(pieces.take(9)) == joined(pieces.take(8)) + config.same_site@);
    assert(joined(pieces.take(10)) == joined(pieces.take(9)) + http_only_attr(config));
    assert(joined(pieces.take(11)) == joined(pieces.take(10)) + secure_attr(config));
}

proof fn lemma_clear_cookie_text(config: CookieConfig)
    ensures
        clear_cookie_text(config) == config.name@ + "="@ + "; Path="@ + config.path@
            + "; Max-Age="@ + "0"@ + attributes_of(config),
{
    let pieces = clear_cookie_pieces(config);
    lemma_joined_steps(pieces);
    assert("=; Path="@ =~= "="@ + "; Path="@) by {
        reveal_strlit("=; Path=");
        reveal_strlit("=");
        reveal_strlit("; Path=");
    }
    assert("; Max-Age=0; SameSite="@ =~= "; Max-Age="@ + "0"@ + "; SameSite="@) by {
        reveal_strlit("; Max-Age=0; SameSite=");
        reveal_strlit("; Max-Age=");
        reveal_strlit("0");
        reveal_strlit("; SameSite=");
    }
    assert(joined(pieces.take(1)) =~= config.name@);
    let head = config.name@ + "="@ + "; Path="@ + config.path@;
    assert(joined(pieces.take(3)) =~= head);
    let front = head + "; Max-Age="@ + "0"@;
    assert(joined(pieces.take(4)) =~= front + "; SameSite="@);
    lemma_four_more(
        front,
        "; SameSite="@,
        config.same_site@,
        http_only_attr(config),
        secure_attr(config),
    );
    assert(joined(pieces.take(5)) == joined(pieces.take(4)) + config.same_site@);
    assert(joined(pieces.take(6)) == joined(pieces.take(5)) + http_only_attr(config));
    assert(joined(pieces.take(7)) == joined(pieces.take(6)) + secure_attr(config));
}

/// The cookie that takes a session's cookie away is for the very cookie that was set: for every
/// configuration it has the same name, the same path and the same attributes, and differs only in
/// that it has no value and no time left.
pub proof fn law_clearing_cookie_matches_session_cookie<D>(
    record: Record<D>,
    config: CookieConfig,
    set: &mut heapless::String<128>,
    clear: &mut heapless::String<128>,
    set_ok: Result<(), FormatError>,
    clear_ok: Result<(), FormatError>,
)
    requires
        text128(*old(set)).len() == 0,
        text128(*old(clear)).len() == 0,
        call_ensures(format_set_cookie::<D>, (&record, &config, set), set_ok),
        call_ensures(format_clear_cookie, (&config, clear), clear_ok),
        set_ok is Ok,
        clear_ok is Ok,
    ensures
        exists|id: Seq<char>, age: Seq<char>, attributes: Seq<char>|
            {
                &&& is_plain_number(id) && place_value(id) == record.id.0
                &&& is_plain_number(age) && place_value(age) == secs_left(
                    record.expiry,
                    record.last_active,
                )
                &&& text128(*final(set)) == #[trigger] (config.name@ + "="@ + id + "; Path="@
                    + config.path@ + "; Max-Age="@ + age + attributes)
                &&& text128(*final(clear)) == config.name@ + "="@ + "; Path="@ + config.path@
                    + "; Max-Age="@ + "0"@ + attributes
                &&& attributes == "; SameSite="@ + config.same_site@ + (if config.http_only {
                    "; HttpOnly"@
                } else {
                    Seq::empty()
                }) + (if config.secure {
                    "; Secure"@
                } else {
                    Seq::empty()
                })
            },
{
    let id = decimal(record.id.0 as nat);
    let age = decimal(max_age(record));
    crate::text::lemma_decimal_stands_for(record.id.0 as nat);
    crate::text::lemma_decimal_stands_for(max_age(record));
    let attributes = attributes_of(config);
    lemma_set_cookie_text(record, config);
    lemma_clear_cookie_text(config);
    reveal_strlit("");
    assert(""@ =~= Seq::empty());
    assert(text128(*old(set)) + set_cookie_text(record, config) =~= set_cookie_text(
        record,
        config,
    ));
    assert(text128(*old(clear)) + clear_cookie_text(config) =~= clear_cookie_text(config));
    assert(text128(*final(set)) == config.name@ + "="@ + id + "; Path="@ + config.path@
        + "; Max-Age="@ + age + attributes);
}

// ---- What is read ---------------------------------------------------------------------------

/// Whether a character is one of those that Unicode counts as white space.
pub open spec fn is_blank(c: char) -> bool {
    seq![
        '\u{9}', '\u{A}', '\u{B}', '\u{C}', '\u{D}', '\u{20}', '\u{85}', '\u{A0}', '\u{1680}',
        '\u{2000}', '\u{2001}', '\u{2002}', '\u{2003}', '\u{2004}', '\u{2005}', '\u{2006}',
        '\u{2007}', '\u{2008}', '\u{2009}', '\u{200A}', '\u{2028}', '\u{2029}', '\u{202F}',
        '\u{205F}', '\u{3000}',
    ].contains(c)
}

/// White space is what Unicode counts as such.
pub proof fn law_white_space(c: char, r: bool)
    requires
        call_ensures(is_white_space, (c,), r),
    ensures
        r == is_blank(c),
{
    lemma_blank(c);
}

proof fn lemma_blank(c: char)
    ensures
        is_space(c) == is_blank(c),
{
    let blanks = seq![
        '\u{9}', '\u{A}', '\u{B}', '\u{C}', '\u{D}', '\u{20}', '\u{85}', '\u{A0}', '\u{1680}',
        '\u{2000}', '\u{2001}', '\u{2002}', '\u{2003}', '\u{2004}', '\u{2005}', '\u{2006}',
        '\u{2007}', '\u{2008}', '\u{2009}', '\u{200A}', '\u{2028}', '\u{2029}', '\u{202F}',
        '\u{205F}', '\u{3000}',
    ];
    if is_space(c) {
        assert(c == blanks[0] || c == blanks[1] || c == blanks[2] || c == blanks[3] || c
            == blanks[4] || c == blanks[5] || c == blanks[6] || c == blanks[7] || c == blanks[8]
            || c == blanks[9] || c == blanks[10] || c == blanks[11] || c == blanks[12] || c
            == blanks[13] || c == blanks[14] || c == blanks[15] || c == blanks[16] || c
            == blanks[17] || c == blanks[18] || c == blanks[19] || c == blanks[20] || c
            == blanks[21] || c == blanks[22] || c == blanks[23] || c == blanks[24]);
    }
}

/// Whether a text is white space throughout.
pub open spec fn all_blank(s: Seq<char>) -> bool {
    forall|i: int| 0 <= i < s.len() ==> is_blank(#[trigger] s[i])
}

/// Whether a cookie is `before`, the name "session", an equals sign, a plus sign or none, `digits`
/// and `after`, where `before` and `after` are white space, and `digits` is the number `id` in
/// decimal.
pub open spec fn is_session_cookie(
    cookie: Seq<char>,
    before: Seq<char>,
    plus: bool,
    digits: Seq<char>,
    after: Seq<char>,
    id: u64,
) -> bool {
    &&& cookie == before + "session="@ + (if plus {
        seq!['+']
    } else {
        Seq::empty()
    }) + digits + after
    &&& all_blank(before)
    &&& all_blank(after)
    &&& digits.len() > 0
    &&& forall|i: int| 0 <= i < digits.len() ==> '0' <= #[trigger] digits[i] <= '9'
    &&& place_value(digits) == id
}

/// Whether a cookie names the session `id`.
pub open spec fn names_session(cookie: Seq<char>, id: u64) -> bool {
    exists|before: Seq<char>, plus: bool, digits: Seq<char>, after: Seq<char>|
        #[trigger] is_session_cookie(cookie, before, plus, digits, after, id)
}

proof fn lemma_trim_start(s: Seq<char>) -> (cut: Seq<char>)
    ensures
        s == cut + trim_start(s),
        all_blank(cut),
        trim_start(s).len() > 0 ==> !is_space(trim_start(s)[0]),
    decreases s.len(),
{
    if s.len() > 0 && is_space(s[0]) {
        let rest = lemma_trim_start(s.drop_first());
        let cut = seq![s[0]] + rest;
        lemma_blank(s[0]);
        assert(s =~= seq![s[0]] + s.drop_first());
        assert(s =~= seq![s[0]] + (rest + trim_start(s)));
        assert(s =~= cut + trim_start(s));
        assert forall|i: int| 0 <= i < cut.len() implies is_blank(#[trigger] cut[i]) by {
            if i > 0 {
                assert(cut[i] == rest[i - 1]);
            }
        }
        cut
    } else {
        assert(s =~= Seq::empty() + s);
        Seq::empty()
    }
}

proof fn lemma_trim_end(s: Seq<char>) -> (cut: Seq<char>)
    ensures
        s == trim_end(s) + cut,
        all_blank(cut),
        trim_end(s).len() > 0 ==> !is_space(trim_end(s).last()),
    decreases s.len(),
{
    if s.len() > 0 && is_space(s.last()) {
        let rest = lemma_trim_end(s.drop_last());
        let cut = rest.push(s.last());
        lemma_blank(s.last());
        assert(s =~= s.drop_last().push(s.last()));
        assert(s =~= (trim_end(s) + rest).push(s.last()));
        assert(s =~= trim_end(s) + cut);
        cut
    } else {
        assert(s =~= s + Seq::empty());
        Seq::empty()
    }
}

proof fn lemma_trimmed_at_start(blank: Seq<char>, s: Seq<char>)
    requires
        all_blank(blank),
        s.len() > 0,
        !is_space(s[0]),
    ensures
        trim_start(blank + s) == s,
    decreases blank.len(),
{
    if blank.len() > 0 {
        lemma_blank(blank[0]);
        let rest = blank.drop_first();
        assert forall|i: int| 0 <= i < rest.len() implies is_blank(#[trigger] rest[i]) by {
            assert(rest[i] == blank[i + 1]);
        }
        lemma_trimmed_at_start(rest, s);
        assert((blank + s).drop_first() =~= rest + s);
    } else {
        assert(blank + s =~= s);
    }
}

proof fn lemma_trimmed_at_end(s: Seq<char>, blank: Seq<char>)
    requires
        all_blank(blank),
        s.len() > 0,
        !is_space(s.last()),
    ensures
        trim_end(s + blank) == s,
    decreases blank.len(),
{
    if blank.len() > 0 {
        lemma_blank(blank.last());
        let rest = blank.drop_last();
        assert forall|i: int| 0 <= i < rest.len() implies is_blank(#[trigger] rest[i]) by {
            assert(rest[i] == blank[i]);
        }
        lemma_trimmed_at_end(s, rest);
        assert((s + blank).drop_last() =~= s + rest);
    } else {
        assert(s + blank =~= s);
    }
}

proof fn lemma_digits_value(s: Seq<char>)
    requires
        all_digits(s),
    ensures
        digits_value(s) == place_value(s),
    decreases s.len(),
{
    if s.len() > 0 {
        let before = s.drop_last();
        assert forall|i: int| 0 <= i < before.len() implies is_digit(#[trigger] before[i]) by {
            assert(before[i] == s[i]);
        }
        lemma_digits_value(before);
        law_place_value_grows(before, s.last());
        assert(s =~= before.push(s.last()));
        assert(is_digit(s[s.len() - 1]));
    }
}

/// A cookie gives the ID of the session that it names, and none where it names none.
pub proof fn law_cookie_names_session(cookie: Seq<char>, id: u64)
    ensures
        names_session(cookie, id) <==> cookie_id(cookie) == Some(id),
{
    reveal_strlit("session=");
    reveal_strlit("session");
    if names_session(cookie, id) {
        let (before, plus, digits, after) = choose|
            before: Seq<char>,
            plus: bool,
            digits: Seq<char>,
            after: Seq<char>,
        | #[trigger]
            is_session_cookie(cookie, before, plus, digits, after, id);
        let value = (if plus {
            seq!['+']
        } else {
            Seq::empty()
        }) + digits;
        let core = "session="@ + value;
        assert('0' <= digits[0] <= '9');
        assert('0' <= digits[digits.len() - 1] <= '9');
        assert(unsigned_part(value) =~= digits);
        assert(cookie =~= before + (core + after));
        assert(core[0] == 's');
        assert(core.last() == digits[digits.len() - 1]);
        lemma_trimmed_at_start(before, core + after);
        lemma_trimmed_at_end(core, after);
        lemma_found(core, '=', 0, 7);
        assert(core.take(7) =~= "session"@);
        assert(core.skip(8) =~= value);
        assert forall|i: int| 0 <= i < digits.len() implies is_digit(#[trigger] digits[i]) by {
            assert('0' <= digits[i] <= '9');
        }
        lemma_digits_value(digits);
    }
    if cookie_id(cookie) == Some(id) {
        let before = lemma_trim_start(cookie);
        let after = lemma_trim_end(trim_start(cookie));
        let core = trim_end(trim_start(cookie));
        let eq = find(core, '=', 0);
        lemma_find(core, '=', 0);
        assert(core.take(eq) == "session"@);
        assert(eq == 7);
        let value = core.skip(8);
        assert forall|i: int| 0 <= i < 7 implies core[i] == "session="@[i] by {
            assert(core[i] == core.take(eq)[i]);
        }
        assert(core =~= "session="@ + value);
        let digits = unsigned_part(value);
        let plus = value.len() > 0 && value[0] == '+';
        if plus {
            assert(value =~= seq!['+'] + digits);
        }
        assert(cookie =~= before + "session="@ + (if plus {
            seq!['+']
        } else {
            Seq::empty()
        }) + digits + after);
        lemma_digits_value(digits);
        assert forall|i: int| 0 <= i < digits.len() implies '0' <= #[trigger] digits[i]
            <= '9' by {
            assert(is_digit(digits[i]));
        }
        assert(is_session_cookie(cookie, before, plus, digits, after, id));
    }
}

/// Cookies with semicolons between them.
pub open spec fn with_semicolons(cookies: Seq<Seq<char>>) -> Seq<char>
    decreases cookies.len(),
{
    if cookies.len() == 0 {
        Seq::empty()
    } else if cookies.len() == 1 {
        cookies[0]
    } else {
        cookies[0].push(';') + with_semicolons(cookies.drop_first())
    }
}

/// Whether `r` is the ID of the first session that is named among cookies, and nothing where none
/// of them names one.
pub open spec fn is_first_named(cookies: Seq<Seq<char>>, r: Option<u64>) -> bool {
    match r {
        Some(id) => exists|k: int|
            {
                &&& 0 <= k < cookies.len()
                &&& names_session(#[trigger] cookies[k], id)
                &&& forall|j: int, other: u64|
                    0 <= j < k ==> !#[trigger] names_session(cookies[j], other)
            },
        None => forall|j: int, other: u64|
            0 <= j < cookies.len() ==> !#[trigger] names_session(cookies[j], other),
    }
}

pub(crate) proof fn lemma_first_named(cookies: Seq<Seq<char>>)
    requires
        cookies.len() > 0,
        forall|i: int| 0 <= i < cookies.len() ==> !(#[trigger] cookies[i]).contains(';'),
    ensures
        is_first_named(cookies, first_id(with_semicolons(cookies), 0)),
    decreases cookies.len(),
{
    let first = cookies[0];
    let r = first_id(with_semicolons(cookies), 0);
    assert forall|other: u64| #[trigger] names_session(first, other) == (cookie_id(first) == Some(
        other,
    )) by {
        law_cookie_names_session(first, other);
    }
    if cookies.len() == 1 {
        law_first_session_cookie_counts(first, Seq::empty());
        if let Some(id) = r {
            assert(names_session(cookies[0], id));
        }
    } else {
        let rest = cookies.drop_first();
        assert forall|i: int| 0 <= i < rest.len() implies !(#[trigger] rest[i]).contains(';') by {
            assert(rest[i] == cookies[i + 1]);
        }
        lemma_first_named(rest);
        law_first_session_cookie_counts(first, with_semicolons(rest));
        if cookie_id(first) is Some {
            assert(names_session(cookies[0], r->0));
        } else if let Some(id) = r {
            let k = choose|k: int|
                {
                    &&& 0 <= k < rest.len()
                    &&& names_session(#[trigger] rest[k], id)
                    &&& forall|j: int, other: u64|
                        0 <= j < k ==> !#[trigger] names_session(rest[j], other)
                };
            assert(names_session(cookies[k + 1], id));
            assert forall|j: int, other: u64| 0 <= j < k + 1 implies !#[trigger] names_session(
                cookies[j],
                other,
            ) by {
                if j > 0 {
                    assert(cookies[j] == rest[j - 1]);
                    assert(!names_session(rest[j - 1], other));
                }
            }
        } else {
            assert forall|j: int, other: u64|
                0 <= j < cookies.len() implies !#[trigger] names_session(cookies[j], other) by {
                if j > 0 {
                    assert(cookies[j] == rest[j - 1]);
                    assert(!names_session(rest[j - 1], other));
                }
            }
        }
    }
}

pub(crate) proof fn lemma_one_first_named(cookies: Seq<Seq<char>>, a: Option<u64>, b: Option<u64>)
    requires
        is_first_named(cookies, a),
        is_first_named(cookies, b),
    ensures
        a == b,
{
    if a is Some && b is Some {
        let i = choose|k: int|
            {
                &&& 0 <= k < cookies.len()
                &&& names_session(#[trigger] cookies[k], a->0)
                &&& forall|j: int, other: u64|
                    0 <= j < k ==> !#[trigger] names_session(cookies[j], other)
            };
        let k = choose|k: int|
            {
                &&& 0 <= k < cookies.len()
                &&& names_session(#[trigger] cookies[k], b->0)
                &&& forall|j: int, other: u64|
                    0 <= j < k ==> !#[trigger] names_session(cookies[j], other)
            };
        assert(i == k);
        law_cookie_names_session(cookies[i], a->0);
        law_cookie_names_session(cookies[i], b->0);
    }
}

/// The session of a request is the first one that a cookie of its header names. Cookies are set
/// off by semicolons.
pub proof fn law_first_named_session_is_found(
    cookies: Seq<Seq<char>>,
    header: &str,
    r: Option<u64>,
)
    requires
        cookies.len() > 0,
        forall|i: int| 0 <= i < cookies.len() ==> !(#[trigger] cookies[i]).contains(';'),
        header@ == with_semicolons(cookies),
        call_ensures(find_session_id, (header,), r),
    ensures
        is_first_named(cookies, r),
{
    lemma_first_named(cookies);
}

/// A request's session is that of its cookie header, where the header is text. Without a header,
/// or with one that is no text, there is none.
pub proof fn law_session_of_a_request(
    cookies: Seq<Seq<char>>,
    header: Option<&[u8]>,
    r: Option<SessionId>,
)
    requires
        cookies.len() > 0,
        forall|i: int| 0 <= i < cookies.len() ==> !(#[trigger] cookies[i]).contains(';'),
        call_ensures(session_id_of, (header,), r),
    ensures
        header is None ==> r is None,
        header matches Some(bytes) && !valid_utf8(bytes@) ==> r is None,
        header matches Some(bytes) && bytes@ == encode_utf8(with_semicolons(cookies))
            ==> is_first_named(
            cookies,
            match r {
                Some(SessionId(id)) => Some(id),
                None => None,
            },
        ),
{
    lemma_first_named(cookies);
    encode_utf8_valid_utf8(with_semicolons(cookies));
    encode_utf8_decode_utf8(with_semicolons(cookies));
}

/// Without other settings a cookie is named "session", is sent for every path, to the same site and
/// over HTTPS only, and is kept from scripts.
pub proof fn law_default_cookie_settings(r: CookieConfig)
    requires
        call_ensures(<CookieConfig as Default>::default, (), r),
    ensures
        r.name@ == "session"@,
        r.path@ == "/"@,
        r.same_site@ == "Strict"@,
        r.http_only,
        r.secure,
{
}

} // verus!
