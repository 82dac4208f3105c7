//! Text in fixed-capacity strings, and text as sequences of characters.
use vstd::arithmetic::power::{lemma_pow1, lemma_pow_adds, pow};
use vstd::prelude::*;
use vstd::utf8::{encode_utf8, is_ascii_chars, is_ascii_chars_encode_utf8};

verus! {

/// A string of at most `N` bytes of UTF-8, kept in place.
#[verifier::external_type_specification]
#[verifier::external_body]
pub struct ExFixedString<const N: usize>(heapless::String<N>);

/// A vector of at most `N` items, kept in place.
#[verifier::external_type_specification]
#[verifier::external_body]
#[verifier::reject_recursive_types(T)]
pub struct ExFixedVec<T, const N: usize>(heapless::Vec<T, N>);

/// The characters held by a string of capacity 32.
pub uninterp spec fn text32(s: heapless::String<32>) -> Seq<char>;

/// The characters held by a string of capacity 64.
pub uninterp spec fn text64(s: heapless::String<64>) -> Seq<char>;

/// The characters held by a string of capacity 128.
pub uninterp spec fn text128(s: heapless::String<128>) -> Seq<char>;

/// Whether `text` takes at most `capacity` bytes of UTF-8.
pub open spec fn fits(text: Seq<char>, capacity: int) -> bool {
    encode_utf8(text).len() <= capacity
}

/// `heapless::String::<32>::from_str`: a copy of `s` where its bytes fit, else an error.
#[verifier::external_body]
pub(crate) fn try_text32(s: &str) -> (r: Result<heapless::String<32>, ()>)
    ensures
        r is Ok <==> fits(s@, 32),
        r matches Ok(t) ==> text32(t) == s@,
{
    <heapless::String<32> as core::str::FromStr>::from_str(s)
}

/// `heapless::String::<32>::as_str`: the text held, which never exceeds the capacity.
#[verifier::external_body]
pub(crate) fn str32(s: &heapless::String<32>) -> (r: &str)
    ensures
        r@ == text32(*s),
        fits(r@, 32),
{
    s.as_str()
}

/// `heapless::String::<32>::clone`: a string holding the same text.
#[verifier::external_body]
pub(crate) fn clone32(s: &heapless::String<32>) -> (r: heapless::String<32>)
    ensures
        text32(r) == text32(*s),
{
    s.clone()
}

/// `heapless::String::<64>::try_from`: a copy of `s` where its bytes fit, else an error.
#[verifier::external_body]
pub(crate) fn try_text64(s: &str) -> (r: Result<heapless::String<64>, ()>)
    ensures
        r is Ok <==> fits(s@, 64),
        r matches Ok(t) ==> text64(t) == s@,
{
    heapless::String::try_from(s)
}

/// `heapless::String::<64>::as_str`: the text held, which never exceeds the capacity.
#[verifier::external_body]
pub(crate) fn str64(s: &heapless::String<64>) -> (r: &str)
    ensures
        r@ == text64(*s),
        fits(r@, 64),
{
    s.as_str()
}

/// `heapless::String::<64>::clone`: a string holding the same text.
#[verifier::external_body]
pub(crate) fn clone64(s: &heapless::String<64>) -> (r: heapless::String<64>)
    ensures
        text64(r) == text64(*s),
{
    s.clone()
}

/// `heapless::String::<64>::default`: the empty string.
#[verifier::external_body]
pub(crate) fn empty64() -> (r: heapless::String<64>)
    ensures
        text64(r) == Seq::<char>::empty(),
{
    heapless::String::default()
}

/// `heapless::String::<128>::new`: the empty string.
#[verifier::external_body]
pub(crate) fn empty128() -> (r: heapless::String<128>)
    ensures
        text128(r) == Seq::<char>::empty(),
{
    heapless::String::new()
}

/// `heapless::String::<128>::push_str`: appends `s` where the bytes held and those of `s`
/// fit together, else leaves the string as it is and reports an error.
#[verifier::external_body]
pub(crate) fn push128(buf: &mut heapless::String<128>, s: &str) -> (r: Result<(), ()>)
    ensures
        r is Ok <==> encode_utf8(text128(*old(buf))).len() + encode_utf8(s@).len() <= 128,
        r is Ok ==> text128(*final(buf)) == text128(*old(buf)) + s@,
        r is Err ==> text128(*final(buf)) == text128(*old(buf)),
{
    buf.push_str(s)
}

/// UTF-8 encodes a concatenation piece by piece.
pub proof fn encode_utf8_concat(a: Seq<char>, b: Seq<char>)
    ensures
        encode_utf8(a + b) == encode_utf8(a) + encode_utf8(b),
    decreases a.len(),
{
    if a.len() == 0 {
        assert(a + b == b);
        assert(encode_utf8(a) + encode_utf8(b) == encode_utf8(b));
    } else {
        encode_utf8_concat(a.drop_first(), b);
        assert((a + b).drop_first() == a.drop_first() + b);
        assert((a + b)[0] == a[0]);
        assert(encode_utf8(a + b) == encode_utf8(a) + encode_utf8(b));
    }
}

/// The characters of `s`, one by one.
pub fn chars_of(s: &str) -> (r: Vec<char>)
    ensures
        r@ == s@,
{
    let mut out: Vec<char> = Vec::new();
    for c in it: s.chars()
        invariant
            out@ == it.seq().take(it.index()),
            it.seq() == s@,
    {
        out.push(c);
    }
    out
}

/// Whether two strings hold the same text.
pub fn same_text(a: &str, b: &str) -> (r: bool)
    ensures
        r == (a@ == b@),
{
    let x = chars_of(a);
    let y = chars_of(b);
    same_chars(&x, &y)
}

pub(crate) fn same_chars(x: &Vec<char>, y: &Vec<char>) -> (r: bool)
    ensures
        r == (x@ == y@),
{
    if x.len() != y.len() {
        return false;
    }
    let mut i: usize = 0;
    while i < x.len()
        invariant
            x@.len() == y@.len(),
            i <= x@.len(),
            forall|j: int| 0 <= j < i ==> x@[j] == y@[j],
        decreases x@.len() - i,
    {
        if x[i] != y[i] {
            return false;
        }
        i = i + 1;
    }
    assert(x@ =~= y@);
    true
}

/// The decimal digit for a number below ten.
pub open spec fn digit(d: nat) -> char {
    (48 + d) as char
}

/// A number in decimal, without leading zeros.
pub open spec fn decimal(n: nat) -> Seq<char>
    decreases n,
{
    if n < 10 {
        seq![digit(n)]
    } else {
        decimal(n / 10).push(digit(n % 10))
    }
}

fn digit_str(d: u64) -> (r: &'static str)
    requires
        d < 10,
    ensures
        r@ == seq![digit(d as nat)],
{
    proof {
        reveal_strlit("0");
        reveal_strlit("1");
        reveal_strlit("2");
        reveal_strlit("3");
        reveal_strlit("4");
        reveal_strlit("5");
        reveal_strlit("6");
        reveal_strlit("7");
        reveal_strlit("8");
        reveal_strlit("9");
    }
    match d {
        0 => "0",
        1 => "1",
        2 => "2",
        3 => "3",
        4 => "4",
        5 => "5",
        6 => "6",
        7 => "7",
        8 => "8",
        _ => "9",
    }
}

/// A number in decimal.
pub fn decimal_string(n: u64) -> (r: String)
    ensures
        r@ == decimal(n as nat),
    decreases n,
{
    if n < 10 {
        digit_str(n).to_owned()
    } else {
        let mut r = decimal_string(n / 10);
        r.append(digit_str(n % 10));
        assert(r@ == decimal((n / 10) as nat).push(digit((n % 10) as nat)));
        r
    }
}

/// The lower-case hexadecimal digit for a number below sixteen.
pub open spec fn hex_digit(d: int) -> char {
    if d < 10 {
        (48 + d) as char
    } else {
        (87 + d) as char
    }
}

/// Bytes in lower-case hexadecimal, two digits for each.
pub open spec fn hex(bytes: Seq<u8>) -> Seq<char> {
    Seq::new(
        2 * bytes.len(),
        |i: int|
            if i % 2 == 0 {
                hex_digit(bytes[i / 2] as int / 16)
            } else {
                hex_digit(bytes[i / 2] as int % 16)
            },
    )
}

fn hex_digit_char(d: u8) -> (r: char)
    requires
        d < 16,
    ensures
        r == hex_digit(d as int),
{
    if d < 10 {
        (48 + d) as char
    } else {
        (87 + d) as char
    }
}

/// Bytes in lower-case hexadecimal.
pub fn hex_chars(bytes: &[u8]) -> (r: Vec<char>)
    ensures
        r@ == hex(bytes@),
{
    let mut out: Vec<char> = Vec::new();
    let mut i: usize = 0;
    while i < bytes.len()
        invariant
            i <= bytes@.len(),
            out@ == hex(bytes@.take(i as int)),
        decreases bytes@.len() - i,
    {
        let b = bytes[i];
        out.push(hex_digit_char(b / 16));
        out.push(hex_digit_char(b % 16));
        i = i + 1;
        assert(out@ =~= hex(bytes@.take(i as int)));
    }
    assert(bytes@.take(i as int) == bytes@);
    out
}

// ---- Laws -----------------------------------------------------------------------------------

/// Whether a text is made of decimal digits, with no zero before another digit.
pub open spec fn is_plain_number(text: Seq<char>) -> bool {
    &&& text.len() > 0
    &&& forall|i: int| 0 <= i < text.len() ==> '0' <= #[trigger] text[i] <= '9'
    &&& text.len() > 1 ==> text[0] != '0'
}

/// The number that decimal digits stand for, by the place of each.
pub open spec fn place_value(digits: Seq<char>) -> int
    decreases digits.len(),
{
    if digits.len() == 0 {
        0
    } else {
        (digits[0] as int - '0' as int) * pow(10, (digits.len() - 1) as nat) + place_value(
            digits.drop_first(),
        )
    }
}

/// One more digit makes the number ten times as much, and that digit more.
pub proof fn law_place_value_grows(digits: Seq<char>, next: char)
    ensures
        place_value(digits.push(next)) == 10 * place_value(digits) + (next as int - '0' as int),
    decreases digits.len(),
{
    let longer = digits.push(next);
    if digits.len() == 0 {
        assert(longer.drop_first() =~= Seq::empty());
        vstd::arithmetic::power::lemma_pow0(10);
        assert(place_value(longer.drop_first()) == 0);
    } else {
        law_place_value_grows(digits.drop_first(), next);
        assert(longer.drop_first() =~= digits.drop_first().push(next));
        let places = (digits.len() - 1) as nat;
        let first = digits[0] as int - '0' as int;
        lemma_pow1(10);
        lemma_pow_adds(10, 1, places);
        assert(first * pow(10, places + 1) == 10 * (first * pow(10, places)))
            by (nonlinear_arith)
            requires
                pow(10, places + 1) == 10 * pow(10, places),
        ;
    }
}

pub(crate) proof fn lemma_decimal_stands_for(n: nat)
    ensures
        is_plain_number(decimal(n)),
        place_value(decimal(n)) == n,
        n > 0 ==> decimal(n)[0] != '0',
    decreases n,
{
    if n < 10 {
        assert(decimal(n) =~= Seq::<char>::empty().push(digit(n)));
        law_place_value_grows(Seq::empty(), digit(n));
    } else {
        lemma_decimal_stands_for(n / 10);
        law_place_value_grows(decimal(n / 10), digit(n % 10));
    }
}

/// A number has one spelling: digits without a leading zero are the ones that are written for the
/// number that they stand for.
pub(crate) proof fn lemma_one_spelling(text: Seq<char>)
    requires
        is_plain_number(text),
    ensures
        place_value(text) >= 0,
        text == decimal(place_value(text) as nat),
    decreases text.len(),
{
    let before = text.drop_last();
    let last = text.last();
    assert(text =~= before.push(last));
    law_place_value_grows(before, last);
    if before.len() == 0 {
        assert(before =~= Seq::empty());
        assert(text =~= seq![digit(place_value(text) as nat)]);
    } else {
        assert forall|i: int| 0 <= i < before.len() implies '0' <= #[trigger] before[i]
            <= '9' by {
            assert(before[i] == text[i]);
        }
        lemma_one_spelling(before);
        let high = place_value(before) as nat;
        if high == 0 {
            assert(decimal(0) =~= seq![digit(0)]);
            assert(text[0] == before[0]);
        }
        assert(digit(place_value(text) as nat % 10) == last);
    }
}

/// A number is written in decimal digits that stand for it, without leading zeros.
pub proof fn law_decimal_stands_for_number(n: u64, r: String)
    requires
        call_ensures(decimal_string, (n,), r),
    ensures
        is_plain_number(r@),
        place_value(r@) == n,
{
    lemma_decimal_stands_for(n as nat);
}

/// Whether a text has two lower-case hexadecimal digits for each byte, the high one first.
pub open spec fn is_hex_of(text: Seq<char>, bytes: Seq<u8>) -> bool {
    &&& text.len() == 2 * bytes.len()
    &&& forall|i: int|
        0 <= i < bytes.len() ==> {
            &&& text[2 * i] == "0123456789abcdef"@[(#[trigger] bytes[i]) as int / 16]
            &&& text[2 * i + 1] == "0123456789abcdef"@[bytes[i] as int % 16]
        }
}

pub(crate) proof fn lemma_hex(bytes: Seq<u8>)
    ensures
        is_hex_of(hex(bytes), bytes),
        forall|text: Seq<char>| is_hex_of(text, bytes) ==> text == hex(bytes),
{
    reveal_strlit("0123456789abcdef");
    assert forall|i: int| 0 <= i < bytes.len() implies {
        &&& hex(bytes)[2 * i] == "0123456789abcdef"@[(#[trigger] bytes[i]) as int / 16]
        &&& hex(bytes)[2 * i + 1] == "0123456789abcdef"@[bytes[i] as int % 16]
    } by {
        assert((2 * i) / 2 == i && (2 * i + 1) / 2 == i);
    }
    assert forall|text: Seq<char>| is_hex_of(text, bytes) implies text == hex(bytes) by {
        assert forall|k: int| 0 <= k < text.len() implies text[k] == hex(bytes)[k] by {
            let i = k / 2;
            assert(bytes[i] / 16 <= 15);
            assert(k == 2 * i || k == 2 * i + 1);
        }
        assert(text =~= hex(bytes));
    }
}

/// Bytes are written in lower-case hexadecimal, two digits for each.
pub proof fn law_bytes_in_hexadecimal(bytes: &[u8], r: Vec<char>)
    requires
        call_ensures(hex_chars, (bytes,), r),
    ensures
        is_hex_of(r@, bytes@),
{
    lemma_hex(bytes@);
}

/// A text fits where it has no more bytes than there is room for; in ASCII, no more characters.
pub proof fn law_what_fits(text: Seq<char>, capacity: int)
    ensures
        fits(text, capacity) == (encode_utf8(text).len() <= capacity),
        is_ascii_chars(text) ==> fits(text, capacity) == (text.len() <= capacity),
{
    if is_ascii_chars(text) {
        is_ascii_chars_encode_utf8(text);
    }
}

} // verus!
