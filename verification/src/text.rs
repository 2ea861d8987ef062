//! Small text utilities: decimal rendering of integers, exact text
//! comparison, and the few std conversions that vstd leaves unspecified.
use vstd::prelude::*;
use vstd::utf8::{decode_utf8, valid_utf8};

verus! {

/// The ASCII character of a decimal digit.
pub open spec fn digit_char(d: int) -> char {
    ((48 + d) as u8) as char
}

/// Decimal notation of a natural number, without sign or leading zeros.
pub open spec fn decimal(n: nat) -> Seq<char>
    decreases n,
{
    if n < 10 {
        seq![digit_char(n as int)]
    } else {
        decimal(n / 10).push(digit_char((n % 10) as int))
    }
}

/// Decimal notation of an integer, with a leading `-` when negative.
pub open spec fn signed_decimal(n: int) -> Seq<char> {
    if n < 0 {
        seq!['-'] + decimal((-n) as nat)
    } else {
        decimal(n as nat)
    }
}

/// The text of a byte string read as UTF-8, or the empty text when the
/// bytes are not valid UTF-8.
pub open spec fn utf8_or_empty(bytes: Seq<u8>) -> Seq<char> {
    if valid_utf8(bytes) {
        decode_utf8(bytes)
    } else {
        Seq::empty()
    }
}

/// Appends one character to a `String`.
///
/// Calls `String::push`, which the std documentation describes as appending
/// the given char to the end of the string.
#[verifier::external_body]
pub(crate) fn push_char(s: &mut String, c: char)
    ensures
        final(s)@ == old(s)@.push(c),
{
    s.push(c);
}

/// Converts a `u32` to a `char`.
///
/// Calls `char::from_u32`, documented as returning `None` exactly when the
/// value is not a Unicode scalar value (above 0x10FFFF or a surrogate).
#[verifier::external_body]
pub(crate) fn char_from_u32(v: u32) -> (r: Option<char>)
    ensures
        r is Some <==> (v <= 0x10FFFF && !(0xD800 <= v <= 0xDFFF)),
        r matches Some(c) ==> c as u32 == v,
{
    char::from_u32(v)
}

/// Reads bytes as UTF-8 text.
///
/// Calls `std::str::from_utf8`, documented as failing exactly when the bytes
/// are not valid UTF-8; on success the text is the one the bytes encode.
#[verifier::external_body]
pub(crate) fn str_from_utf8(bytes: &[u8]) -> (r: Option<&str>)
    ensures
        r is Some <==> valid_utf8(bytes@),
        r matches Some(s) ==> s@ == decode_utf8(bytes@),
{
    std::str::from_utf8(bytes).ok()
}

/// Appends the decimal notation of `n` to `s`.
pub fn push_decimal(s: &mut String, n: u64)
    ensures
        final(s)@ == old(s)@ + decimal(n as nat),
    decreases n,
{
    if n >= 10 {
        push_decimal(s, n / 10);
    }
    let d: u8 = (n % 10) as u8;
    push_char(s, (48u8 + d) as char);
    assert(decimal(n as nat) == if n < 10 {
        seq![digit_char(n as int)]
    } else {
        decimal((n / 10) as nat).push(digit_char((n % 10) as int))
    });
}

/// Appends the decimal notation of a signed integer to `s`.
pub fn push_signed_decimal(s: &mut String, n: i64)
    ensures
        final(s)@ == old(s)@ + signed_decimal(n as int),
{
    if n < 0 {
        push_char(s, '-');
        let m: u64 = if n == i64::MIN {
            0x8000_0000_0000_0000u64
        } else {
            (-n) as u64
        };
        push_decimal(s, m);
        assert(final(s)@ =~= old(s)@ + signed_decimal(n as int)) by {
            assert(seq!['-'] + decimal(m as nat) =~= seq!['-'].add(decimal(m as nat)));
        };
    } else {
        push_decimal(s, n as u64);
    }
}

/// Whether two texts hold the same characters.
pub fn same_text(a: &str, b: &str) -> (r: bool)
    ensures
        r == (a@ == b@),
{
    let n: usize = a.unicode_len();
    if n != b.unicode_len() {
        return false;
    }
    let mut i: usize = 0;
    while i < n
        invariant
            n == a@.len(),
            n == b@.len(),
            i <= n,
            forall|j: int| 0 <= j < i ==> a@[j] == b@[j],
        decreases n - i,
    {
        if a.get_char(i) != b.get_char(i) {
            return false;
        }
        i = i + 1;
    }
    assert(a@ =~= b@);
    true
}

/// A copy of an optional text.
pub fn copy_opt_string(o: &Option<String>) -> (r: Option<String>)
    ensures
        r == *o,
{
    match o {
        Some(s) => Some(s.clone()),
        None => None,
    }
}

} // verus!
