//! Reading the response headers that decide how a file is fetched.
//!
//! Header values arrive as raw bytes. A value counts as text only when
//! every byte is visible ASCII or a tab, which is the test that
//! `http::HeaderValue::to_str` makes.

use vstd::prelude::*;
use crate::text::{decimal, digit_char, digits_of};

verus! {

/// The bytes that `HeaderValue::to_str` accepts.
pub open spec fn is_visible_ascii(b: u8) -> bool {
    (32 <= b && b < 127) || b == 9
}

/// Whether a header value reads as text.
pub open spec fn is_header_text(s: Seq<u8>) -> bool {
    forall|i: int| 0 <= i < s.len() ==> is_visible_ascii(#[trigger] s[i])
}

pub open spec fn is_ascii_digit(b: u8) -> bool {
    48 <= b && b <= 57
}

pub open spec fn all_ascii_digits(s: Seq<u8>) -> bool {
    forall|i: int| 0 <= i < s.len() ==> is_ascii_digit(#[trigger] s[i])
}

/// The number that a run of ASCII digits spells, most significant first.
pub open spec fn digits_value(s: Seq<u8>) -> nat
    decreases s.len(),
{
    if s.len() == 0 {
        0
    } else {
        digits_value(s.drop_last()) * 10 + (s.last() - 48) as nat
    }
}

/// What `str::parse::<i64>` gives for these bytes: an optional `+` or `-`,
/// then one or more ASCII digits, whose value must fit in an `i64`.
pub open spec fn parsed_i64(s: Seq<u8>) -> Option<int> {
    if s.len() == 0 {
        None
    } else {
        let negative = s[0] == 45;
        let body = if s[0] == 45 || s[0] == 43 { s.drop_first() } else { s };
        if body.len() == 0 || !all_ascii_digits(body) {
            None
        } else {
            let v: int = if negative { -(digits_value(body) as int) } else { digits_value(body) as int };
            if i64::MIN <= v && v <= i64::MAX {
                Some(v)
            } else {
                None
            }
        }
    }
}

/// The byte length that a `Content-Length` header announces: its value read
/// as an `i64`, or 0 where the header is absent, is not text or is not a
/// number.
pub open spec fn content_length_of(header: Option<Seq<u8>>) -> int {
    match header {
        Some(s) => if is_header_text(s) {
            match parsed_i64(s) {
                Some(v) => v,
                None => 0,
            }
        } else {
            0
        },
        None => 0,
    }
}

/// Whether an `Accept-Ranges` header lets the file be fetched in ranges:
/// it is present, reads as text, is not empty and is not `none`.
pub open spec fn ranges_accepted(header: Option<Seq<u8>>) -> bool {
    match header {
        Some(s) => is_header_text(s) && s.len() > 0 && s != seq![110u8, 111u8, 110u8, 101u8],
        None => false,
    }
}

/// The bytes of an ASCII text.
pub open spec fn ascii_bytes(s: Seq<char>) -> Seq<u8> {
    s.map_values(|c: char| c as u8)
}

proof fn lemma_digit_char_byte(d: int)
    requires
        0 <= d < 10,
    ensures
        digit_char(d) as u8 == 48 + d,
{
    reveal_strlit("0123456789");
    assert("0123456789"@ =~= seq!['0', '1', '2', '3', '4', '5', '6', '7', '8', '9']);
}

proof fn lemma_digits_read_back(m: nat)
    ensures
        ascii_bytes(digits_of(m)).len() >= 1,
        all_ascii_digits(ascii_bytes(digits_of(m))),
        digits_value(ascii_bytes(digits_of(m))) == m,
    decreases m,
{
    let b = ascii_bytes(digits_of(m));
    if m < 10 {
        lemma_digit_char_byte(m as int);
        assert(b.drop_last() =~= Seq::<u8>::empty());
        assert(b.last() == 48 + m);
        assert(digits_value(b) == digits_value(b.drop_last()) * 10 + (b.last() - 48) as nat);
    } else {
        lemma_digits_read_back(m / 10);
        lemma_digit_char_byte((m % 10) as int);
        let q = ascii_bytes(digits_of(m / 10));
        assert(b =~= q.push(digit_char((m % 10) as int) as u8));
        assert(b.drop_last() =~= q);
        assert(b.last() == 48 + m % 10);
        assert(digits_value(b) == digits_value(q) * 10 + (b.last() - 48) as nat);
        assert((m / 10) * 10 + m % 10 == m);
        assert forall|i: int| 0 <= i < b.len() implies is_ascii_digit(#[trigger] b[i]) by {
            if i < q.len() {
                assert(b[i] == q[i]);
            }
        }
    }
}

/// Law: the decimal text of any non-negative `i64`, sent as a
/// `Content-Length` value, is read back as exactly that number; so a file
/// of any size that fits in an `i64` keeps its announced size.
pub proof fn lemma_content_length_reads_decimal(n: int)
    requires
        0 <= n <= i64::MAX,
    ensures
        parsed_i64(ascii_bytes(decimal(n))) == Some(n),
        content_length_of(Some(ascii_bytes(decimal(n)))) == n,
{
    lemma_digits_read_back(n as nat);
    let b = ascii_bytes(decimal(n));
    assert(b[0] != 45 && b[0] != 43);
    assert forall|i: int| 0 <= i < b.len() implies is_visible_ascii(#[trigger] b[i]) by {
        assert(is_ascii_digit(b[i]));
    }
}

/// Law: a negative `i64` written in decimal is read back as that number.
pub proof fn lemma_negative_decimal_reads_back(n: int)
    requires
        i64::MIN <= n < 0,
    ensures
        parsed_i64(ascii_bytes(decimal(n))) == Some(n),
{
    lemma_digits_read_back((-n) as nat);
    let b = ascii_bytes(decimal(n));
    let d = ascii_bytes(digits_of((-n) as nat));
    assert(b =~= seq![45u8] + d);
    assert(b.drop_first() =~= d);
}

/// Law: ranged requests are used exactly when an `Accept-Ranges` header is
/// present, reads as text, is not empty and is not the word `none`.
pub proof fn lemma_accept_ranges_values(header: Option<Seq<u8>>)
    ensures
        header is None ==> !ranges_accepted(header),
        header matches Some(s) ==> (ranges_accepted(header) <==> (is_header_text(s) && s.len()
            > 0 && s != seq![110u8, 111u8, 110u8, 101u8])),
{
}

/// Law: an absent `Content-Length`, or one that is not text, gives size 0.
pub proof fn lemma_content_length_unknown(header: Option<Seq<u8>>)
    requires
        header matches Some(s) ==> !is_header_text(s) || parsed_i64(s) is None,
    ensures
        content_length_of(header) == 0,
{
}

/// Law: a decimal number beyond `i64::MAX` is not read as a size.
pub proof fn lemma_too_large_decimal_is_rejected(n: int)
    requires
        n > i64::MAX,
    ensures
        parsed_i64(ascii_bytes(decimal(n))) is None,
        content_length_of(Some(ascii_bytes(decimal(n)))) == 0,
{
    lemma_digits_read_back(n as nat);
    let b = ascii_bytes(decimal(n));
    assert(b[0] != 45 && b[0] != 43);
}

/// Law: a `+` in front of a decimal number is accepted, as `str::parse`
/// accepts it.
pub proof fn lemma_plus_sign_reads_back(n: int)
    requires
        0 <= n <= i64::MAX,
    ensures
        parsed_i64(seq![43u8] + ascii_bytes(decimal(n))) == Some(n),
{
    lemma_digits_read_back(n as nat);
    let b = seq![43u8] + ascii_bytes(decimal(n));
    assert(b.drop_first() =~= ascii_bytes(decimal(n)));
}

/// Whether every byte of a header value is visible ASCII or a tab.
pub fn header_is_text(s: &[u8]) -> (r: bool)
    ensures
        r == is_header_text(s@),
{
    let n = s.len();
    let mut i: usize = 0;
    while i < n
        invariant
            n == s@.len(),
            i <= n,
            forall|j: int| 0 <= j < i ==> is_visible_ascii(#[trigger] s@[j]),
        decreases n - i,
    {
        let b = s[i];
        if !((32 <= b && b < 127) || b == 9) {
            return false;
        }
        i = i + 1;
    }
    true
}

/// Parses bytes as `str::parse::<i64>` parses a string.
#[verifier::rlimit(40)]
pub fn parse_i64(s: &[u8]) -> (r: Option<i64>)
    ensures
        match r {
            Some(v) => parsed_i64(s@) == Some(v as int),
            None => parsed_i64(s@) is None,
        },
{
    let n = s.len();
    if n == 0 {
        return None;
    }
    let negative = s[0] == 45;
    let start: usize = if s[0] == 45 || s[0] == 43 { 1 } else { 0 };
    if start == n {
        proof {
            assert(s@.drop_first().len() == 0);
        }
        return None;
    }
    let ghost body = if s@[0] == 45 || s@[0] == 43 { s@.drop_first() } else { s@ };
    assert(body =~= s@.subrange(start as int, n as int));
    let limit: u128 = if negative { 0x8000_0000_0000_0000u128 } else { 0x7fff_ffff_ffff_ffffu128 };
    let mut magnitude: u128 = 0;
    let mut over = false;
    let mut i: usize = start;
    while i < n
        invariant
            n == s@.len(),
            start <= i <= n,
            body == s@.subrange(start as int, n as int),
            body == (if s@[0] == 45 || s@[0] == 43 { s@.drop_first() } else { s@ }),
            negative == (s@[0] == 45),
            limit == (if negative { 0x8000_0000_0000_0000u128 } else { 0x7fff_ffff_ffff_ffffu128 }),
            limit <= 0x8000_0000_0000_0000u128,
            all_ascii_digits(s@.subrange(start as int, i as int)),
            !over ==> magnitude == digits_value(s@.subrange(start as int, i as int)),
            !over ==> magnitude <= limit,
            over ==> digits_value(s@.subrange(start as int, i as int)) > limit,
        decreases n - i,
    {
        let b = s[i];
        let ghost before = s@.subrange(start as int, i as int);
        let ghost after = s@.subrange(start as int, i + 1);
        assert(after.drop_last() =~= before);
        if !(48 <= b && b <= 57) {
            assert(body[i - start] == b);
            return None;
        }
        assert(after.last() == b);
        if !over {
            let next: u128 = magnitude * 10 + (b - 48) as u128;
            if next > limit {
                over = true;
            } else {
                magnitude = next;
            }
        }
        assert forall|j: int| 0 <= j < after.len() implies is_ascii_digit(#[trigger] after[j]) by {
            if j < before.len() {
                assert(after[j] == before[j]);
            }
        }
        i = i + 1;
    }
    assert(s@.subrange(start as int, n as int) == body);
    if over {
        return None;
    }
    let v: i128 = if negative { 0i128 - magnitude as i128 } else { magnitude as i128 };
    Some(v as i64)
}

/// The byte length announced by an optional `Content-Length` value.
pub fn content_length(header: Option<&[u8]>) -> (r: i64)
    ensures
        r as int == content_length_of(
            match header {
                Some(s) => Some(s@),
                None => None,
            },
        ),
{
    match header {
        Some(s) => {
            if header_is_text(s) {
                match parse_i64(s) {
                    Some(v) => v,
                    None => 0,
                }
            } else {
                0
            }
        },
        None => 0,
    }
}

/// Whether an optional `Accept-Ranges` value allows ranged requests.
pub fn accepts_ranges(header: Option<&[u8]>) -> (r: bool)
    ensures
        r == ranges_accepted(
            match header {
                Some(s) => Some(s@),
                None => None,
            },
        ),
{
    match header {
        Some(s) => {
            if !header_is_text(s) || s.len() == 0 {
                return false;
            }
            let is_none = s.len() == 4 && s[0] == 110 && s[1] == 111 && s[2] == 110 && s[3] == 101;
            proof {
                if is_none {
                    assert(s@ =~= seq![110u8, 111u8, 110u8, 101u8]);
                } else if s@ == seq![110u8, 111u8, 110u8, 101u8] {
                    assert(s@[0] == 110u8 && s@[1] == 111u8 && s@[2] == 110u8 && s@[3] == 101u8);
                }
            }
            !is_none
        },
        None => false,
    }
}

} // verus!
