//! Small text primitives shared by the lexer, the classifier and the analyzer:
//! ASCII case folding, equality, decimal integers, real literals and
//! message assembly. Every contract is stated over `Seq<char>`.

use vstd::prelude::*;
use vstd::string::*;
use vstd::utf8::*;

verus! {

/// The ASCII lower case form of one character; everything but `A` to `Z` is
/// left alone.
pub open spec fn lower_char(c: char) -> char {
    if 'A' <= c && c <= 'Z' {
        ((c as u8 + 32) as u8) as char
    } else {
        c
    }
}

/// The ASCII lower case form of a text, character by character.
pub open spec fn lowercase(s: Seq<char>) -> Seq<char> {
    Seq::new(s.len(), |i: int| lower_char(s[i]))
}

/// True when no character of the text is an ASCII capital.
pub open spec fn is_lowercase(s: Seq<char>) -> bool {
    forall|i: int| 0 <= i < s.len() ==> !('A' <= #[trigger] s[i] && s[i] <= 'Z')
}

/// Folding a text twice is folding it once, and a folded text holds no
/// ASCII capital.
pub proof fn lemma_lowercase_idempotent(s: Seq<char>)
    ensures
        lowercase(lowercase(s)) == lowercase(s),
        is_lowercase(lowercase(s)),
        lowercase(s).len() == s.len(),
{
    assert forall|i: int| 0 <= i < s.len() implies !('A' <= #[trigger] lowercase(s)[i]
        && lowercase(s)[i] <= 'Z') by {
        lemma_lower_char_is_lower(s[i]);
    }
    assert forall|i: int| 0 <= i < s.len() implies lower_char(lowercase(s)[i]) == lowercase(
        s,
    )[i] by {
        lemma_lower_char_is_lower(s[i]);
    }
    assert(lowercase(lowercase(s)) =~= lowercase(s));
}

/// A folded character is no ASCII capital.
pub proof fn lemma_lower_char_is_lower(c: char)
    ensures
        !('A' <= lower_char(c) && lower_char(c) <= 'Z'),
        lower_char(lower_char(c)) == lower_char(c),
{
    if 'A' <= c && c <= 'Z' {
        let b: u8 = (c as u8 + 32) as u8;
        assert(97 <= b <= 122);
        assert((b as char) as u32 == b as u32);
    }
}

/// Calls `str::to_ascii_lowercase`: the result has the same characters as
/// the argument, with `A` to `Z` replaced by `a` to `z`.
#[verifier::external_body]
pub(crate) fn to_lowercase(s: &str) -> (r: String)
    ensures
        r@ == lowercase(s@),
{
    s.to_ascii_lowercase()
}

/// Whether two texts hold the same characters.
pub fn str_equal(a: &str, b: &str) -> (r: bool)
    ensures
        r == (a@ == b@),
{
    broadcast use encode_utf8_decode_utf8;

    let x = a.as_bytes();
    let y = b.as_bytes();
    if x.len() != y.len() {
        return false;
    }
    let mut i: usize = 0;
    while i < x.len()
        invariant
            i <= x.len(),
            x.len() == y.len(),
            forall|j: int| 0 <= j < i ==> x@[j] == y@[j],
            x@ == encode_utf8(a@),
            y@ == encode_utf8(b@),
        decreases x.len() - i,
    {
        if x[i] != y[i] {
            return false;
        }
        i += 1;
    }
    assert(x@ =~= y@);
    assert(decode_utf8(encode_utf8(a@)) == a@);
    assert(decode_utf8(encode_utf8(b@)) == b@);
    true
}

/// The length of a text in bytes of UTF-8.
pub open spec fn byte_length(s: Seq<char>) -> nat {
    encode_utf8(s).len()
}

/// `a` followed by `b`.
pub fn concat2(a: &str, b: &str) -> (r: String)
    ensures
        r@ == a@ + b@,
{
    let mut s = a.to_owned();
    s.append(b);
    s
}

/// `a` followed by `b` followed by `c`.
pub fn concat3(a: &str, b: &str, c: &str) -> (r: String)
    ensures
        r@ == a@ + b@ + c@,
{
    let mut s = a.to_owned();
    s.append(b);
    s.append(c);
    s
}

/// Five pieces in a row.
pub fn concat5(a: &str, b: &str, c: &str, d: &str, e: &str) -> (r: String)
    ensures
        r@ == a@ + b@ + c@ + d@ + e@,
{
    let mut s = concat3(a, b, c);
    s.append(d);
    s.append(e);
    s
}

/// Seven pieces in a row.
pub fn concat7(a: &str, b: &str, c: &str, d: &str, e: &str, f: &str, g: &str) -> (r: String)
    ensures
        r@ == a@ + b@ + c@ + d@ + e@ + f@ + g@,
{
    let mut s = concat5(a, b, c, d, e);
    s.append(f);
    s.append(g);
    s
}

/// The character of one decimal digit.
pub open spec fn digit_char(d: nat) -> char {
    ((48 + d) as u8) as char
}

/// A number written in decimal, without sign or leading zeros.
pub open spec fn decimal(n: nat) -> Seq<char>
    decreases n,
{
    if n < 10 {
        seq![digit_char(n)]
    } else {
        decimal(n / 10).push(digit_char(n % 10))
    }
}

/// Calls `usize::to_string`: the decimal digits of the number.
#[verifier::external_body]
pub(crate) fn decimal_string(n: usize) -> (r: String)
    ensures
        r@ == decimal(n as nat),
{
    n.to_string()
}

/// True for `0` to `9`.
pub open spec fn is_digit(c: char) -> bool {
    '0' <= c && c <= '9'
}

/// True when every character is a decimal digit.
pub open spec fn all_digits(s: Seq<char>) -> bool {
    forall|i: int| 0 <= i < s.len() ==> is_digit(#[trigger] s[i])
}

/// The number that a run of decimal digits denotes.
pub open spec fn digits_value(s: Seq<char>) -> int
    decreases s.len(),
{
    if s.len() == 0 {
        0
    } else {
        digits_value(s.drop_last()) * 10 + (s.last() as int - 48)
    }
}

/// True when the text begins with `+` or `-`.
pub open spec fn has_sign(s: Seq<char>) -> bool {
    s.len() > 0 && (s[0] == '+' || s[0] == '-')
}

/// The text without its leading sign, if it has one.
pub open spec fn unsigned_part(s: Seq<char>) -> Seq<char> {
    if has_sign(s) {
        s.subrange(1, s.len() as int)
    } else {
        s
    }
}

/// The integer that a text denotes: an optional sign, then one or more
/// decimal digits and nothing else.
pub open spec fn signed_decimal(s: Seq<char>) -> Option<int> {
    let body = unsigned_part(s);
    if body.len() == 0 || !all_digits(body) {
        None
    } else if s[0] == '-' {
        Some(-digits_value(body))
    } else {
        Some(digits_value(body))
    }
}

/// The 16-bit integer that a text denotes, if it denotes one.
pub open spec fn short_literal(s: Seq<char>) -> Option<i16> {
    match signed_decimal(s) {
        Some(v) => if -32768 <= v <= 32767 {
            Some(v as i16)
        } else {
            None
        },
        None => None,
    }
}

/// The 32-bit integer that a text denotes, if it denotes one.
pub open spec fn long_literal(s: Seq<char>) -> Option<i32> {
    match signed_decimal(s) {
        Some(v) => if -2147483648 <= v <= 2147483647 {
            Some(v as i32)
        } else {
            None
        },
        None => None,
    }
}

/// Calls `str::parse::<i16>`: an optional sign followed by decimal digits
/// only, whose value fits in 16 bits; anything else is no number.
#[verifier::external_body]
pub(crate) fn parse_short(s: &str) -> (r: Option<i16>)
    ensures
        r == short_literal(s@),
{
    s.parse::<i16>().ok()
}

/// Calls `str::parse::<i32>`: an optional sign followed by decimal digits
/// only, whose value fits in 32 bits; anything else is no number.
#[verifier::external_body]
pub(crate) fn parse_long(s: &str) -> (r: Option<i32>)
    ensures
        r == long_literal(s@),
{
    s.parse::<i32>().ok()
}

/// The first position at or after `i` that holds no decimal digit.
pub open spec fn digits_end(s: Seq<char>, i: int) -> int
    decreases s.len() - i,
{
    if 0 <= i < s.len() && is_digit(s[i]) {
        digits_end(s, i + 1)
    } else {
        i
    }
}

/// True when the text from `i` on reads, in any case, as `word`.
pub open spec fn reads_as(s: Seq<char>, i: int, word: Seq<char>) -> bool {
    0 <= i <= s.len() && lowercase(s.subrange(i, s.len() as int)) == word
}

/// The shape of a decimal number from position `i` to the end of the text:
/// digits, optionally a point and more digits, with at least one digit in
/// all, then optionally `e` or `E`, an optional sign and one or more digits.
pub open spec fn number_shape(s: Seq<char>, i: int) -> bool {
    let whole_end = digits_end(s, i);
    let has_point = whole_end < s.len() && s[whole_end] == '.';
    let fraction_start = if has_point {
        whole_end + 1
    } else {
        whole_end
    };
    let mantissa_end = digits_end(s, fraction_start);
    let digit_count = (whole_end - i) + (mantissa_end - fraction_start);
    let has_exponent = mantissa_end < s.len() && (s[mantissa_end] == 'e' || s[mantissa_end] == 'E');
    let exponent_sign = has_exponent && mantissa_end + 1 < s.len() && (s[mantissa_end + 1] == '+'
        || s[mantissa_end + 1] == '-');
    let exponent_start = if exponent_sign {
        mantissa_end + 2
    } else {
        mantissa_end + 1
    };
    &&& 0 <= i <= s.len()
    &&& digit_count > 0
    &&& if has_exponent {
        digits_end(s, exponent_start) > exponent_start && digits_end(s, exponent_start) == s.len()
    } else {
        mantissa_end == s.len()
    }
}

/// Whether a text is a real literal: ASCII only, an optional sign, then
/// `inf`, `infinity` or `nan` in any case, or a decimal number with an
/// optional fraction and an optional exponent.
pub open spec fn real_literal(s: Seq<char>) -> bool {
    let start: int = if has_sign(s) {
        1
    } else {
        0
    };
    &&& is_ascii_chars(s)
    &&& (reads_as(s, start, "inf"@) || reads_as(s, start, "infinity"@) || reads_as(s, start, "nan"@)
        || number_shape(s, start))
}

fn scan_digits(s: &str, i: usize) -> (r: usize)
    requires
        is_ascii_chars(s@),
        i <= s@.len(),
    ensures
        r == digits_end(s@, i as int),
        i <= r <= s@.len(),
{
    broadcast use is_ascii_chars_encode_utf8;

    let bytes = s.as_bytes();
    let mut j: usize = i;
    while j < bytes.len() && 48 <= bytes[j] && bytes[j] <= 57
        invariant
            i <= j <= bytes.len(),
            bytes@ == encode_utf8(s@),
            bytes.len() == s@.len(),
            is_ascii_chars(s@),
            digits_end(s@, i as int) == digits_end(s@, j as int),
        decreases bytes.len() - j,
    {
        proof {
            is_ascii_chars_encode_utf8(s@);
        }
        assert(s@[j as int] as u8 == bytes@[j as int]);
        assert(is_digit(s@[j as int]));
        j += 1;
    }
    proof {
        is_ascii_chars_encode_utf8(s@);
        if j < bytes.len() {
            assert(s@[j as int] as u8 == bytes@[j as int]);
            assert('\0' <= s@[j as int] <= '\u{7f}');
            assert(!is_digit(s@[j as int]));
        }
    }
    j
}

fn tail_reads_as(s: &str, i: usize, word: &str) -> (r: bool)
    requires
        is_ascii_chars(s@),
        i <= s@.len(),
    ensures
        r == reads_as(s@, i as int, word@),
{
    broadcast use is_ascii_chars_encode_utf8;

    let tail = s.substring_ascii(i, s.as_bytes().len());
    let folded = to_lowercase(tail);
    str_equal(folded.as_str(), word)
}

/// Whether a text is a real literal.
pub fn is_real_literal(s: &str) -> (r: bool)
    ensures
        r == real_literal(s@),
{
    broadcast use is_ascii_chars_encode_utf8;

    if !s.is_ascii() {
        return false;
    }
    let bytes = s.as_bytes();
    let n: usize = bytes.len();
    assert(forall|k: int| 0 <= k < n ==> s@[k] as u8 == #[trigger] bytes@[k]);
    assert(forall|k: int| 0 <= k < n ==> '\0' <= #[trigger] s@[k] <= '\u{7f}');
    let start: usize = if n > 0 && (bytes[0] == 43 || bytes[0] == 45) {
        1
    } else {
        0
    };
    assert(has_sign(s@) == (start == 1)) by {
        if n > 0 {
            assert(s@[0] as u8 == bytes@[0]);
        }
    }
    if tail_reads_as(s, start, "inf") || tail_reads_as(s, start, "infinity") || tail_reads_as(
        s,
        start,
        "nan",
    ) {
        return true;
    }
    let whole_end: usize = scan_digits(s, start);
    let has_point: bool = whole_end < n && bytes[whole_end] == 46;
    let fraction_start: usize = if has_point {
        whole_end + 1
    } else {
        whole_end
    };
    let mantissa_end: usize = scan_digits(s, fraction_start);
    if (whole_end - start) + (mantissa_end - fraction_start) == 0 {
        return false;
    }
    let has_exponent: bool = mantissa_end < n && (bytes[mantissa_end] == 101 || bytes[mantissa_end]
        == 69);
    if !has_exponent {
        return mantissa_end == n;
    }
    let exponent_sign: bool = mantissa_end + 1 < n && (bytes[mantissa_end + 1] == 43
        || bytes[mantissa_end + 1] == 45);
    let exponent_start: usize = if exponent_sign {
        mantissa_end + 2
    } else {
        mantissa_end + 1
    };
    let exponent_end: usize = scan_digits(s, exponent_start);
    exponent_end > exponent_start && exponent_end == n
}

} // verus!
