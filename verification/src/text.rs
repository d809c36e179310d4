//! Decoding of single fields: byte comparison, UTF-8 text and small unsigned
//! integers, and the decimal text of such an integer.

use vstd::prelude::*;
use vstd::string::StringExecFns;
use vstd::utf8::{decode_utf8, encode_utf8, valid_utf8};

verus! {

/// `core::str::Utf8Error`: why bytes are not UTF-8. Nothing here reads it.
#[verifier::external_type_specification]
#[verifier::external_body]
pub struct ExUtf8Error(core::str::Utf8Error);

/// `core::str::from_utf8` succeeds exactly on well-formed UTF-8, and the string
/// slice it then returns is made of the very bytes it was given.
pub assume_specification[ core::str::from_utf8 ](v: &[u8]) -> (r: Result<
    &str,
    core::str::Utf8Error,
>)
    ensures
        r is Ok <==> valid_utf8(v@),
        r matches Ok(s) ==> encode_utf8(s@) == v@,
;

/// Whether two byte strings hold the same bytes.
pub fn bytes_equal(a: &[u8], b: &[u8]) -> (same: bool)
    ensures
        same == (a@ == b@),
{
    if a.len() != b.len() {
        return false;
    }
    let mut i: usize = 0;
    while i < a.len()
        invariant
            a@.len() == b@.len(),
            i <= a@.len(),
            forall|k: int| 0 <= k < i ==> a@[k] == b@[k],
        decreases a@.len() - i,
    {
        if a[i] != b[i] {
            return false;
        }
        i += 1;
    }
    assert(a@ =~= b@);
    true
}

/// Whether two texts hold the same characters.
pub fn text_equal(a: &str, b: &str) -> (same: bool)
    ensures
        same == (a@ == b@),
{
    proof {
        vstd::utf8::encode_utf8_decode_utf8(a@);
        vstd::utf8::encode_utf8_decode_utf8(b@);
    }
    bytes_equal(a.as_bytes(), b.as_bytes())
}

/// The text that a field holds: its bytes read as UTF-8, if they are UTF-8.
pub open spec fn text_of(field: Seq<u8>) -> Option<Seq<char>> {
    if valid_utf8(field) {
        Some(decode_utf8(field))
    } else {
        None
    }
}

/// Reads a field as text, without trimming or any other change.
pub fn decode_text(field: &[u8]) -> (text: Option<String>)
    ensures
        text is Some <==> valid_utf8(field@),
        text matches Some(s) ==> s@ == decode_utf8(field@) && encode_utf8(s@) == field@,
        option_view(text) == text_of(field@),
{
    match core::str::from_utf8(field) {
        Ok(s) => {
            proof {
                vstd::utf8::encode_utf8_decode_utf8(s@);
            }
            Some(String::from_str(s))
        },
        Err(_) => None,
    }
}

/// The view of an optional string.
pub open spec fn option_view(text: Option<String>) -> Option<Seq<char>> {
    match text {
        Some(s) => Some(s@),
        None => None,
    }
}

/// The ASCII codes that the number grammar is made of.
pub const DIGIT_ZERO: u8 = 0x30;

pub const DIGIT_NINE: u8 = 0x39;

pub const LOWER_A: u8 = 0x61;

pub const LOWER_F: u8 = 0x66;

pub const UPPER_A: u8 = 0x41;

pub const UPPER_F: u8 = 0x46;

pub const LOWER_X: u8 = 0x78;

pub const PLUS_SIGN: u8 = 0x2b;

/// The value of one digit in the given radix (10 or 16), if the byte is one.
pub open spec fn digit_value(b: u8, radix: int) -> Option<int> {
    if DIGIT_ZERO <= b <= DIGIT_NINE {
        Some(b - DIGIT_ZERO)
    } else if radix == 16 && LOWER_A <= b <= LOWER_F {
        Some(b - LOWER_A + 10)
    } else if radix == 16 && UPPER_A <= b <= UPPER_F {
        Some(b - UPPER_A + 10)
    } else {
        None
    }
}

/// Whether every byte is a digit of the radix.
pub open spec fn all_digits(s: Seq<u8>, radix: int) -> bool {
    forall|i: int| 0 <= i < s.len() ==> (#[trigger] digit_value(s[i], radix)) is Some
}

/// The number that a string of digits denotes, most significant digit first.
pub open spec fn digits_value(s: Seq<u8>, radix: int) -> int
    decreases s.len(),
{
    if s.len() == 0 {
        0
    } else {
        digits_value(s.drop_last(), radix) * radix + digit_value(s.last(), radix).unwrap()
    }
}

/// The number that a non-empty string of digits denotes, if it is at most 255.
pub open spec fn digits_number(digits: Seq<u8>, radix: int) -> Option<u8> {
    if digits.len() > 0 && all_digits(digits, radix) && digits_value(digits, radix) <= 255 {
        Some(digits_value(digits, radix) as u8)
    } else {
        None
    }
}

/// An unsigned number in the given radix: an optional `+`, then at least one
/// digit, with a value of at most 255.
pub open spec fn unsigned_in_radix(s: Seq<u8>, radix: int) -> Option<u8> {
    if s.len() > 0 && s[0] == PLUS_SIGN {
        digits_number(s.skip(1), radix)
    } else {
        digits_number(s, radix)
    }
}

/// The small unsigned integer that a field denotes: hexadecimal after the
/// prefix `0x`, decimal otherwise.
pub open spec fn unsigned_of(field: Seq<u8>) -> Option<u8> {
    if field.len() >= 2 && field[0] == DIGIT_ZERO && field[1] == LOWER_X {
        unsigned_in_radix(field.skip(2), 16)
    } else {
        unsigned_in_radix(field, 10)
    }
}

/// The digit `0` alone denotes 0 and the digit `1` alone denotes 1.
pub proof fn lemma_zero_and_one()
    ensures
        unsigned_of(seq![DIGIT_ZERO]) == Some(0u8),
        unsigned_of(seq![0x31u8]) == Some(1u8),
{
    reveal_with_fuel(digits_value, 2);
    assert(seq![DIGIT_ZERO].drop_last() =~= Seq::<u8>::empty());
    assert(seq![0x31u8].drop_last() =~= Seq::<u8>::empty());
}

/// A prefix of a digit string denotes no more than the whole string.
proof fn lemma_prefix_value(s: Seq<u8>, radix: int, k: int)
    requires
        radix == 10 || radix == 16,
        all_digits(s, radix),
        0 <= k <= s.len(),
    ensures
        0 <= digits_value(s.take(k), radix) <= digits_value(s, radix),
    decreases s.len() - k,
{
    lemma_value_nonnegative(s.take(k), radix);
    if k == s.len() {
        assert(s.take(k) =~= s);
    } else {
        lemma_prefix_value(s, radix, k + 1);
        let longer = s.take(k + 1);
        assert(longer.drop_last() =~= s.take(k));
        assert(digit_value(s[k], radix) is Some);
        assert(longer.last() == s[k]);
        assert(digits_value(s.take(k), radix) * radix >= digits_value(s.take(k), radix))
            by (nonlinear_arith)
            requires
                digits_value(s.take(k), radix) >= 0,
                radix >= 1,
        ;
    }
}

proof fn lemma_value_nonnegative(s: Seq<u8>, radix: int)
    requires
        radix == 10 || radix == 16,
        all_digits(s, radix),
    ensures
        0 <= digits_value(s, radix),
    decreases s.len(),
{
    if s.len() > 0 {
        lemma_value_nonnegative(s.drop_last(), radix);
        assert(digit_value(s.last(), radix) is Some);
        assert(digits_value(s.drop_last(), radix) * radix >= 0) by (nonlinear_arith)
            requires
                digits_value(s.drop_last(), radix) >= 0,
                radix >= 1,
        ;
    }
}

fn digit_of(b: u8, hex: bool) -> (d: Option<u8>)
    ensures
        match d {
            Some(v) => digit_value(b, if hex { 16 } else { 10 }) == Some(v as int) && v < 16 && (!hex
                ==> v < 10),
            None => digit_value(b, if hex { 16 } else { 10 }) is None,
        },
{
    if DIGIT_ZERO <= b && b <= DIGIT_NINE {
        Some(b - DIGIT_ZERO)
    } else if hex && LOWER_A <= b && b <= LOWER_F {
        Some(b - LOWER_A + 10)
    } else if hex && UPPER_A <= b && b <= UPPER_F {
        Some(b - UPPER_A + 10)
    } else {
        None
    }
}

/// Reads the bytes from `start` on as an unsigned number of the radix.
fn decode_in_radix(field: &[u8], start: usize, hex: bool) -> (value: Option<u8>)
    requires
        start <= field@.len(),
    ensures
        value == unsigned_in_radix(field@.skip(start as int), if hex { 16 } else { 10 }),
{
    let ghost radix: int = if hex { 16 } else { 10 };
    let ghost s = field@.skip(start as int);
    let mut i: usize = start;
    if i < field.len() && field[i] == PLUS_SIGN {
        i += 1;
    }
    let first: usize = i;
    let ghost digits = field@.skip(first as int);
    proof {
        if first > start {
            assert(s[0] == PLUS_SIGN);
            assert(s.skip(1) =~= digits);
        } else {
            assert(s =~= digits);
            assert(s.len() > 0 ==> s[0] != PLUS_SIGN);
        }
    }
    if first == field.len() {
        return None;
    }
    let mut acc: u32 = 0;
    while i < field.len()
        invariant
            radix == (if hex { 16int } else { 10int }),
            first <= i <= field@.len(),
            digits == field@.skip(first as int),
            digits.len() > 0,
            unsigned_in_radix(field@.skip(start as int), radix) == digits_number(digits, radix),
            all_digits(digits.take(i - first), radix),
            acc == digits_value(digits.take(i - first), radix),
            acc <= 255,
        decreases field@.len() - i,
    {
        let ghost done = digits.take(i - first);
        let ghost next = digits.take(i - first + 1);
        proof {
            assert(next.drop_last() =~= done);
            assert(next.last() == field@[i as int]);
        }
        match digit_of(field[i], hex) {
            None => {
                proof {
                    assert(digits[i - first] == field@[i as int]);
                    assert(!all_digits(digits, radix));
                }
                return None;
            },
            Some(d) => {
                let wider: u32 = acc * (if hex { 16 } else { 10 }) + d as u32;
                proof {
                    assert forall|k: int| 0 <= k < next.len() implies (#[trigger] digit_value(
                        next[k],
                        radix,
                    )) is Some by {
                        if k < done.len() {
                            assert(next[k] == done[k]);
                        }
                    }
                    assert(wider == digits_value(next, radix));
                }
                if wider > 255 {
                    proof {
                        if all_digits(digits, radix) {
                            lemma_prefix_value(digits, radix, i - first + 1);
                        }
                    }
                    return None;
                }
                acc = wider;
            },
        }
        i += 1;
    }
    proof {
        assert(digits.take(i - first) =~= digits);
    }
    Some(acc as u8)
}

/// Reads a field as a small unsigned integer.
pub fn decode_unsigned(field: &[u8]) -> (value: Option<u8>)
    ensures
        value == unsigned_of(field@),
{
    if field.len() >= 2 && field[0] == DIGIT_ZERO && field[1] == LOWER_X {
        decode_in_radix(field, 2, true)
    } else {
        let value = decode_in_radix(field, 0, false);
        assert(field@.skip(0) =~= field@);
        value
    }
}


/// The character of a decimal digit.
pub open spec fn digit_char(d: int) -> char {
    if d == 0 {
        '0'
    } else if d == 1 {
        '1'
    } else if d == 2 {
        '2'
    } else if d == 3 {
        '3'
    } else if d == 4 {
        '4'
    } else if d == 5 {
        '5'
    } else if d == 6 {
        '6'
    } else if d == 7 {
        '7'
    } else if d == 8 {
        '8'
    } else {
        '9'
    }
}

/// The decimal text of a number: no sign, no leading zero.
pub open spec fn decimal_text(n: nat) -> Seq<char>
    decreases n,
{
    if n < 10 {
        seq![digit_char(n as int)]
    } else {
        decimal_text(n / 10).push(digit_char((n % 10) as int))
    }
}

fn digit_str(d: u8) -> (s: &'static str)
    requires
        d < 10,
    ensures
        s@ == seq![digit_char(d as int)],
{
    proof {
        reveal_strlit("0");
        reveal_strlit("1");
        reveal_strlit("2");
        reveal_strlit("3");
        reveal_strlit("4");
        reveal_strlit("5");
        reveal_strlit("6");
        reveal_strlit("7");
        reveal_strlit("8");
        reveal_strlit("9");
    }
    let s = if d == 0 {
        "0"
    } else if d == 1 {
        "1"
    } else if d == 2 {
        "2"
    } else if d == 3 {
        "3"
    } else if d == 4 {
        "4"
    } else if d == 5 {
        "5"
    } else if d == 6 {
        "6"
    } else if d == 7 {
        "7"
    } else if d == 8 {
        "8"
    } else {
        "9"
    };
    assert(s@ =~= seq![digit_char(d as int)]);
    s
}

/// Writes a small unsigned integer in decimal.
pub fn decimal(value: u8) -> (s: String)
    ensures
        s@ == decimal_text(value as nat),
{
    proof {
        reveal_with_fuel(decimal_text, 3);
    }
    let mut s = String::new();
    if value >= 100 {
        s.append(digit_str(value / 100));
    }
    if value >= 10 {
        s.append(digit_str((value / 10) % 10));
    }
    s.append(digit_str(value % 10));
    assert(s@ =~= decimal_text(value as nat));
    s
}

} // verus!
