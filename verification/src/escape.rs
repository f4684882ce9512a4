//! Percent-encoding of the values of a query, and its inverse.
//!
//! A value is written as its UTF-8 bytes: the bytes of letters, digits, `-`,
//! `.`, `_` and `~` stand for themselves, every other byte is written as `%`
//! and its two hexadecimal digits in upper case.

use crate::text::chars_of;
use vstd::prelude::*;
use vstd::string::*;
use vstd::utf8::*;

verus! {

/// Whether a byte stands for itself in an encoded value.
pub open spec fn is_unreserved(b: u8) -> bool {
    ||| 0x41 <= b <= 0x5a
    ||| 0x61 <= b <= 0x7a
    ||| 0x30 <= b <= 0x39
    ||| b == 0x2d
    ||| b == 0x2e
    ||| b == 0x5f
    ||| b == 0x7e
}

/// The hexadecimal digit of a number below sixteen, in upper case.
pub open spec fn hex_digit(n: int) -> char {
    if n == 0 {
        '0'
    } else if n == 1 {
        '1'
    } else if n == 2 {
        '2'
    } else if n == 3 {
        '3'
    } else if n == 4 {
        '4'
    } else if n == 5 {
        '5'
    } else if n == 6 {
        '6'
    } else if n == 7 {
        '7'
    } else if n == 8 {
        '8'
    } else if n == 9 {
        '9'
    } else if n == 10 {
        'A'
    } else if n == 11 {
        'B'
    } else if n == 12 {
        'C'
    } else if n == 13 {
        'D'
    } else if n == 14 {
        'E'
    } else {
        'F'
    }
}

/// The number that a hexadecimal digit writes, in either case.
pub open spec fn hex_value(c: char) -> Option<int> {
    if c == '0' {
        Some(0)
    } else if c == '1' {
        Some(1)
    } else if c == '2' {
        Some(2)
    } else if c == '3' {
        Some(3)
    } else if c == '4' {
        Some(4)
    } else if c == '5' {
        Some(5)
    } else if c == '6' {
        Some(6)
    } else if c == '7' {
        Some(7)
    } else if c == '8' {
        Some(8)
    } else if c == '9' {
        Some(9)
    } else if c == 'A' || c == 'a' {
        Some(10)
    } else if c == 'B' || c == 'b' {
        Some(11)
    } else if c == 'C' || c == 'c' {
        Some(12)
    } else if c == 'D' || c == 'd' {
        Some(13)
    } else if c == 'E' || c == 'e' {
        Some(14)
    } else if c == 'F' || c == 'f' {
        Some(15)
    } else {
        None
    }
}

/// How one byte is written.
pub open spec fn encoded_byte(b: u8) -> Seq<char> {
    if is_unreserved(b) {
        seq![b as char]
    } else {
        seq!['%', hex_digit(b as int / 16), hex_digit(b as int % 16)]
    }
}

/// How a run of bytes is written.
pub open spec fn encoded_bytes(bytes: Seq<u8>) -> Seq<char>
    decreases bytes.len(),
{
    if bytes.len() == 0 {
        Seq::empty()
    } else {
        encoded_byte(bytes[0]) + encoded_bytes(bytes.drop_first())
    }
}

/// The percent-encoding of a text.
pub open spec fn percent_encoded(s: Seq<char>) -> Seq<char> {
    encoded_bytes(encode_utf8(s))
}

/// The bytes that an encoded text writes: `%` and two hexadecimal digits
/// give one byte, any other ASCII character its own. `None` where a `%` is
/// not followed by two digits, or a character is not ASCII.
pub open spec fn decoded_bytes(s: Seq<char>) -> Option<Seq<u8>>
    decreases s.len(),
{
    if s.len() == 0 {
        Some(Seq::empty())
    } else if s[0] == '%' {
        if s.len() >= 3 && hex_value(s[1]) is Some && hex_value(s[2]) is Some {
            match decoded_bytes(s.skip(3)) {
                Some(rest) => Some(
                    seq![(hex_value(s[1]).unwrap() * 16 + hex_value(s[2]).unwrap()) as u8] + rest,
                ),
                None => None,
            }
        } else {
            None
        }
    } else if s[0] <= '\u{7f}' {
        match decoded_bytes(s.skip(1)) {
            Some(rest) => Some(seq![s[0] as u8] + rest),
            None => None,
        }
    } else {
        None
    }
}

/// The text that an encoded text stands for, when it stands for one: its
/// bytes must be UTF-8.
pub open spec fn percent_decoded(s: Seq<char>) -> Option<Seq<char>> {
    match decoded_bytes(s) {
        Some(bytes) => if valid_utf8(bytes) {
            Some(decode_utf8(bytes))
        } else {
            None
        },
        None => None,
    }
}

/// Writing bytes and reading them back gives the bytes.
pub proof fn lemma_bytes_round_trip(bytes: Seq<u8>)
    ensures
        decoded_bytes(encoded_bytes(bytes)) == Some(bytes),
    decreases bytes.len(),
{
    if bytes.len() > 0 {
        let b = bytes[0];
        let rest = bytes.drop_first();
        let s = encoded_bytes(bytes);
        lemma_bytes_round_trip(rest);
        if is_unreserved(b) {
            assert(s.skip(1) =~= encoded_bytes(rest));
            assert(s[0] == b as char);
            assert((b as char) as u8 == b);
        } else {
            assert(s.skip(3) =~= encoded_bytes(rest));
            assert(s[1] == hex_digit(b as int / 16) && s[2] == hex_digit(b as int % 16));
            assert(hex_value(s[1]) == Some(b as int / 16));
            assert(hex_value(s[2]) == Some(b as int % 16));
        }
        assert(seq![b] + rest =~= bytes);
    }
}

/// Decoding what was encoded gives the text that went in.
pub proof fn lemma_percent_round_trip(s: Seq<char>)
    ensures
        percent_decoded(percent_encoded(s)) == Some(s),
{
    lemma_bytes_round_trip(encode_utf8(s));
    encode_utf8_valid_utf8(s);
    encode_utf8_decode_utf8(s);
}

/// Whether a character is one of those that stand for themselves.
pub open spec fn is_unreserved_char(c: char) -> bool {
    c <= '\u{7f}' && is_unreserved(c as u8)
}

/// Whether a character can stand in an encoded text.
pub open spec fn is_encoded_char(c: char) -> bool {
    c == '%' || is_unreserved_char(c)
}

/// Whether every character of a text stands for itself.
pub open spec fn is_unreserved_text(s: Seq<char>) -> bool {
    forall|i: int| 0 <= i < s.len() ==> is_unreserved_char(#[trigger] s[i])
}

/// Bytes are written with `%` and characters that stand for themselves
/// only.
pub proof fn lemma_encoded_bytes_chars(bytes: Seq<u8>)
    ensures
        forall|i: int|
            0 <= i < encoded_bytes(bytes).len() ==> is_encoded_char(
                #[trigger] encoded_bytes(bytes)[i],
            ),
    decreases bytes.len(),
{
    if bytes.len() > 0 {
        let head = encoded_byte(bytes[0]);
        let tail = encoded_bytes(bytes.drop_first());
        lemma_encoded_bytes_chars(bytes.drop_first());
        assert forall|i: int| 0 <= i < encoded_bytes(bytes).len() implies is_encoded_char(
            #[trigger] encoded_bytes(bytes)[i],
        ) by {
            if i < head.len() {
                assert(encoded_bytes(bytes)[i] == head[i]);
            } else {
                assert(encoded_bytes(bytes)[i] == tail[i - head.len()]);
            }
        }
    }
}

/// An encoded text holds `%` and characters that stand for themselves
/// only: no blank, no control character, and none of `&`, `=`, `#`, `?`.
pub proof fn lemma_encoded_chars(s: Seq<char>)
    ensures
        forall|i: int|
            0 <= i < percent_encoded(s).len() ==> is_encoded_char(#[trigger] percent_encoded(s)[i]),
        !percent_encoded(s).contains('&'),
        !percent_encoded(s).contains('='),
        !percent_encoded(s).contains('#'),
        !percent_encoded(s).contains('?'),
{
    lemma_encoded_bytes_chars(encode_utf8(s));
}

/// Bytes that all stand for themselves are written as their characters.
pub proof fn lemma_unreserved_bytes(bytes: Seq<u8>)
    requires
        forall|i: int| 0 <= i < bytes.len() ==> is_unreserved(#[trigger] bytes[i]),
    ensures
        encoded_bytes(bytes) == Seq::new(bytes.len(), |i: int| bytes[i] as char),
    decreases bytes.len(),
{
    if bytes.len() > 0 {
        let rest = bytes.drop_first();
        assert forall|i: int| 0 <= i < rest.len() implies is_unreserved(#[trigger] rest[i]) by {
            assert(rest[i] == bytes[i + 1]);
        }
        lemma_unreserved_bytes(rest);
        assert(is_unreserved(bytes[0]));
        assert(encoded_bytes(bytes) =~= Seq::new(bytes.len(), |i: int| bytes[i] as char));
    } else {
        assert(encoded_bytes(bytes) =~= Seq::new(bytes.len(), |i: int| bytes[i] as char));
    }
}

/// No character stands before the first one.
proof fn lemma_char_is_not_negative(c: char)
    ensures
        '\0' <= c,
{
}

/// A text of letters, digits, `-`, `.`, `_` and `~` is its own encoding.
pub proof fn lemma_unreserved_text(s: Seq<char>)
    requires
        is_unreserved_text(s),
    ensures
        percent_encoded(s) == s,
        percent_decoded(s) == Some(s),
{
    let bytes = encode_utf8(s);
    assert forall|i: int| 0 <= i < s.len() implies '\0' <= #[trigger] s[i] <= '\u{7f}' by {
        assert(is_unreserved_char(s[i]));
        lemma_char_is_not_negative(s[i]);
    }
    is_ascii_chars_encode_utf8(s);
    assert forall|i: int| 0 <= i < bytes.len() implies is_unreserved(#[trigger] bytes[i]) by {
        assert(is_unreserved_char(s[i]));
    }
    lemma_unreserved_bytes(bytes);
    assert(percent_encoded(s) =~= s) by {
        assert forall|i: int| 0 <= i < s.len() implies percent_encoded(s)[i] == s[i] by {
            assert(is_unreserved_char(s[i]));
            assert(bytes[i] == s[i] as u8);
        }
    }
    lemma_percent_round_trip(s);
}

/// Writing one more byte adds its text at the end.
pub proof fn lemma_encoded_push(bytes: Seq<u8>, b: u8)
    ensures
        encoded_bytes(bytes.push(b)) == encoded_bytes(bytes) + encoded_byte(b),
    decreases bytes.len(),
{
    let longer = bytes.push(b);
    if bytes.len() == 0 {
        assert(longer.drop_first() =~= Seq::<u8>::empty());
        assert(encoded_bytes(longer.drop_first()) =~= Seq::<char>::empty());
        assert(encoded_bytes(longer) =~= encoded_byte(b));
    } else {
        lemma_encoded_push(bytes.drop_first(), b);
        assert(longer.drop_first() =~= bytes.drop_first().push(b));
        assert(encoded_bytes(longer) =~= encoded_bytes(bytes) + encoded_byte(b));
    }
}

/// The one-character text of a byte that stands for itself.
fn unreserved_str(b: u8) -> (s: &'static str)
    requires
        is_unreserved(b),
    ensures
        s@ == seq![b as char],
{
    let k: usize = if 0x41 <= b && b <= 0x5a {
        (b - 0x41) as usize
    } else if 0x61 <= b && b <= 0x7a {
        (b - 0x61) as usize + 26
    } else if 0x30 <= b && b <= 0x39 {
        (b - 0x30) as usize + 52
    } else if b == 0x2d {
        62
    } else if b == 0x2e {
        63
    } else if b == 0x5f {
        64
    } else {
        65
    };
    let all = "ABCDEFGHIJKLMNOPQRSTUVWXYZabcdefghijklmnopqrstuvwxyz0123456789-._~";
    proof {
        reveal_strlit("ABCDEFGHIJKLMNOPQRSTUVWXYZabcdefghijklmnopqrstuvwxyz0123456789-._~");
        assert(all@.len() == 66);
        assert(all@[k as int] == b as char);
    }
    let s = all.substring_ascii(k, k + 1);
    assert(s@ =~= seq![b as char]);
    s
}

/// The one-character text of a hexadecimal digit.
fn hex_str(n: u8) -> (s: &'static str)
    requires
        n < 16,
    ensures
        s@ == seq![hex_digit(n as int)],
{
    let all = "0123456789ABCDEF";
    proof {
        reveal_strlit("0123456789ABCDEF");
        assert(all@.len() == 16);
        assert(all@[n as int] == hex_digit(n as int));
    }
    let s = all.substring_ascii(n as usize, n as usize + 1);
    assert(s@ =~= seq![hex_digit(n as int)]);
    s
}

/// Whether a byte stands for itself in an encoded value.
fn unreserved(b: u8) -> (plain: bool)
    ensures
        plain == is_unreserved(b),
{
    (0x41 <= b && b <= 0x5a) || (0x61 <= b && b <= 0x7a) || (0x30 <= b && b <= 0x39) || b == 0x2d
        || b == 0x2e || b == 0x5f || b == 0x7e
}

/// Percent-encodes a text.
pub fn percent_encode(s: &str) -> (out: String)
    ensures
        out@ == percent_encoded(s@),
{
    let bytes = s.as_bytes();
    let mut out = String::new();
    let mut i: usize = 0;
    assert(bytes@.take(0) =~= Seq::<u8>::empty());
    while i < bytes.len()
        invariant
            i <= bytes.len(),
            bytes@ == encode_utf8(s@),
            out@ == encoded_bytes(bytes@.take(i as int)),
        decreases bytes.len() - i,
    {
        let b = bytes[i];
        proof {
            lemma_encoded_push(bytes@.take(i as int), b);
            assert(bytes@.take(i + 1) =~= bytes@.take(i as int).push(b));
        }
        if unreserved(b) {
            out.append(unreserved_str(b));
        } else {
            out.append("%");
            out.append(hex_str(b / 16));
            out.append(hex_str(b % 16));
            proof {
                reveal_strlit("%");
                assert("%"@ + seq![hex_digit(b as int / 16)] + seq![hex_digit(b as int % 16)]
                    =~= encoded_byte(b));
            }
        }
        i += 1;
    }
    assert(bytes@.take(i as int) =~= bytes@);
    out
}

/// `std::string::FromUtf8Error`, carried as it is; nothing is read from it.
#[verifier::external_type_specification]
#[verifier::external_body]
pub struct ExFromUtf8Error(std::string::FromUtf8Error);

/// `String::from_utf8`: the string of the bytes when they are UTF-8, and an
/// error when they are not. Nothing here is proved: the contract restates
/// the documentation of the standard library.
#[verifier::external_body]
fn string_from_utf8(bytes: Vec<u8>) -> (text: Result<String, std::string::FromUtf8Error>)
    ensures
        match text {
            Ok(s) => valid_utf8(bytes@) && s@ == decode_utf8(bytes@),
            Err(_) => !valid_utf8(bytes@),
        },
{
    String::from_utf8(bytes)
}

/// The number that a hexadecimal digit writes.
fn hex_of(c: char) -> (n: Option<u8>)
    ensures
        match n {
            Some(v) => hex_value(c) == Some(v as int) && v < 16,
            None => hex_value(c) is None,
        },
{
    match c {
        '0' => Some(0),
        '1' => Some(1),
        '2' => Some(2),
        '3' => Some(3),
        '4' => Some(4),
        '5' => Some(5),
        '6' => Some(6),
        '7' => Some(7),
        '8' => Some(8),
        '9' => Some(9),
        'A' | 'a' => Some(10),
        'B' | 'b' => Some(11),
        'C' | 'c' => Some(12),
        'D' | 'd' => Some(13),
        'E' | 'e' => Some(14),
        'F' | 'f' => Some(15),
        _ => None,
    }
}

/// Decodes a percent-encoded text. `None` where a `%` is not followed by
/// two hexadecimal digits, a character is not ASCII, or the bytes written
/// are not UTF-8.
pub fn percent_decode(s: &str) -> (out: Option<String>)
    ensures
        match out {
            Some(text) => percent_decoded(s@) == Some(text@),
            None => percent_decoded(s@) is None,
        },
{
    let chars = chars_of(s);
    let n = chars.len();
    let mut bytes: Vec<u8> = Vec::new();
    let mut i: usize = 0;
    assert(s@.skip(0) =~= s@);
    assert(bytes@ + decoded_bytes(s@)->0 =~= decoded_bytes(s@)->0);
    while i < n
        invariant
            i <= n,
            n == chars.len(),
            chars@ == s@,
            decoded_bytes(s@) == match decoded_bytes(s@.skip(i as int)) {
                Some(rest) => Some(bytes@ + rest),
                None => None,
            },
        decreases n - i,
    {
        let ghost here = s@.skip(i as int);
        let ghost before = bytes@;
        let c = chars[i];
        assert(here[0] == c);
        if c == '%' {
            if n - i < 3 {
                return None;
            }
            assert(here[1] == chars@[i + 1] && here[2] == chars@[i + 2]);
            let high = match hex_of(chars[i + 1]) {
                Some(v) => v,
                None => {
                    return None;
                },
            };
            let low = match hex_of(chars[i + 2]) {
                Some(v) => v,
                None => {
                    return None;
                },
            };
            let b: u8 = high * 16 + low;
            bytes.push(b);
            proof {
                assert(here.skip(3) =~= s@.skip(i + 3));
                assert forall|rest: Seq<u8>| #![auto] before + (seq![b] + rest) == bytes@ + rest by {
                    assert(before + (seq![b] + rest) =~= bytes@ + rest);
                }
            }
            i += 3;
        } else if c <= '\u{7f}' {
            let b: u8 = c as u8;
            bytes.push(b);
            proof {
                assert(here.skip(1) =~= s@.skip(i + 1));
                assert forall|rest: Seq<u8>| #![auto] before + (seq![b] + rest) == bytes@ + rest by {
                    assert(before + (seq![b] + rest) =~= bytes@ + rest);
                }
            }
            i += 1;
        } else {
            return None;
        }
    }
    assert(s@.skip(i as int) =~= Seq::<char>::empty());
    assert(bytes@ + Seq::<u8>::empty() =~= bytes@);
    match string_from_utf8(bytes) {
        Ok(text) => Some(text),
        Err(_) => None,
    }
}

} // verus!
