//! Lowercase base-16 text of bytes, as the `hex` crate writes and reads it.

use vstd::prelude::*;

verus! {

/// The lowercase digit of a value below sixteen.
pub open spec fn hex_digit(n: int) -> char {
    if n == 0 {
        '0'
    } else if n == 1 {
        '1'
    } else if n == 2 {
        '2'
    } else if n == 3 {
        '3'
    } else if n == 4 {
        '4'
    } else if n == 5 {
        '5'
    } else if n == 6 {
        '6'
    } else if n == 7 {
        '7'
    } else if n == 8 {
        '8'
    } else if n == 9 {
        '9'
    } else if n == 10 {
        'a'
    } else if n == 11 {
        'b'
    } else if n == 12 {
        'c'
    } else if n == 13 {
        'd'
    } else if n == 14 {
        'e'
    } else {
        'f'
    }
}

/// The value of a base-16 digit of either case, or -1 for any other character.
pub open spec fn hex_value(c: char) -> int {
    if c == '0' {
        0
    } else if c == '1' {
        1
    } else if c == '2' {
        2
    } else if c == '3' {
        3
    } else if c == '4' {
        4
    } else if c == '5' {
        5
    } else if c == '6' {
        6
    } else if c == '7' {
        7
    } else if c == '8' {
        8
    } else if c == '9' {
        9
    } else if c == 'a' || c == 'A' {
        10
    } else if c == 'b' || c == 'B' {
        11
    } else if c == 'c' || c == 'C' {
        12
    } else if c == 'd' || c == 'D' {
        13
    } else if c == 'e' || c == 'E' {
        14
    } else if c == 'f' || c == 'F' {
        15
    } else {
        -1
    }
}

/// The text of `bytes`: two lowercase digits for each byte, the high half first.
pub open spec fn hex_chars(bytes: Seq<u8>) -> Seq<char> {
    Seq::new(
        2 * bytes.len(),
        |i: int|
            if i % 2 == 0 {
                hex_digit(bytes[i / 2] as int / 16)
            } else {
                hex_digit(bytes[i / 2] as int % 16)
            },
    )
}

/// Whether `text` is base-16 text of whole bytes: an even number of digits
/// and nothing else.
pub open spec fn is_hex_text(text: Seq<char>) -> bool {
    &&& text.len() % 2 == 0
    &&& forall|i: int| 0 <= i < text.len() ==> hex_value(#[trigger] text[i]) >= 0
}

/// The bytes that base-16 text stands for.
pub open spec fn hex_bytes(text: Seq<char>) -> Seq<u8> {
    Seq::new(
        text.len() / 2,
        |i: int| (hex_value(text[2 * i]) * 16 + hex_value(text[2 * i + 1])) as u8,
    )
}

/// The digits of `n` in base 16, lowercase, without leading zeros; zero is
/// the one digit `0`.
pub open spec fn hex_digits(n: nat) -> Seq<char>
    decreases n,
{
    if n < 16 {
        seq![hex_digit(n as int)]
    } else {
        hex_digits(n / 16).push(hex_digit((n % 16) as int))
    }
}

/// `count` zero digits.
pub open spec fn zero_digits(count: int) -> Seq<char> {
    Seq::new(
        if count > 0 {
            count as nat
        } else {
            0
        },
        |i: int| '0',
    )
}

/// `hex::encode` on a byte slice: the result is two lowercase digits for each
/// byte, in order, and nothing else.
#[verifier::external_body]
fn hex_encode(bytes: &[u8]) -> (out: String)
    ensures
        out@ == hex_chars(bytes@),
{
    hex::encode(bytes)
}

/// `hex::decode` on a string: it succeeds exactly on an even number of
/// base-16 digits of either case, with the bytes they stand for.
#[verifier::external_body]
fn hex_decode(text: &str) -> (out: Result<Vec<u8>, hex::FromHexError>)
    ensures
        out is Ok <==> is_hex_text(text@),
        out matches Ok(bytes) ==> bytes@ == hex_bytes(text@),
{
    hex::decode(text)
}

/// The declaration of the error that `hex::decode` returns.
#[verifier::external_type_specification]
#[verifier::external_body]
pub struct ExFromHexError(hex::FromHexError);

/// The lowercase base-16 text of `bytes`.
pub fn encode(bytes: &[u8]) -> (out: String)
    ensures
        out@ == hex_chars(bytes@),
{
    hex_encode(bytes)
}

/// The bytes that `text` stands for; an error where `text` is not an even
/// number of base-16 digits.
pub fn decode(text: &str) -> (out: Result<Vec<u8>, hex::FromHexError>)
    ensures
        out is Ok <==> is_hex_text(text@),
        out matches Ok(bytes) ==> bytes@ == hex_bytes(text@),
{
    hex_decode(text)
}

/// Distinct values below sixteen have distinct digits, and a digit has its
/// value.
pub proof fn lemma_hex_digit_value(n: int)
    requires
        0 <= n < 16,
    ensures
        hex_value(hex_digit(n)) == n,
{
}

/// The text of bytes is base-16 text, and stands for those bytes.
pub proof fn lemma_hex_round_trip(bytes: Seq<u8>)
    ensures
        is_hex_text(hex_chars(bytes)),
        hex_bytes(hex_chars(bytes)) == bytes,
{
    let text = hex_chars(bytes);
    assert forall|i: int| 0 <= i < text.len() implies hex_value(#[trigger] text[i]) >= 0 by {
        let b = bytes[i / 2] as int;
        lemma_hex_digit_value(b / 16);
        lemma_hex_digit_value(b % 16);
    }
    assert forall|k: int| 0 <= k < bytes.len() implies hex_bytes(text)[k] == bytes[k] by {
        let b = bytes[k] as int;
        lemma_hex_digit_value(b / 16);
        lemma_hex_digit_value(b % 16);
        assert(text[2 * k] == hex_digit(b / 16));
        assert(text[2 * k + 1] == hex_digit(b % 16));
    }
    assert(hex_bytes(text) =~= bytes);
}

/// Different bytes have different text.
pub proof fn lemma_hex_chars_injective(a: Seq<u8>, b: Seq<u8>)
    requires
        hex_chars(a) == hex_chars(b),
    ensures
        a == b,
{
    lemma_hex_round_trip(a);
    lemma_hex_round_trip(b);
}

} // verus!
