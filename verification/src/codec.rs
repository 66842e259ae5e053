//! The text of each kind of stored value, and the way back from the text.
//!
//! Balances, nonces and block numbers are JSON strings of a base-16 number,
//! storage values and hashes are JSON strings of 32 bytes in base 16,
//! contract code is base-16 text, a height is a decimal number, and the
//! location of a transaction is a JSON array of its block's hash and its
//! position in the block.

use crate::base16::{
    decode, encode, hex_bytes, hex_chars, hex_digit, hex_digits, is_hex_text,
    lemma_hex_round_trip,
};
use crate::error::Error;
use crate::types::{
    lemma_h256_view_injective, lemma_u256_bounded, lemma_u256_view_injective, u256_limit, H256,
    U256,
};
use vstd::prelude::*;

verus! {

/// `text` between double quotes.
pub open spec fn quoted(text: Seq<char>) -> Seq<char> {
    seq!['"'] + text + seq!['"']
}

/// The JSON of a 256-bit number: a string of `0x` and its base-16 digits,
/// without leading zeros.
pub open spec fn u256_json_text(value: nat) -> Seq<char> {
    quoted("0x"@ + hex_digits(value))
}

/// The JSON of 32 bytes: a string of `0x` and two base-16 digits for each
/// byte.
pub open spec fn h256_json_text(bytes: Seq<u8>) -> Seq<char> {
    quoted("0x"@ + hex_chars(bytes))
}

/// The decimal digits of `n`, without leading zeros.
pub open spec fn decimal_text(n: nat) -> Seq<char>
    decreases n,
{
    if n < 10 {
        seq![hex_digit(n as int)]
    } else {
        decimal_text(n / 10).push(hex_digit((n % 10) as int))
    }
}

/// The JSON of a transaction's location: the array of the block's hash and
/// the transaction's position in the block.
pub open spec fn location_json_text(block_hash: Seq<u8>, position: u32) -> Seq<char> {
    seq!['['] + h256_json_text(block_hash) + seq![','] + decimal_text(position as nat) + seq![']']
}

/// Whether `c` is a decimal digit.
pub open spec fn is_decimal_digit(c: char) -> bool {
    '0' <= c <= '9'
}

/// The number that decimal digits stand for.
pub open spec fn decimal_value(digits: Seq<char>) -> nat
    decreases digits.len(),
{
    if digits.len() == 0 {
        0
    } else {
        decimal_value(digits.drop_last()) * 10 + (digits.last() as nat - '0' as nat) as nat
    }
}

/// The digits of a decimal number text: the text itself, without the plus
/// sign that may stand before it.
pub open spec fn decimal_digits_of(text: Seq<char>) -> Seq<char> {
    if text.len() > 0 && text[0] == '+' {
        text.subrange(1, text.len() as int)
    } else {
        text
    }
}

/// Whether `text` is a decimal number that a `u32` can hold: at least one
/// decimal digit and nothing else but a plus sign before them, with a value
/// of at most `u32::MAX`.
pub open spec fn is_height_text(text: Seq<char>) -> bool {
    let digits = decimal_digits_of(text);
    &&& digits.len() > 0
    &&& forall|i: int| 0 <= i < digits.len() ==> is_decimal_digit(#[trigger] digits[i])
    &&& decimal_value(digits) <= u32::MAX
}

/// The number that `serde_json::from_str` reads from `text` as a 256-bit
/// number, or `None` where it returns an error.
pub uninterp spec fn u256_json_value(text: Seq<char>) -> Option<nat>;

/// The 32 bytes that `serde_json::from_str` reads from `text`, or `None`
/// where it returns an error.
pub uninterp spec fn h256_json_value(text: Seq<char>) -> Option<Seq<u8>>;

/// The block hash and position that `serde_json::from_str` reads from
/// `text`, or `None` where it returns an error.
pub uninterp spec fn location_json_value(text: Seq<char>) -> Option<(Seq<u8>, u32)>;

/// `serde_json::to_string` on a `primitive_types::U256`. The type serializes
/// itself as one string, `0x` and the lowercase base-16 digits of the number
/// without leading zeros (`0x0` for zero), which `serde_json` puts between
/// double quotes. Writing a string into memory does not fail.
#[verifier::external_body]
fn u256_to_json(value: &U256) -> (out: Result<String, String>)
    ensures
        out is Ok,
        out matches Ok(text) ==> text@ == u256_json_text(value@),
{
    match serde_json::to_string(&primitive_types::U256(value.0)) {
        Ok(text) => Ok(text),
        Err(error) => Err(error.to_string()),
    }
}

/// `serde_json::from_str` for a `primitive_types::U256`. What it returns is
/// named by `u256_json_value`; the text that `serde_json::to_string` writes
/// for a number is read back as that number.
#[verifier::external_body]
fn u256_from_json(text: &str) -> (out: Result<U256, String>)
    ensures
        out is Ok <==> u256_json_value(text@) is Some,
        out matches Ok(value) ==> u256_json_value(text@) == Some(value@),
        forall|n: nat| n < u256_limit() && text@ == #[trigger] u256_json_text(n) ==> out is Ok,
        forall|n: nat|
            n < u256_limit() && text@ == #[trigger] u256_json_text(n) ==> (out matches Ok(value)
                ==> value@ == n),
{
    match serde_json::from_str::<primitive_types::U256>(text) {
        Ok(value) => Ok(U256(value.0)),
        Err(error) => Err(error.to_string()),
    }
}

/// `serde_json::to_string` on a `primitive_types::H256`. The type serializes
/// itself as one string, `0x` and two lowercase base-16 digits for each of
/// its 32 bytes, which `serde_json` puts between double quotes. Writing a
/// string into memory does not fail.
#[verifier::external_body]
fn h256_to_json(value: &H256) -> (out: Result<String, String>)
    ensures
        out is Ok,
        out matches Ok(text) ==> text@ == h256_json_text(value@),
{
    match serde_json::to_string(&primitive_types::H256(value.0)) {
        Ok(text) => Ok(text),
        Err(error) => Err(error.to_string()),
    }
}

/// `serde_json::from_str` for a `primitive_types::H256`. What it returns is
/// named by `h256_json_value`; the text that `serde_json::to_string` writes
/// for 32 bytes is read back as those bytes.
#[verifier::external_body]
fn h256_from_json(text: &str) -> (out: Result<H256, String>)
    ensures
        out is Ok <==> h256_json_value(text@) is Some,
        out matches Ok(value) ==> h256_json_value(text@) == Some(value@),
        forall|bytes: Seq<u8>|
            bytes.len() == 32 && text@ == #[trigger] h256_json_text(bytes) ==> out is Ok,
        forall|bytes: Seq<u8>|
            bytes.len() == 32 && text@ == #[trigger] h256_json_text(bytes) ==> (out matches Ok(
                value,
            ) ==> value@ == bytes),
{
    match serde_json::from_str::<primitive_types::H256>(text) {
        Ok(value) => Ok(H256(value.0)),
        Err(error) => Err(error.to_string()),
    }
}

/// `serde_json::to_string` on a pair of a `primitive_types::H256` and a
/// `u32`. A pair is written as an array: a bracket, the JSON of the hash, a
/// comma, the decimal digits of the number and a bracket, with no spaces.
/// Writing into memory does not fail.
#[verifier::external_body]
fn location_to_json(block_hash: &H256, position: u32) -> (out: Result<String, String>)
    ensures
        out is Ok,
        out matches Ok(text) ==> text@ == location_json_text(block_hash@, position),
{
    match serde_json::to_string(&(primitive_types::H256(block_hash.0), position)) {
        Ok(text) => Ok(text),
        Err(error) => Err(error.to_string()),
    }
}

/// `serde_json::from_str` for a pair of a `primitive_types::H256` and a
/// `u32`. What it returns is named by `location_json_value`; the text that
/// `serde_json::to_string` writes for a pair is read back as that pair.
#[verifier::external_body]
fn location_from_json(text: &str) -> (out: Result<(H256, u32), String>)
    ensures
        out is Ok <==> location_json_value(text@) is Some,
        out matches Ok(pair) ==> location_json_value(text@) == Some((pair.0@, pair.1)),
        forall|bytes: Seq<u8>, position: u32|
            bytes.len() == 32 && text@ == #[trigger] location_json_text(bytes, position) ==> out
                is Ok,
        forall|bytes: Seq<u8>, position: u32|
            bytes.len() == 32 && text@ == #[trigger] location_json_text(bytes, position) ==> (out
                matches Ok(pair) ==> pair.0@ == bytes && pair.1 == position),
{
    match serde_json::from_str::<(primitive_types::H256, u32)>(text) {
        Ok(pair) => Ok((H256(pair.0.0), pair.1)),
        Err(error) => Err(error.to_string()),
    }
}

/// The `{}` format of a `u32`: its decimal digits, without sign or leading
/// zeros.
#[verifier::external_body]
fn format_height(height: u32) -> (out: String)
    ensures
        out@ == decimal_text(height as nat),
{
    format!("{}", height)
}

/// `str::parse` to a `u32`. It accepts decimal digits, at least one, with a
/// plus sign before them or none, whose value a `u32` can hold, and nothing
/// else: no spaces, no minus sign, no empty text.
#[verifier::external_body]
fn parse_height(text: &str) -> (out: Result<u32, core::num::ParseIntError>)
    ensures
        out is Ok <==> is_height_text(text@),
        out matches Ok(height) ==> height == decimal_value(decimal_digits_of(text@)),
{
    text.parse::<u32>()
}

/// The result of a JSON coder as a result of the store: a value as it is,
/// the coder's message as an `Error::SerdeJsonError`.
pub fn from_json_result<T>(result: Result<T, String>) -> (out: Result<T, Error>)
    ensures
        match result {
            Ok(value) => out == Ok::<T, Error>(value),
            Err(message) => out == Err::<T, Error>(Error::SerdeJsonError(message)),
        },
{
    match result {
        Ok(value) => Ok(value),
        Err(message) => Err(Error::SerdeJsonError(message)),
    }
}

/// The stored text of a balance, a nonce or a block number.
pub fn encode_u256(value: U256) -> (out: Result<String, Error>)
    ensures
        out matches Ok(text) && text@ == u256_json_text(value@),
{
    from_json_result(u256_to_json(&value))
}

/// The number that stored text stands for. The text that `encode_u256` gives
/// for a number is read back as that number; text that is no JSON of a
/// 256-bit number is an `Error::SerdeJsonError`.
pub fn decode_u256(text: &str) -> (out: Result<U256, Error>)
    ensures
        match out {
            Ok(value) => u256_json_value(text@) == Some(value@),
            Err(error) => u256_json_value(text@) is None && error is SerdeJsonError,
        },
        forall|value: U256|
            text@ == #[trigger] u256_json_text(value@) ==> out == Ok::<U256, Error>(value),
{
    let out = from_json_result(u256_from_json(text));
    proof {
        assert forall|value: U256| text@ == #[trigger] u256_json_text(value@) implies out == Ok::<
            U256,
            Error,
        >(value) by {
            lemma_u256_bounded(value);
            lemma_u256_view_injective(out->Ok_0, value);
        }
    }
    out
}

/// The stored text of a storage value or a hash.
pub fn encode_h256(value: H256) -> (out: Result<String, Error>)
    ensures
        out matches Ok(text) && text@ == h256_json_text(value@),
{
    from_json_result(h256_to_json(&value))
}

/// The 32 bytes that stored text stands for. The text that `encode_h256`
/// gives for 32 bytes is read back as those bytes; text that is no JSON of
/// 32 bytes is an `Error::SerdeJsonError`.
pub fn decode_h256(text: &str) -> (out: Result<H256, Error>)
    ensures
        match out {
            Ok(value) => h256_json_value(text@) == Some(value@),
            Err(error) => h256_json_value(text@) is None && error is SerdeJsonError,
        },
        forall|value: H256|
            text@ == #[trigger] h256_json_text(value@) ==> out == Ok::<H256, Error>(value),
{
    let out = from_json_result(h256_from_json(text));
    proof {
        assert forall|value: H256| text@ == #[trigger] h256_json_text(value@) implies out == Ok::<
            H256,
            Error,
        >(value) by {
            assert(value@.len() == 32);
            lemma_h256_view_injective(out->Ok_0, value);
        }
    }
    out
}

/// The stored text of a transaction's location: the hash of its block and
/// its position in the block.
pub fn encode_location(block_hash: H256, position: u32) -> (out: Result<String, Error>)
    ensures
        out matches Ok(text) && text@ == location_json_text(block_hash@, position),
{
    from_json_result(location_to_json(&block_hash, position))
}

/// The location that stored text stands for. The text that
/// `encode_location` gives for a location is read back as that location;
/// text that is no JSON of one is an `Error::SerdeJsonError`.
pub fn decode_location(text: &str) -> (out: Result<(H256, u32), Error>)
    ensures
        match out {
            Ok(pair) => location_json_value(text@) == Some((pair.0@, pair.1)),
            Err(error) => location_json_value(text@) is None && error is SerdeJsonError,
        },
        forall|block_hash: H256, position: u32|
            text@ == #[trigger] location_json_text(block_hash@, position) ==> out == Ok::<
                (H256, u32),
                Error,
            >((block_hash, position)),
{
    let out = from_json_result(location_from_json(text));
    proof {
        assert forall|block_hash: H256, position: u32|
            text@ == #[trigger] location_json_text(block_hash@, position) implies out == Ok::<
                (H256, u32),
                Error,
            >((block_hash, position)) by {
            assert(block_hash@.len() == 32);
            lemma_h256_view_injective(out->Ok_0.0, block_hash);
        }
    }
    out
}

/// The stored text of a height: its decimal digits.
pub fn encode_height(height: u32) -> (out: String)
    ensures
        out@ == decimal_text(height as nat),
{
    format_height(height)
}

/// The height that stored text stands for; an `Error::ParseIntError` where
/// the text is no decimal number that a `u32` can hold. The text that
/// `encode_height` gives for a height is read back as that height.
pub fn decode_height(text: &str) -> (out: Result<u32, Error>)
    ensures
        match out {
            Ok(height) => is_height_text(text@) && height == decimal_value(
                decimal_digits_of(text@),
            ),
            Err(error) => !is_height_text(text@) && error is ParseIntError,
        },
        forall|height: u32|
            text@ == #[trigger] decimal_text(height as nat) ==> out == Ok::<u32, Error>(height),
{
    proof {
        assert forall|height: u32| text@ == #[trigger] decimal_text(height as nat) implies
            is_height_text(text@) && decimal_value(decimal_digits_of(text@)) == height by {
            lemma_height_round_trip(height);
        }
    }
    match parse_height(text) {
        Ok(height) => Ok(height),
        Err(error) => Err(Error::ParseIntError(error)),
    }
}

/// The stored text of contract code: its bytes in lowercase base 16.
pub fn encode_code(code: &[u8]) -> (out: String)
    ensures
        out@ == hex_chars(code@),
{
    encode(code)
}

/// The contract code that stored text stands for; an `Error::FromHexError`
/// where the text is not an even number of base-16 digits. The text that
/// `encode_code` gives for code is read back as that code.
pub fn decode_code(text: &str) -> (out: Result<Vec<u8>, Error>)
    ensures
        match out {
            Ok(code) => is_hex_text(text@) && code@ == hex_bytes(text@),
            Err(error) => !is_hex_text(text@) && error is FromHexError,
        },
        forall|code: Seq<u8>|
            text@ == #[trigger] hex_chars(code) ==> (out matches Ok(found) && found@ == code),
{
    proof {
        assert forall|code: Seq<u8>| text@ == #[trigger] hex_chars(code) implies is_hex_text(
            text@,
        ) && hex_bytes(text@) == code by {
            lemma_hex_round_trip(code);
        }
    }
    match decode(text) {
        Ok(code) => Ok(code),
        Err(error) => Err(Error::FromHexError(error)),
    }
}

/// The decimal text of a number consists of decimal digits, at least one,
/// and stands for that number.
pub proof fn lemma_decimal_round_trip(n: nat)
    ensures
        decimal_text(n).len() > 0,
        forall|i: int| 0 <= i < decimal_text(n).len() ==> is_decimal_digit(#[trigger] decimal_text(n)[i]),
        decimal_value(decimal_text(n)) == n,
    decreases n,
{
    if n < 10 {
        let text = decimal_text(n);
        assert(text.drop_last() =~= Seq::<char>::empty());
        assert(decimal_value(text.drop_last()) == 0);
    } else {
        lemma_decimal_round_trip(n / 10);
        let text = decimal_text(n);
        assert(text.drop_last() =~= decimal_text(n / 10));
        assert(text.last() == hex_digit((n % 10) as int));
    }
}

/// The text that `encode_height` gives for a height is text that
/// `decode_height` reads back as that height.
pub proof fn lemma_height_round_trip(height: u32)
    ensures
        is_height_text(decimal_text(height as nat)),
        decimal_value(decimal_digits_of(decimal_text(height as nat))) == height,
{
    lemma_decimal_round_trip(height as nat);
    let text = decimal_text(height as nat);
    assert(is_decimal_digit(text[0]));
    assert(decimal_digits_of(text) == text);
}

} // verus!
