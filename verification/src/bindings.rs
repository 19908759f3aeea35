use vstd::prelude::*;

use crate::abi::{encoding_size_bound, token_values, ParamType, Token, TokenValue, U256};
use crate::text::{
    address_bytes, decimal_value, hex_pairs, int256_pattern, is_address_text, is_decimal_digit,
    is_decimal_text, is_hex_text, is_int256_text, signed_parts, two_pow_256,
};
use ethers::abi::ParamType as AbiParamType;
use ethers::abi::Token as AbiToken;

verus! {

/// The message of the error that ethers' `Address::from_str` (rustc-hex's
/// `FromHexError`) gives for an address text.
pub uninterp spec fn address_error_text(text: Seq<char>) -> Seq<char>;

/// The message of the error that `hex::decode` gives for a text.
pub uninterp spec fn hex_error_text(text: Seq<char>) -> Seq<char>;

/// Message of `uint`'s `FromDecStrErr::InvalidCharacter`.
pub open spec fn uint_bad_character_text() -> Seq<char> {
    "a character is not in the range 0-9"@
}

/// Message of `uint`'s `FromDecStrErr::InvalidLength`.
pub open spec fn uint_too_large_text() -> Seq<char> {
    "the number is too large for the type"@
}

/// Message of ethers' `ParseI256Error::InvalidDigit`.
pub open spec fn int_bad_digit_text() -> Seq<char> {
    "invalid digit found in string"@
}

/// Message of ethers' `ParseI256Error::IntegerOverflow`.
pub open spec fn int_overflow_text() -> Seq<char> {
    "number does not fit in 256-bit integer"@
}

/// Reading `s` digit by digit, what goes wrong first: `Some(true)` for a
/// character that is not a decimal digit, `Some(false)` for a value that reaches
/// 2^256; `None` when nothing does.
pub open spec fn decimal_failure(s: Seq<char>) -> Option<bool>
    decreases s.len(),
{
    if s.len() == 0 {
        None
    } else {
        match decimal_failure(s.drop_last()) {
            Some(f) => Some(f),
            None => if !is_decimal_digit(s.last()) {
                Some(true)
            } else if decimal_value(s) >= two_pow_256() {
                Some(false)
            } else {
                None
            },
        }
    }
}

/// The message with which `U256::from_dec_str` refuses `s`.
pub open spec fn uint_error_text(s: Seq<char>) -> Seq<char> {
    if decimal_failure(s) == Some(true) {
        uint_bad_character_text()
    } else {
        uint_too_large_text()
    }
}

/// The message with which `I256::from_dec_str` refuses `s`: a bad digit when the
/// digits after the sign hold a non-digit before they grow too large, an
/// overflow otherwise.
pub open spec fn int_error_text(s: Seq<char>) -> Seq<char> {
    if decimal_failure(signed_parts(s).1) == Some(true) {
        int_bad_digit_text()
    } else {
        int_overflow_text()
    }
}

/// Parses an address with ethers' `Address::from_str` (fixed-hash's `H160`).
///
/// Claimed of it: after an optional `0x`, the text must be forty hex digits, with
/// spaces, tabs, carriage returns and newlines allowed among them and nothing
/// else; the result is the bytes the digits spell. An error carries the parser's
/// message, named `address_error_text` of the text: it quotes the first bad
/// character and its byte position, which no contract here spells out.
#[verifier::external_body]
pub(crate) fn parse_address(text: &str) -> (parsed: Result<[u8; 20], String>)
    ensures
        parsed is Ok <==> is_address_text(text@),
        parsed matches Ok(bytes) ==> bytes@ == address_bytes(text@),
        parsed matches Err(m) ==> m@ == address_error_text(text@),
{
    match text.parse::<ethers::types::Address>() {
        Ok(address) => Ok(address.0),
        Err(e) => Err(e.to_string()),
    }
}

/// Parses an unsigned decimal with ethers' `U256::from_dec_str`.
///
/// Claimed of it: it succeeds exactly on texts of decimal digits only (the empty
/// text reads as zero) whose value is below 2^256, and returns that value. An
/// error carries the message of the first problem met reading left to right: a
/// character that is not a digit, or a value that has grown too large.
#[verifier::external_body]
pub(crate) fn parse_uint256(text: &str) -> (parsed: Result<U256, String>)
    ensures
        parsed is Ok <==> (is_decimal_text(text@) && decimal_value(text@) < two_pow_256()),
        parsed matches Ok(n) ==> n.value() == decimal_value(text@),
        parsed matches Err(m) ==> m@ == uint_error_text(text@),
{
    match ethers::types::U256::from_dec_str(text) {
        Ok(n) => Ok(U256 { limbs: n.0 }),
        Err(e) => Err(e.to_string()),
    }
}

/// Parses a signed decimal with ethers' `I256::from_dec_str` and takes its raw
/// two's complement pattern (`I256::into_raw`).
///
/// Claimed of it: an optional leading `-` or `+`, then decimal digits; it succeeds
/// exactly when a negative magnitude lies in 1..=2^255 or a non-negative one is
/// below 2^255 (so `-0` and `-` are refused), and returns the pattern. An error
/// carries the message of a bad digit or of an overflow (`int_error_text`).
#[verifier::external_body]
pub(crate) fn parse_int256(text: &str) -> (parsed: Result<U256, String>)
    ensures
        parsed is Ok <==> is_int256_text(text@),
        parsed matches Ok(n) ==> n.value() == int256_pattern(text@),
        parsed matches Err(m) ==> m@ == int_error_text(text@),
{
    match ethers::types::I256::from_dec_str(text) {
        Ok(n) => Ok(U256 { limbs: n.into_raw().0 }),
        Err(e) => Err(e.to_string()),
    }
}

/// Decodes hex with `hex::decode`.
///
/// Claimed of it: it succeeds exactly on an even number of hex digits (either
/// case) and returns the bytes the digit pairs spell. An error carries the
/// decoder's message, named `hex_error_text` of the text: it debug-quotes the
/// first bad byte as a character, which no contract here spells out.
#[verifier::external_body]
pub(crate) fn decode_hex(text: &str) -> (decoded: Result<Vec<u8>, String>)
    ensures
        decoded is Ok <==> is_hex_text(text@),
        decoded matches Ok(bytes) ==> bytes@ == hex_pairs(text@),
        decoded matches Err(m) ==> m@ == hex_error_text(text@),
{
    match hex::decode(text) {
        Ok(bytes) => Ok(bytes),
        Err(e) => Err(e.to_string()),
    }
}

/// The 4-byte selector that ethabi's `short_signature` gives a function name and
/// its parameter types.
pub uninterp spec fn abi_selector(name: Seq<char>, kinds: Seq<ParamType>) -> Seq<u8>;

/// The bytes that ethabi's `encode` gives a sequence of tokens.
pub uninterp spec fn abi_encoding(tokens: Seq<TokenValue>) -> Seq<u8>;

/// Computes a function selector with ethabi's `short_signature` (the first four
/// bytes of the Keccak-256 hash of the signature); claimed: the result is
/// `abi_selector` of the name and types.
#[verifier::external_body]
pub(crate) fn function_selector(name: &str, kinds: &[ParamType]) -> (selector: [u8; 4])
    ensures
        selector@ == abi_selector(name@, kinds@),
{
    let params: Vec<AbiParamType> = kinds.iter().map(|k| match *k {
        ParamType::Address => AbiParamType::Address,
        ParamType::Bytes => AbiParamType::Bytes,
        ParamType::Int(n) => AbiParamType::Int(n),
        ParamType::Uint(n) => AbiParamType::Uint(n),
        ParamType::Bool => AbiParamType::Bool,
        ParamType::String => AbiParamType::String,
        ParamType::FixedBytes(n) => AbiParamType::FixedBytes(n),
    }).collect();
    ethers::abi::short_signature(name, &params)
}

/// Encodes tokens with ethabi's `encode`; claimed: the result is `abi_encoding`
/// of the token values.
///
/// The encoder sums lengths in 32-bit arithmetic, so the tokens must stay within
/// a bound of 2^32 bytes (text counted by its UTF-8 bytes).
#[verifier::external_body]
pub(crate) fn encode_tokens(tokens: &[Token]) -> (encoded: Vec<u8>)
    requires
        encoding_size_bound(token_values(tokens@)) < 0x1_0000_0000,
    ensures
        encoded@ == abi_encoding(token_values(tokens@)),
{
    let abi_tokens: Vec<AbiToken> = tokens.iter().map(|t| match t.clone() {
        Token::Address(a) => AbiToken::Address(ethers::types::H160(a)),
        Token::FixedBytes(b) => AbiToken::FixedBytes(b),
        Token::Bytes(b) => AbiToken::Bytes(b),
        Token::Int(n) => AbiToken::Int(ethers::types::U256(n.limbs)),
        Token::Uint(n) => AbiToken::Uint(ethers::types::U256(n.limbs)),
        Token::Bool(b) => AbiToken::Bool(b),
        Token::String(s) => AbiToken::String(s),
    }).collect();
    ethers::abi::encode(&abi_tokens)
}

} // verus!
