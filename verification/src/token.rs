use vstd::prelude::*;

use crate::abi::{token_fits, ParamType, Token, TokenValue, U256};
use crate::bindings::{
    address_error_text, decode_hex, hex_error_text, int_error_text, parse_address, parse_int256,
    parse_uint256, uint_error_text,
};
use crate::error::{ErrorKind, GasBenchError};
use crate::json::{JsonNumber, JsonValue};
use crate::text::{
    is_hex_digit,
    decimal_text, is_decimal_digit, lemma_decimal_text, signed_decimal_text, signed_parts,
    address_bytes, decimal_value, hex_pairs, int256_pattern, is_address_text, is_decimal_text,
    is_hex_text, is_int256_text, strip_hex_prefix, two_pow_256, without_hex_prefix,
};

verus! {

/// The smaller of two numbers.
pub open spec fn at_most(a: int, b: int) -> int {
    if a <= b {
        a
    } else {
        b
    }
}

/// A fixed-size bytes value: 32 bytes, holding the first bytes of `bytes` (no more
/// than `size` and no more than 32 of them), then zeros.
pub open spec fn fixed_bytes_value(bytes: Seq<u8>, size: usize) -> Seq<u8> {
    let n = at_most(at_most(bytes.len() as int, size as int), 32);
    Seq::new(32, |i: int| if i < n { bytes[i] } else { 0u8 })
}

/// The token that the JSON value `value` gives for a parameter of type `kind`, or
/// what goes wrong.
///
/// Numbers go by the JSON reader's classification: an unsigned parameter takes a
/// non-negative integer, a signed one any integer that fits 64 bits signed; both
/// also take decimal text. Bytes take hex text with an optional `0x`.
pub open spec fn token_for(value: JsonValue, kind: ParamType) -> Result<TokenValue, ErrorKind> {
    match kind {
        ParamType::Address => match value {
            JsonValue::String(s) => if is_address_text(s@) {
                Ok(TokenValue::Address(address_bytes(s@)))
            } else {
                Err(ErrorKind::InvalidAddress(address_error_text(s@)))
            },
            _ => Err(ErrorKind::ExpectedAddressString),
        },
        ParamType::Uint(_) => match value {
            JsonValue::Number(JsonNumber::PosInt(n)) => Ok(TokenValue::Uint(n as nat)),
            JsonValue::String(s) => if is_decimal_text(s@) && decimal_value(s@) < two_pow_256() {
                Ok(TokenValue::Uint(decimal_value(s@)))
            } else {
                Err(ErrorKind::InvalidUint(uint_error_text(s@)))
            },
            _ => Err(ErrorKind::ExpectedUintValue),
        },
        ParamType::Int(_) => match value {
            JsonValue::Number(JsonNumber::PosInt(n)) => if n <= i64::MAX {
                Ok(TokenValue::Int(n as nat))
            } else {
                Err(ErrorKind::ExpectedIntValue)
            },
            JsonValue::Number(JsonNumber::NegInt(n)) => if n >= 0 {
                Ok(TokenValue::Int(n as nat))
            } else {
                Ok(TokenValue::Int((two_pow_256() + n) as nat))
            },
            JsonValue::String(s) => if is_int256_text(s@) {
                Ok(TokenValue::Int(int256_pattern(s@)))
            } else {
                Err(ErrorKind::InvalidInt(int_error_text(s@)))
            },
            _ => Err(ErrorKind::ExpectedIntValue),
        },
        ParamType::Bool => match value {
            JsonValue::Bool(b) => Ok(TokenValue::Bool(b)),
            _ => Err(ErrorKind::ExpectedBool),
        },
        ParamType::String => match value {
            JsonValue::String(s) => Ok(TokenValue::String(s@)),
            _ => Err(ErrorKind::ExpectedString),
        },
        ParamType::Bytes => match value {
            JsonValue::String(s) => if is_hex_text(without_hex_prefix(s@)) {
                Ok(TokenValue::Bytes(hex_pairs(without_hex_prefix(s@))))
            } else {
                Err(ErrorKind::InvalidHex(hex_error_text(without_hex_prefix(s@))))
            },
            _ => Err(ErrorKind::ExpectedHexBytes),
        },
        ParamType::FixedBytes(size) => match value {
            JsonValue::String(s) => if is_hex_text(without_hex_prefix(s@)) {
                Ok(
                    TokenValue::FixedBytes(
                        fixed_bytes_value(hex_pairs(without_hex_prefix(s@)), size),
                    ),
                )
            } else {
                Err(ErrorKind::InvalidHex(hex_error_text(without_hex_prefix(s@))))
            },
            _ => Err(ErrorKind::ExpectedHexFixedBytes),
        },
    }
}

/// A converted value fits the type it was converted for, with one exception: a
/// fixed-size bytes value always has 32 bytes, which does not fit a size below 32.
pub proof fn lemma_token_fits_type(value: JsonValue, kind: ParamType)
    requires
        token_for(value, kind) is Ok,
    ensures
        token_fits(token_for(value, kind)->Ok_0, kind) <==> !(kind matches ParamType::FixedBytes(
            size,
        ) && size < 32),
{
}

/// A fixed-size bytes value from hex text holds 32 bytes: the decoded bytes as
/// far as the declared size reaches, then zeros. In particular a full 32-byte
/// value for a size of 32 or more comes back byte for byte, and a shorter value
/// comes back padded with zeros on the right.
pub proof fn lemma_fixed_bytes_layout(s: String, size: usize)
    requires
        is_hex_text(without_hex_prefix(s@)),
    ensures
        token_for(JsonValue::String(s), ParamType::FixedBytes(size)) is Ok,
        token_for(JsonValue::String(s), ParamType::FixedBytes(size))->Ok_0 matches TokenValue::FixedBytes(
            b,
        ) && b.len() == 32 && (forall|i: int|
            0 <= i < 32 ==> #[trigger] b[i] == (if i < size && i < hex_pairs(
                without_hex_prefix(s@),
            ).len() {
                hex_pairs(without_hex_prefix(s@))[i]
            } else {
                0u8
            })),
        hex_pairs(without_hex_prefix(s@)).len() == 32 && size >= 32 ==> token_for(
            JsonValue::String(s),
            ParamType::FixedBytes(size),
        ) == Ok::<TokenValue, ErrorKind>(TokenValue::FixedBytes(hex_pairs(without_hex_prefix(s@)))),
{
    let d = hex_pairs(without_hex_prefix(s@));
    let b = fixed_bytes_value(d, size);
    assert forall|i: int| 0 <= i < 32 implies #[trigger] b[i] == (if i < size && i < d.len() {
        d[i]
    } else {
        0u8
    }) by {}
    if d.len() == 32 && size >= 32 {
        assert(b =~= d);
    }
}

/// A token holds the value it was given: a bool its truth value, a string its
/// text, bytes the bytes their hex spells, an address the bytes of its forty hex
/// digits, and an unsigned or signed number the number its decimal text spells.
pub proof fn lemma_token_holds_value(value: JsonValue, kind: ParamType)
    ensures
        kind == ParamType::Bool && value is Bool ==> token_for(value, kind) == Ok::<
            TokenValue,
            ErrorKind,
        >(TokenValue::Bool(value->Bool_0)),
        kind == ParamType::String && value is String ==> token_for(value, kind) == Ok::<
            TokenValue,
            ErrorKind,
        >(TokenValue::String(value->String_0@)),
        kind == ParamType::Bytes && value is String && is_hex_text(
            without_hex_prefix(value->String_0@),
        ) ==> token_for(value, kind) == Ok::<TokenValue, ErrorKind>(
            TokenValue::Bytes(hex_pairs(without_hex_prefix(value->String_0@))),
        ),
        kind == ParamType::Address && value is String && is_address_text(value->String_0@)
            ==> token_for(value, kind) == Ok::<TokenValue, ErrorKind>(
            TokenValue::Address(hex_pairs(without_hex_prefix(value->String_0@).filter(|c: char| is_hex_digit(c)))),
        ),
        kind is Uint && value is String && is_decimal_text(value->String_0@) && decimal_value(
            value->String_0@,
        ) < two_pow_256() ==> token_for(value, kind) == Ok::<TokenValue, ErrorKind>(
            TokenValue::Uint(decimal_value(value->String_0@)),
        ),
        kind is Int && value is String && is_int256_text(value->String_0@) ==> token_for(
            value,
            kind,
        ) == Ok::<TokenValue, ErrorKind>(TokenValue::Int(int256_pattern(value->String_0@))),
{
}

/// The JSON value an integer is read as: a non-negative one as `PosInt`, a
/// negative one as `NegInt`.
pub open spec fn json_integer(i: i64) -> JsonValue {
    if i >= 0 {
        JsonValue::Number(JsonNumber::PosInt(i as u64))
    } else {
        JsonValue::Number(JsonNumber::NegInt(i))
    }
}

/// An unsigned parameter gives the same token for a JSON integer as for its
/// decimal text: the integer's value.
pub proof fn lemma_uint_number_or_text(n: u64, text: String, width: usize)
    requires
        text@ == decimal_text(n as nat),
    ensures
        token_for(JsonValue::Number(JsonNumber::PosInt(n)), ParamType::Uint(width)) == token_for(
            JsonValue::String(text),
            ParamType::Uint(width),
        ),
        token_for(JsonValue::Number(JsonNumber::PosInt(n)), ParamType::Uint(width)) == Ok::<
            TokenValue,
            ErrorKind,
        >(TokenValue::Uint(n as nat)),
{
    lemma_decimal_text(n as nat);
}

/// A signed parameter gives the same token for a JSON integer as for its decimal
/// text: the integer's two's complement pattern.
pub proof fn lemma_int_number_or_text(i: i64, text: String, width: usize)
    requires
        text@ == signed_decimal_text(i as int),
    ensures
        token_for(json_integer(i), ParamType::Int(width)) == token_for(
            JsonValue::String(text),
            ParamType::Int(width),
        ),
        token_for(json_integer(i), ParamType::Int(width)) == Ok::<TokenValue, ErrorKind>(
            TokenValue::Int(
                if i >= 0 {
                    i as nat
                } else {
                    (two_pow_256() + i) as nat
                },
            ),
        ),
{
    if i >= 0 {
        lemma_decimal_text(i as nat);
        let t = decimal_text(i as nat);
        assert(is_decimal_digit(t[0]));
        assert(signed_parts(text@) == (false, t));
    } else {
        let d = decimal_text((-i) as nat);
        lemma_decimal_text((-i) as nat);
        assert(text@[0] == '-');
        assert(text@.skip(1) =~= d);
        assert(signed_parts(text@) == (true, d));
    }
}

/// 32 bytes: the first bytes of `bytes`, no more than `size`, then zeros.
fn fixed_bytes(bytes: &Vec<u8>, size: usize) -> (fixed: Vec<u8>)
    ensures
        fixed@ == fixed_bytes_value(bytes@, size),
{
    let mut n = bytes.len();
    if size < n {
        n = size;
    }
    if 32 < n {
        n = 32;
    }
    let mut fixed: Vec<u8> = Vec::new();
    let mut i: usize = 0;
    while i < 32
        invariant
            i <= 32,
            n as int == at_most(at_most(bytes@.len() as int, size as int), 32),
            fixed@ =~= fixed_bytes_value(bytes@, size).take(i as int),
        decreases 32 - i,
    {
        if i < n {
            fixed.push(bytes[i]);
        } else {
            fixed.push(0);
        }
        i += 1;
    }
    assert(fixed_bytes_value(bytes@, size).take(32) =~= fixed_bytes_value(bytes@, size));
    fixed
}

/// Converts a JSON value to an ABI token for a parameter of the given type.
pub fn json_to_token(value: &JsonValue, param_type: &ParamType) -> (token: Result<
    Token,
    GasBenchError,
>)
    ensures
        match token {
            Ok(t) => token_for(*value, *param_type) == Ok::<TokenValue, ErrorKind>(t@),
            Err(e) => token_for(*value, *param_type) == Err::<TokenValue, ErrorKind>(e@),
        },
{
    match param_type {
        ParamType::Address => match value {
            JsonValue::String(s) => match parse_address(s.as_str()) {
                Ok(bytes) => Ok(Token::Address(bytes)),
                Err(m) => Err(GasBenchError::InvalidAddress(m)),
            },
            _ => Err(GasBenchError::ExpectedAddressString),
        },
        ParamType::Uint(_) => match value {
            JsonValue::Number(JsonNumber::PosInt(n)) => Ok(Token::Uint(U256::from_u64(*n))),
            JsonValue::String(s) => match parse_uint256(s.as_str()) {
                Ok(n) => Ok(Token::Uint(n)),
                Err(m) => Err(GasBenchError::InvalidUint(m)),
            },
            _ => Err(GasBenchError::ExpectedUintValue),
        },
        ParamType::Int(_) => match value {
            JsonValue::Number(JsonNumber::PosInt(n)) => {
                if *n <= 0x7fff_ffff_ffff_ffffu64 {
                    Ok(Token::Int(U256::from_i64(*n as i64)))
                } else {
                    Err(GasBenchError::ExpectedIntValue)
                }
            },
            JsonValue::Number(JsonNumber::NegInt(n)) => Ok(Token::Int(U256::from_i64(*n))),
            JsonValue::String(s) => match parse_int256(s.as_str()) {
                Ok(n) => Ok(Token::Int(n)),
                Err(m) => Err(GasBenchError::InvalidInt(m)),
            },
            _ => Err(GasBenchError::ExpectedIntValue),
        },
        ParamType::Bool => match value {
            JsonValue::Bool(b) => Ok(Token::Bool(*b)),
            _ => Err(GasBenchError::ExpectedBool),
        },
        ParamType::String => match value {
            JsonValue::String(s) => Ok(Token::String(s.clone())),
            _ => Err(GasBenchError::ExpectedString),
        },
        ParamType::Bytes => match value {
            JsonValue::String(s) => match decode_hex(strip_hex_prefix(s.as_str())) {
                Ok(bytes) => Ok(Token::Bytes(bytes)),
                Err(m) => Err(GasBenchError::InvalidHex(m)),
            },
            _ => Err(GasBenchError::ExpectedHexBytes),
        },
        ParamType::FixedBytes(size) => match value {
            JsonValue::String(s) => match decode_hex(strip_hex_prefix(s.as_str())) {
                Ok(bytes) => Ok(Token::FixedBytes(fixed_bytes(&bytes, *size))),
                Err(m) => Err(GasBenchError::InvalidHex(m)),
            },
            _ => Err(GasBenchError::ExpectedHexFixedBytes),
        },
    }
}

} // verus!
