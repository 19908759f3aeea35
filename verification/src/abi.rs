use vstd::prelude::*;

use crate::error::{ErrorKind, GasBenchError};
use vstd::utf8::encode_utf8;
use crate::text::{ends_with_char, has_prefix, same_text, two_pow_256};

verus! {

/// Solidity parameter types that the tool can encode.
#[derive(Clone, Copy, Debug, PartialEq, Eq)]
pub enum ParamType {
    Address,
    Bytes,
    Int(usize),
    Uint(usize),
    Bool,
    String,
    FixedBytes(usize),
}

/// A 256-bit unsigned number, as four 64-bit limbs, least significant first.
#[derive(Clone, Copy, Debug, PartialEq, Eq)]
pub struct U256 {
    pub limbs: [u64; 4],
}

impl U256 {
    /// The number the limbs spell.
    pub open spec fn value(&self) -> nat {
        (self.limbs[0] + self.limbs[1] * 0x1_0000_0000_0000_0000nat + self.limbs[2]
            * 0x1_0000_0000_0000_0000_0000_0000_0000_0000nat + self.limbs[3]
            * 0x1_0000_0000_0000_0000_0000_0000_0000_0000_0000_0000_0000_0000nat) as nat
    }

    /// The 256-bit number `n`.
    pub fn from_u64(n: u64) -> (w: U256)
        ensures
            w.value() == n,
    {
        U256 { limbs: [n, 0, 0, 0] }
    }

    /// The two's complement 256-bit pattern of `n`.
    pub fn from_i64(n: i64) -> (w: U256)
        ensures
            w.value() == (if n >= 0 {
                n as int
            } else {
                two_pow_256() + n
            }),
    {
        if n >= 0 {
            U256 { limbs: [n as u64, 0, 0, 0] }
        } else {
            let low = n as u64;
            assert(low == n + 0x1_0000_0000_0000_0000) by (bit_vector)
                requires
                    n < 0,
                    low == n as u64,
            ;
            U256 { limbs: [low, 0xffff_ffff_ffff_ffff, 0xffff_ffff_ffff_ffff, 0xffff_ffff_ffff_ffff] }
        }
    }
}

/// An ABI value, ready to be encoded.
#[derive(Clone, Debug, PartialEq, Eq)]
pub enum Token {
    Address([u8; 20]),
    FixedBytes(Vec<u8>),
    Bytes(Vec<u8>),
    Int(U256),
    Uint(U256),
    Bool(bool),
    String(String),
}

/// What a token holds: bytes, numbers (a signed number as its two's complement
/// pattern), truth values and text.
pub enum TokenValue {
    Address(Seq<u8>),
    FixedBytes(Seq<u8>),
    Bytes(Seq<u8>),
    Int(nat),
    Uint(nat),
    Bool(bool),
    String(Seq<char>),
}

impl View for Token {
    type V = TokenValue;

    open spec fn view(&self) -> TokenValue {
        match self {
            Token::Address(a) => TokenValue::Address(a@),
            Token::FixedBytes(b) => TokenValue::FixedBytes(b@),
            Token::Bytes(b) => TokenValue::Bytes(b@),
            Token::Int(n) => TokenValue::Int(n.value()),
            Token::Uint(n) => TokenValue::Uint(n.value()),
            Token::Bool(b) => TokenValue::Bool(*b),
            Token::String(s) => TokenValue::String(s@),
        }
    }
}

/// The values of a sequence of tokens.
pub open spec fn token_values(tokens: Seq<Token>) -> Seq<TokenValue> {
    tokens.map_values(|t: Token| t@)
}

/// `token` may stand for a parameter of type `kind`; a fixed-size bytes token may
/// be shorter than the size, not longer.
pub open spec fn token_fits(token: TokenValue, kind: ParamType) -> bool {
    match token {
        TokenValue::Address(_) => kind == ParamType::Address,
        TokenValue::Bytes(_) => kind == ParamType::Bytes,
        TokenValue::Int(_) => kind is Int,
        TokenValue::Uint(_) => kind is Uint,
        TokenValue::Bool(_) => kind == ParamType::Bool,
        TokenValue::String(_) => kind == ParamType::String,
        TokenValue::FixedBytes(b) => match kind {
            ParamType::FixedBytes(size) => b.len() <= size,
            _ => false,
        },
    }
}

/// The tokens are as many as the parameter types, and each fits its type.
pub open spec fn tokens_fit(tokens: Seq<TokenValue>, kinds: Seq<ParamType>) -> bool {
    &&& tokens.len() == kinds.len()
    &&& forall|i: int| 0 <= i < tokens.len() ==> token_fits(#[trigger] tokens[i], kinds[i])
}

/// A bound on the bytes that encoding `token` takes: its payload (text counted
/// by its UTF-8 bytes) plus room for length, offset and padding.
pub open spec fn token_size_bound(token: TokenValue) -> int {
    match token {
        TokenValue::Bytes(b) => b.len() as int + 96,
        TokenValue::FixedBytes(b) => b.len() as int + 96,
        TokenValue::String(s) => encode_utf8(s).len() as int + 96,
        _ => 96,
    }
}

/// A bound on the bytes that encoding `tokens` takes.
pub open spec fn encoding_size_bound(tokens: Seq<TokenValue>) -> int
    decreases tokens.len(),
{
    if tokens.len() == 0 {
        0
    } else {
        encoding_size_bound(tokens.drop_last()) + token_size_bound(tokens.last())
    }
}

/// The parameter type that the Solidity type name `ty` denotes, if the tool knows it.
pub open spec fn param_type_named(ty: Seq<char>) -> Option<ParamType> {
    if ty == "address"@ {
        Some(ParamType::Address)
    } else if ty == "bool"@ {
        Some(ParamType::Bool)
    } else if ty == "string"@ {
        Some(ParamType::String)
    } else if ty == "bytes"@ {
        Some(ParamType::Bytes)
    } else if ty == "uint256"@ || ty == "uint"@ {
        Some(ParamType::Uint(256))
    } else if ty == "int256"@ || ty == "int"@ {
        Some(ParamType::Int(256))
    } else if ty == "uint128"@ {
        Some(ParamType::Uint(128))
    } else if ty == "uint64"@ {
        Some(ParamType::Uint(64))
    } else if ty == "uint32"@ {
        Some(ParamType::Uint(32))
    } else if ty == "uint8"@ {
        Some(ParamType::Uint(8))
    } else if ty == "int128"@ {
        Some(ParamType::Int(128))
    } else if ty == "int64"@ {
        Some(ParamType::Int(64))
    } else if ty == "int32"@ {
        Some(ParamType::Int(32))
    } else if ty == "int8"@ {
        Some(ParamType::Int(8))
    } else if ty == "bytes32"@ {
        Some(ParamType::FixedBytes(32))
    } else if ty == "bytes1"@ {
        Some(ParamType::FixedBytes(1))
    } else if "uint"@.is_prefix_of(ty) && ty.len() > 0 && ty.last() == ']' {
        Some(ParamType::Uint(256))
    } else {
        None
    }
}

/// Parses a Solidity type name into a parameter type.
///
/// A name that begins with `uint` and ends with `]` (an array of unsigned
/// integers) is taken as `uint256`.
pub fn parse_param_type(ty: &str) -> (parsed: Result<ParamType, GasBenchError>)
    ensures
        match parsed {
            Ok(kind) => param_type_named(ty@) == Some(kind),
            Err(e) => param_type_named(ty@) is None && e@ == ErrorKind::UnsupportedParamType(ty@),
        },
{
    if same_text(ty, "address") {
        Ok(ParamType::Address)
    } else if same_text(ty, "bool") {
        Ok(ParamType::Bool)
    } else if same_text(ty, "string") {
        Ok(ParamType::String)
    } else if same_text(ty, "bytes") {
        Ok(ParamType::Bytes)
    } else if same_text(ty, "uint256") || same_text(ty, "uint") {
        Ok(ParamType::Uint(256))
    } else if same_text(ty, "int256") || same_text(ty, "int") {
        Ok(ParamType::Int(256))
    } else if same_text(ty, "uint128") {
        Ok(ParamType::Uint(128))
    } else if same_text(ty, "uint64") {
        Ok(ParamType::Uint(64))
    } else if same_text(ty, "uint32") {
        Ok(ParamType::Uint(32))
    } else if same_text(ty, "uint8") {
        Ok(ParamType::Uint(8))
    } else if same_text(ty, "int128") {
        Ok(ParamType::Int(128))
    } else if same_text(ty, "int64") {
        Ok(ParamType::Int(64))
    } else if same_text(ty, "int32") {
        Ok(ParamType::Int(32))
    } else if same_text(ty, "int8") {
        Ok(ParamType::Int(8))
    } else if same_text(ty, "bytes32") {
        Ok(ParamType::FixedBytes(32))
    } else if same_text(ty, "bytes1") {
        Ok(ParamType::FixedBytes(1))
    } else if has_prefix(ty, "uint") && ends_with_char(ty, ']') {
        Ok(ParamType::Uint(256))
    } else {
        Err(GasBenchError::UnsupportedParamType(String::from_str(ty)))
    }
}

} // verus!
