use vstd::prelude::*;

use crate::abi::{
    encoding_size_bound, param_type_named, parse_param_type, token_fits, token_size_bound,
    token_values, tokens_fit, ParamType, Token, TokenValue,
};
use crate::bindings::{abi_encoding, abi_selector, encode_tokens, function_selector};
use crate::config::{FunctionEntry, FunctionParam};
use crate::error::{ErrorKind, GasBenchError};
use crate::json::JsonValue;
use vstd::string::StringSliceAdditionalSpecFns;
use vstd::utf8::encode_utf8;
use crate::text::{hex_pairs, without_hex_prefix};
use crate::token::{json_to_token, token_for};

verus! {

/// The parameter types of `inputs`, or the error of the first type name that
/// does not parse.
pub open spec fn param_kinds(inputs: Seq<FunctionParam>) -> Result<Seq<ParamType>, ErrorKind>
    decreases inputs.len(),
{
    if inputs.len() == 0 {
        Ok(Seq::empty())
    } else {
        match param_kinds(inputs.drop_last()) {
            Err(e) => Err(e),
            Ok(kinds) => match param_type_named(inputs.last().param_type@) {
                Some(k) => Ok(kinds.push(k)),
                None => Err(ErrorKind::UnsupportedParamType(inputs.last().param_type@)),
            },
        }
    }
}

/// The tokens of the values of `inputs` for the types `kinds`, or the error of the
/// first value that does not convert.
pub open spec fn param_tokens(inputs: Seq<FunctionParam>, kinds: Seq<ParamType>) -> Result<
    Seq<TokenValue>,
    ErrorKind,
>
    decreases inputs.len(),
{
    if inputs.len() == 0 {
        Ok(Seq::empty())
    } else {
        match param_tokens(inputs.drop_last(), kinds.drop_last()) {
            Err(e) => Err(e),
            Ok(tokens) => match token_for(inputs.last().value, kinds.last()) {
                Ok(t) => Ok(tokens.push(t)),
                Err(e) => Err(e),
            },
        }
    }
}

/// The call data for `entry`: the selector of its name and parameter types, then
/// the encoding of its sample values; or what goes wrong first.
pub open spec fn call_data(entry: FunctionEntry) -> Result<Seq<u8>, ErrorKind> {
    match param_kinds(entry.inputs@) {
        Err(e) => Err(e),
        Ok(kinds) => match param_tokens(entry.inputs@, kinds) {
            Err(e) => Err(e),
            Ok(tokens) => if tokens_fit(tokens, kinds) {
                Ok(abi_selector(entry.name@, kinds) + abi_encoding(tokens))
            } else {
                Err(ErrorKind::InvalidCallData)
            },
        },
    }
}

/// A bound on the encoded size of a sample value: the UTF-8 bytes of its text,
/// plus room for the fixed part of any token.
pub open spec fn value_size_bound(value: JsonValue) -> int {
    match value {
        JsonValue::String(s) => encode_utf8(s@).len() as int + 128,
        _ => 128,
    }
}

/// A bound on the encoded size of the sample values of `inputs`.
pub open spec fn call_size_bound(inputs: Seq<FunctionParam>) -> int
    decreases inputs.len(),
{
    if inputs.len() == 0 {
        0
    } else {
        call_size_bound(inputs.drop_last()) + value_size_bound(inputs.last().value)
    }
}

/// The encoder's 32-bit length arithmetic stays in range for calls below this bound.
pub open spec fn encoder_limit() -> int {
    0x1_0000_0000
}

/// Once a prefix of the type names fails to parse, so does the whole list, with
/// the same error.
proof fn lemma_kinds_error_persists(inputs: Seq<FunctionParam>, i: int)
    requires
        0 <= i <= inputs.len(),
        param_kinds(inputs.take(i)) is Err,
    ensures
        param_kinds(inputs) == param_kinds(inputs.take(i)),
    decreases inputs.len() - i,
{
    if i < inputs.len() {
        assert(inputs.take(i + 1).drop_last() =~= inputs.take(i));
        lemma_kinds_error_persists(inputs, i + 1);
    } else {
        assert(inputs.take(i) =~= inputs);
    }
}

/// Once a prefix of the values fails to convert, so do all of them, with the same
/// error.
proof fn lemma_tokens_error_persists(inputs: Seq<FunctionParam>, kinds: Seq<ParamType>, i: int)
    requires
        0 <= i <= inputs.len(),
        inputs.len() == kinds.len(),
        param_tokens(inputs.take(i), kinds.take(i)) is Err,
    ensures
        param_tokens(inputs, kinds) == param_tokens(inputs.take(i), kinds.take(i)),
    decreases inputs.len() - i,
{
    if i < inputs.len() {
        assert(inputs.take(i + 1).drop_last() =~= inputs.take(i));
        assert(kinds.take(i + 1).drop_last() =~= kinds.take(i));
        lemma_tokens_error_persists(inputs, kinds, i + 1);
    } else {
        assert(inputs.take(i) =~= inputs);
        assert(kinds.take(i) =~= kinds);
    }
}

/// Parsed types are as many as the parameters.
proof fn lemma_kinds_len(inputs: Seq<FunctionParam>)
    requires
        param_kinds(inputs) is Ok,
    ensures
        param_kinds(inputs)->Ok_0.len() == inputs.len(),
    decreases inputs.len(),
{
    if inputs.len() > 0 {
        lemma_kinds_len(inputs.drop_last());
    }
}

/// The encoded size of a converted value stays within the bound of the value.
proof fn lemma_token_size(value: JsonValue, kind: ParamType)
    requires
        token_for(value, kind) is Ok,
    ensures
        token_size_bound(token_for(value, kind)->Ok_0) <= value_size_bound(value),
{
    match value {
        JsonValue::String(s) => {
            let t = without_hex_prefix(s@);
            assert(t.len() <= s@.len());
            assert(hex_pairs(t).len() <= t.len());
            lemma_utf8_at_least_chars(s@);
        },
        _ => {},
    }
}

/// Text takes at least one UTF-8 byte per character.
proof fn lemma_utf8_at_least_chars(s: Seq<char>)
    ensures
        encode_utf8(s).len() >= s.len(),
    decreases s.len(),
{
    if s.len() > 0 {
        lemma_utf8_at_least_chars(s.drop_first());
    }
}

/// The encoded size of converted values stays within the bound of the values.
proof fn lemma_tokens_size(inputs: Seq<FunctionParam>, kinds: Seq<ParamType>)
    requires
        param_tokens(inputs, kinds) is Ok,
    ensures
        param_tokens(inputs, kinds)->Ok_0.len() == inputs.len(),
        encoding_size_bound(param_tokens(inputs, kinds)->Ok_0) <= call_size_bound(inputs),
    decreases inputs.len(),
{
    if inputs.len() > 0 {
        lemma_tokens_size(inputs.drop_last(), kinds.drop_last());
        lemma_token_size(inputs.last().value, kinds.last());
        let tokens = param_tokens(inputs, kinds)->Ok_0;
        assert(tokens.drop_last() =~= param_tokens(inputs.drop_last(), kinds.drop_last())->Ok_0);
    }
}

/// Whether a token may stand for a parameter of the given type.
fn token_fits_type(token: &Token, kind: &ParamType) -> (fits: bool)
    ensures
        fits == token_fits(token@, *kind),
{
    match token {
        Token::Address(_) => matches!(kind, ParamType::Address),
        Token::Bytes(_) => matches!(kind, ParamType::Bytes),
        Token::Int(_) => matches!(kind, ParamType::Int(_)),
        Token::Uint(_) => matches!(kind, ParamType::Uint(_)),
        Token::Bool(_) => matches!(kind, ParamType::Bool),
        Token::String(_) => matches!(kind, ParamType::String),
        Token::FixedBytes(b) => match kind {
            ParamType::FixedBytes(size) => b.len() <= *size,
            _ => false,
        },
    }
}

/// Whether the tokens are as many as the types and each fits its type.
fn tokens_fit_types(tokens: &Vec<Token>, kinds: &Vec<ParamType>) -> (fit: bool)
    ensures
        fit == tokens_fit(token_values(tokens@), kinds@),
{
    if tokens.len() != kinds.len() {
        return false;
    }
    let mut i: usize = 0;
    while i < tokens.len()
        invariant
            tokens.len() == kinds.len(),
            i <= tokens.len(),
            forall|k: int| 0 <= k < i ==> token_fits(#[trigger] token_values(tokens@)[k], kinds@[k]),
        decreases tokens.len() - i,
    {
        if !token_fits_type(&tokens[i], &kinds[i]) {
            assert(!token_fits(token_values(tokens@)[i as int], kinds@[i as int]));
            return false;
        }
        i += 1;
    }
    true
}

/// Whether the sample values of `entry` are small enough for the encoder.
pub fn within_encoder_limit(entry: &FunctionEntry) -> (fits: bool)
    ensures
        fits == (call_size_bound(entry.inputs@) < encoder_limit()),
{
    let inputs = &entry.inputs;
    let mut total: u64 = 0;
    let mut i: usize = 0;
    while i < inputs.len()
        invariant
            i <= inputs.len(),
            inputs == &entry.inputs,
            total == call_size_bound(inputs@.take(i as int)),
            total < encoder_limit(),
        decreases inputs.len() - i,
    {
        let add: u64 = match &inputs[i].value {
            JsonValue::String(s) => {
                let text = s.as_str();
                let n = text.as_bytes().len() as u64;
                assert(text.spec_bytes() == encode_utf8(s@));
                if n >= 0xffff_ff80u64 {
                    proof {
                        assert(inputs@.take(i + 1).drop_last() =~= inputs@.take(i as int));
                        lemma_size_bound_grows(inputs@, i as int + 1);
                    }
                    return false;
                }
                n + 128
            },
            _ => 128,
        };
        proof {
            assert(inputs@.take(i + 1).drop_last() =~= inputs@.take(i as int));
        }
        if total + add >= 0x1_0000_0000 {
            proof {
                lemma_size_bound_grows(inputs@, i as int + 1);
            }
            return false;
        }
        total = total + add;
        i += 1;
    }
    proof {
        assert(inputs@.take(inputs.len() as int) =~= inputs@);
    }
    true
}

/// The size bound only grows as parameters are added.
proof fn lemma_size_bound_grows(inputs: Seq<FunctionParam>, i: int)
    requires
        0 <= i <= inputs.len(),
    ensures
        call_size_bound(inputs.take(i)) <= call_size_bound(inputs),
    decreases inputs.len() - i,
{
    if i < inputs.len() {
        assert(inputs.take(i + 1).drop_last() =~= inputs.take(i));
        lemma_size_bound_grows(inputs, i + 1);
    } else {
        assert(inputs.take(i) =~= inputs);
    }
}

/// The parameter types that the type names of `inputs` denote, one per parameter.
pub open spec fn named_types(inputs: Seq<FunctionParam>) -> Seq<ParamType> {
    Seq::new(inputs.len(), |i: int| param_type_named(inputs[i].param_type@)->Some_0)
}

/// The types a call is built with are exactly those its type names denote, one
/// per parameter and in order; they are found exactly when every name denotes a
/// type.
pub proof fn lemma_kinds_are_named_types(inputs: Seq<FunctionParam>)
    ensures
        param_kinds(inputs) is Ok <==> forall|i: int|
            0 <= i < inputs.len() ==> (#[trigger] param_type_named(inputs[i].param_type@)) is Some,
        param_kinds(inputs) is Ok ==> param_kinds(inputs)->Ok_0 == named_types(inputs),
        param_kinds(inputs) is Ok ==> forall|i: int|
            0 <= i < inputs.len() ==> Some(#[trigger] param_kinds(inputs)->Ok_0[i])
                == param_type_named(inputs[i].param_type@),
    decreases inputs.len(),
{
    if inputs.len() > 0 {
        let rest = inputs.drop_last();
        lemma_kinds_are_named_types(rest);
        assert forall|i: int| 0 <= i < rest.len() implies rest[i] == inputs[i] by {}
        if param_kinds(inputs) is Ok {
            assert(param_kinds(inputs)->Ok_0 =~= named_types(inputs));
        }
        if forall|i: int|
            0 <= i < inputs.len() ==> (#[trigger] param_type_named(inputs[i].param_type@)) is Some {
            assert forall|i: int| 0 <= i < rest.len() implies (#[trigger] param_type_named(
                rest[i].param_type@,
            )) is Some by {
                assert(rest[i] == inputs[i]);
            }
            assert(param_type_named(inputs[inputs.len() - 1].param_type@) is Some);
        }
    } else {
        assert(named_types(inputs) =~= Seq::<ParamType>::empty());
    }
}

/// The tokens a call is built with are those of the parameters' values for their
/// types, one per parameter and in order.
pub proof fn lemma_tokens_are_converted_values(inputs: Seq<FunctionParam>, kinds: Seq<ParamType>)
    requires
        inputs.len() == kinds.len(),
        param_tokens(inputs, kinds) is Ok,
    ensures
        param_tokens(inputs, kinds)->Ok_0.len() == inputs.len(),
        forall|i: int|
            0 <= i < inputs.len() ==> token_for(inputs[i].value, kinds[i]) == Ok::<
                TokenValue,
                ErrorKind,
            >(#[trigger] param_tokens(inputs, kinds)->Ok_0[i]),
    decreases inputs.len(),
{
    if inputs.len() > 0 {
        lemma_tokens_are_converted_values(inputs.drop_last(), kinds.drop_last());
        let all = param_tokens(inputs, kinds)->Ok_0;
        let rest = param_tokens(inputs.drop_last(), kinds.drop_last())->Ok_0;
        assert forall|i: int| 0 <= i < inputs.len() implies token_for(inputs[i].value, kinds[i])
            == Ok::<TokenValue, ErrorKind>(#[trigger] all[i]) by {
            if i < inputs.len() - 1 {
                assert(all[i] == rest[i]);
                assert(inputs.drop_last()[i] == inputs[i]);
                assert(kinds.drop_last()[i] == kinds[i]);
            }
        }
    }
}

/// Call data, when it can be built, is the selector of the function's name and
/// the types its parameters' type names denote, followed by the encoding of the
/// tokens of the parameters' values for those types.
pub proof fn lemma_call_data_parts(entry: FunctionEntry)
    requires
        call_data(entry) is Ok,
    ensures
        param_kinds(entry.inputs@) == Ok::<Seq<ParamType>, ErrorKind>(named_types(entry.inputs@)),
        param_tokens(entry.inputs@, named_types(entry.inputs@)) is Ok,
        call_data(entry)->Ok_0 == abi_selector(entry.name@, named_types(entry.inputs@))
            + abi_encoding(param_tokens(entry.inputs@, named_types(entry.inputs@))->Ok_0),
        forall|i: int|
            0 <= i < entry.inputs@.len() ==> token_for(
                entry.inputs@[i].value,
                named_types(entry.inputs@)[i],
            ) == Ok::<TokenValue, ErrorKind>(
                #[trigger] param_tokens(entry.inputs@, named_types(entry.inputs@))->Ok_0[i],
            ),
{
    lemma_kinds_are_named_types(entry.inputs@);
    lemma_kinds_len(entry.inputs@);
    lemma_tokens_are_converted_values(entry.inputs@, named_types(entry.inputs@));
}

/// Builds the call data for a function entry: parses its parameter types,
/// converts its sample values, checks that the values fit the types and encodes
/// the call (selector, then arguments).
pub fn encode_call(entry: &FunctionEntry) -> (data: Result<Vec<u8>, GasBenchError>)
    requires
        call_size_bound(entry.inputs@) < encoder_limit(),
    ensures
        match data {
            Ok(d) => call_data(*entry) == Ok::<Seq<u8>, ErrorKind>(d@),
            Err(e) => call_data(*entry) == Err::<Seq<u8>, ErrorKind>(e@),
        },
        data matches Ok(d) ==> d@.len() >= 4 && d@.subrange(0, 4) == abi_selector(
            entry.name@,
            named_types(entry.inputs@),
        ),
{
    let inputs = &entry.inputs;
    let mut kinds: Vec<ParamType> = Vec::new();
    let mut i: usize = 0;
    while i < inputs.len()
        invariant
            i <= inputs.len(),
            inputs == &entry.inputs,
            param_kinds(inputs@.take(i as int)) == Ok::<Seq<ParamType>, ErrorKind>(kinds@),
        decreases inputs.len() - i,
    {
        proof {
            assert(inputs@.take(i + 1).drop_last() =~= inputs@.take(i as int));
        }
        match parse_param_type(inputs[i].param_type.as_str()) {
            Ok(k) => kinds.push(k),
            Err(e) => {
                proof {
                    lemma_kinds_error_persists(inputs@, i + 1);
                }
                return Err(e);
            },
        }
        i += 1;
    }
    proof {
        assert(inputs@.take(inputs.len() as int) =~= inputs@);
        lemma_kinds_len(inputs@);
    }
    let mut tokens: Vec<Token> = Vec::new();
    proof {
        assert(token_values(tokens@) =~= Seq::<TokenValue>::empty());
        assert(inputs@.take(0) =~= Seq::<FunctionParam>::empty());
    }
    let mut i: usize = 0;
    while i < inputs.len()
        invariant
            i <= inputs.len(),
            inputs == &entry.inputs,
            kinds@.len() == inputs.len(),
            param_kinds(inputs@) == Ok::<Seq<ParamType>, ErrorKind>(kinds@),
            param_tokens(inputs@.take(i as int), kinds@.take(i as int)) == Ok::<
                Seq<TokenValue>,
                ErrorKind,
            >(token_values(tokens@)),
        decreases inputs.len() - i,
    {
        proof {
            assert(inputs@.take(i + 1).drop_last() =~= inputs@.take(i as int));
            assert(kinds@.take(i + 1).drop_last() =~= kinds@.take(i as int));
            assert(kinds@.take(i + 1).last() == kinds@[i as int]);
        }
        match json_to_token(&inputs[i].value, &kinds[i]) {
            Ok(t) => {
                let ghost before = tokens@;
                tokens.push(t);
                assert(token_values(tokens@) =~= token_values(before).push(tokens@.last()@));
            },
            Err(e) => {
                proof {
                    lemma_tokens_error_persists(inputs@, kinds@, i + 1);
                }
                return Err(e);
            },
        }
        i += 1;
    }
    proof {
        assert(inputs@.take(inputs.len() as int) =~= inputs@);
        assert(kinds@.take(inputs.len() as int) =~= kinds@);
    }
    if !tokens_fit_types(&tokens, &kinds) {
        return Err(GasBenchError::InvalidCallData);
    }
    proof {
        lemma_tokens_size(inputs@, kinds@);
    }
    let selector = function_selector(entry.name.as_str(), kinds.as_slice());
    let mut encoded = encode_tokens(tokens.as_slice());
    let mut data: Vec<u8> = Vec::new();
    data.push(selector[0]);
    data.push(selector[1]);
    data.push(selector[2]);
    data.push(selector[3]);
    data.append(&mut encoded);
    proof {
        assert(selector@.len() == 4);
        assert(data@ =~= selector@ + abi_encoding(token_values(tokens@)));
        lemma_kinds_are_named_types(inputs@);
        assert(data@.subrange(0, 4) =~= selector@);
    }
    Ok(data)
}

} // verus!
