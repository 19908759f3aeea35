use vstd::prelude::*;

verus! {

/// Why a benchmark could not be configured or a call could not be built.
///
/// Variants that carry a `String` hold either the offending input
/// (`UnsupportedParamType`) or the message of the component that refused it.
#[derive(Clone, Debug, PartialEq, Eq)]
pub enum GasBenchError {
    /// The contract address is not a 20-byte hex address.
    InvalidContractAddress(String),
    /// A parameter type name that the tool does not know.
    UnsupportedParamType(String),
    /// An address parameter whose value is not a string.
    ExpectedAddressString,
    /// An address parameter whose string is not an address.
    InvalidAddress(String),
    /// An unsigned parameter whose value is neither a non-negative integer nor a string.
    ExpectedUintValue,
    /// An unsigned parameter whose string is not a decimal number that fits 256 bits.
    InvalidUint(String),
    /// A signed parameter whose value is neither a 64-bit integer nor a string.
    ExpectedIntValue,
    /// A signed parameter whose string is not a decimal number that fits 256 bits signed.
    InvalidInt(String),
    /// A bool parameter whose value is not a bool.
    ExpectedBool,
    /// A string parameter whose value is not a string.
    ExpectedString,
    /// A bytes parameter whose value is not a string.
    ExpectedHexBytes,
    /// A fixed-size bytes parameter whose value is not a string.
    ExpectedHexFixedBytes,
    /// A bytes parameter whose string is not hex.
    InvalidHex(String),
    /// Tokens that do not fit the declared parameter types.
    InvalidCallData,
}

/// What a `GasBenchError` says: its variant and the text it carries.
pub enum ErrorKind {
    InvalidContractAddress(Seq<char>),
    UnsupportedParamType(Seq<char>),
    ExpectedAddressString,
    InvalidAddress(Seq<char>),
    ExpectedUintValue,
    InvalidUint(Seq<char>),
    ExpectedIntValue,
    InvalidInt(Seq<char>),
    ExpectedBool,
    ExpectedString,
    ExpectedHexBytes,
    ExpectedHexFixedBytes,
    InvalidHex(Seq<char>),
    InvalidCallData,
}

impl View for GasBenchError {
    type V = ErrorKind;

    open spec fn view(&self) -> ErrorKind {
        match self {
            GasBenchError::InvalidContractAddress(m) => ErrorKind::InvalidContractAddress(m@),
            GasBenchError::UnsupportedParamType(t) => ErrorKind::UnsupportedParamType(t@),
            GasBenchError::ExpectedAddressString => ErrorKind::ExpectedAddressString,
            GasBenchError::InvalidAddress(m) => ErrorKind::InvalidAddress(m@),
            GasBenchError::ExpectedUintValue => ErrorKind::ExpectedUintValue,
            GasBenchError::InvalidUint(m) => ErrorKind::InvalidUint(m@),
            GasBenchError::ExpectedIntValue => ErrorKind::ExpectedIntValue,
            GasBenchError::InvalidInt(m) => ErrorKind::InvalidInt(m@),
            GasBenchError::ExpectedBool => ErrorKind::ExpectedBool,
            GasBenchError::ExpectedString => ErrorKind::ExpectedString,
            GasBenchError::ExpectedHexBytes => ErrorKind::ExpectedHexBytes,
            GasBenchError::ExpectedHexFixedBytes => ErrorKind::ExpectedHexFixedBytes,
            GasBenchError::InvalidHex(m) => ErrorKind::InvalidHex(m@),
            GasBenchError::InvalidCallData => ErrorKind::InvalidCallData,
        }
    }
}

/// Prefix of the message for an unknown parameter type.
pub const UNSUPPORTED_PARAM_TYPE: &'static str = "Unsupported param type: ";

/// Message for a contract address that does not parse.
pub const INVALID_CONTRACT_ADDRESS: &'static str = "Invalid contract address";

/// Message for an address parameter that is not a string.
pub const EXPECTED_ADDRESS_STRING: &'static str = "Expected string for address";

/// Message for an unsigned parameter of the wrong kind.
pub const EXPECTED_UINT_VALUE: &'static str = "Expected number or string for uint";

/// Message for a signed parameter of the wrong kind.
pub const EXPECTED_INT_VALUE: &'static str = "Expected number or string for int";

/// Message for a bool parameter of the wrong kind.
pub const EXPECTED_BOOL: &'static str = "Expected bool";

/// Message for a string parameter of the wrong kind.
pub const EXPECTED_STRING: &'static str = "Expected string";

/// Message for a bytes parameter of the wrong kind.
pub const EXPECTED_HEX_BYTES: &'static str = "Expected hex string for bytes";

/// Message for a fixed-size bytes parameter of the wrong kind.
pub const EXPECTED_HEX_FIXED_BYTES: &'static str = "Expected hex string for bytesN";

/// Message for tokens that do not fit their parameter types.
pub const INVALID_CALL_DATA: &'static str = "Invalid data";

impl GasBenchError {
    /// The text of the error message.
    pub open spec fn message_text(&self) -> Seq<char> {
        match self {
            GasBenchError::InvalidContractAddress(_) => INVALID_CONTRACT_ADDRESS@,
            GasBenchError::UnsupportedParamType(t) => UNSUPPORTED_PARAM_TYPE@ + t@,
            GasBenchError::ExpectedAddressString => EXPECTED_ADDRESS_STRING@,
            GasBenchError::InvalidAddress(m) => m@,
            GasBenchError::ExpectedUintValue => EXPECTED_UINT_VALUE@,
            GasBenchError::InvalidUint(m) => m@,
            GasBenchError::ExpectedIntValue => EXPECTED_INT_VALUE@,
            GasBenchError::InvalidInt(m) => m@,
            GasBenchError::ExpectedBool => EXPECTED_BOOL@,
            GasBenchError::ExpectedString => EXPECTED_STRING@,
            GasBenchError::ExpectedHexBytes => EXPECTED_HEX_BYTES@,
            GasBenchError::ExpectedHexFixedBytes => EXPECTED_HEX_FIXED_BYTES@,
            GasBenchError::InvalidHex(m) => m@,
            GasBenchError::InvalidCallData => INVALID_CALL_DATA@,
        }
    }

    /// The error message, as the benchmark report records it for a failed run.
    pub fn message(&self) -> (m: String)
        ensures
            m@ == self.message_text(),
    {
        match self {
            GasBenchError::InvalidContractAddress(_) => String::from_str(INVALID_CONTRACT_ADDRESS),
            GasBenchError::UnsupportedParamType(t) => {
                let mut m = String::from_str(UNSUPPORTED_PARAM_TYPE);
                m.append(t.as_str());
                m
            },
            GasBenchError::ExpectedAddressString => String::from_str(EXPECTED_ADDRESS_STRING),
            GasBenchError::InvalidAddress(m) => m.clone(),
            GasBenchError::ExpectedUintValue => String::from_str(EXPECTED_UINT_VALUE),
            GasBenchError::InvalidUint(m) => m.clone(),
            GasBenchError::ExpectedIntValue => String::from_str(EXPECTED_INT_VALUE),
            GasBenchError::InvalidInt(m) => m.clone(),
            GasBenchError::ExpectedBool => String::from_str(EXPECTED_BOOL),
            GasBenchError::ExpectedString => String::from_str(EXPECTED_STRING),
            GasBenchError::ExpectedHexBytes => String::from_str(EXPECTED_HEX_BYTES),
            GasBenchError::ExpectedHexFixedBytes => String::from_str(EXPECTED_HEX_FIXED_BYTES),
            GasBenchError::InvalidHex(m) => m.clone(),
            GasBenchError::InvalidCallData => String::from_str(INVALID_CALL_DATA),
        }
    }
}

} // verus!
