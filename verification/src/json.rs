use vstd::prelude::*;

verus! {

/// A JSON number, as the JSON reader classifies it.
#[derive(Clone, Copy, Debug, PartialEq, Eq)]
pub enum JsonNumber {
    /// A non-negative integer.
    PosInt(u64),
    /// A negative integer.
    NegInt(i64),
    /// Any other number.
    Float,
}

/// The sample value of a parameter, as read from the functions file.
///
/// Arrays and objects are kept only as such: no parameter conversion reads
/// their contents.
#[derive(Clone, Debug, PartialEq, Eq)]
pub enum JsonValue {
    Null,
    Bool(bool),
    Number(JsonNumber),
    String(String),
    Array,
    Object,
}

} // verus!
