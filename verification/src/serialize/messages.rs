//! The texts of serde's standard deserialization errors, made by serde itself.

use vstd::prelude::*;
use crate::error::spec_decimal;

verus! {

/// What a value turned out to be, in the words serde uses in its errors.
#[derive(Debug, Clone, Copy)]
pub enum Unexpected {
    /// A kind named by its own text (a Lua type name).
    Other(&'static str),
    /// A map.
    Mapping,
    /// A unit variant.
    UnitVariant,
    /// A newtype variant.
    NewtypeVariant,
}

/// The words serde writes for an [`Unexpected`].
pub open spec fn spec_unexpected_text(u: Unexpected) -> Seq<char> {
    match u {
        Unexpected::Other(s) => s@,
        Unexpected::Mapping => "map"@,
        Unexpected::UnitVariant => "unit variant"@,
        Unexpected::NewtypeVariant => "newtype variant"@,
    }
}

/// The text of serde's "invalid type" error.
pub open spec fn spec_invalid_type_text(unexp: Unexpected, exp: Seq<char>) -> Seq<char> {
    "invalid type: "@ + spec_unexpected_text(unexp) + ", expected "@ + exp
}

/// The text of serde's "invalid value" error.
pub open spec fn spec_invalid_value_text(unexp: Unexpected, exp: Seq<char>) -> Seq<char> {
    "invalid value: "@ + spec_unexpected_text(unexp) + ", expected "@ + exp
}

/// The text of serde's "invalid length" error.
pub open spec fn spec_invalid_length_text(len: int, exp: Seq<char>) -> Seq<char> {
    "invalid length "@ + spec_decimal(len) + ", expected "@ + exp
}

/// The message of serde's `Error::invalid_type(unexp, &exp)`, as made by
/// serde's own error type (`serde::de::value::Error`): the claim is that it
/// reads `invalid type: {unexp}, expected {exp}`.
#[verifier::external_body]
pub(crate) fn invalid_type_text(unexp: Unexpected, exp: &'static str) -> (r: String)
    ensures
        r@ == spec_invalid_type_text(unexp, exp@),
{
    let u = match unexp {
        Unexpected::Other(s) => serde::de::Unexpected::Other(s),
        Unexpected::Mapping => serde::de::Unexpected::Map,
        Unexpected::UnitVariant => serde::de::Unexpected::UnitVariant,
        Unexpected::NewtypeVariant => serde::de::Unexpected::NewtypeVariant,
    };
    <serde::de::value::Error as serde::de::Error>::invalid_type(u, &exp).to_string()
}

/// The message of serde's `Error::invalid_value(unexp, &exp)`, as made by
/// `serde::de::value::Error`: the claim is that it reads
/// `invalid value: {unexp}, expected {exp}`.
#[verifier::external_body]
pub(crate) fn invalid_value_text(unexp: Unexpected, exp: &'static str) -> (r: String)
    ensures
        r@ == spec_invalid_value_text(unexp, exp@),
{
    let u = match unexp {
        Unexpected::Other(s) => serde::de::Unexpected::Other(s),
        Unexpected::Mapping => serde::de::Unexpected::Map,
        Unexpected::UnitVariant => serde::de::Unexpected::UnitVariant,
        Unexpected::NewtypeVariant => serde::de::Unexpected::NewtypeVariant,
    };
    <serde::de::value::Error as serde::de::Error>::invalid_value(u, &exp).to_string()
}

/// The message of serde's `Error::invalid_length(len as usize, &exp)`, as made by
/// `serde::de::value::Error`: the claim is that it reads
/// `invalid length {len}, expected {exp}`, the length in decimal.
#[verifier::external_body]
pub(crate) fn invalid_length_text(len: u64, exp: &'static str) -> (r: String)
    requires
        len <= usize::MAX,
    ensures
        r@ == spec_invalid_length_text(len as int, exp@),
{
    <serde::de::value::Error as serde::de::Error>::invalid_length(len as usize, &exp).to_string()
}

} // verus!
