//! Byte encodings that cross the system-call boundary, produced and read by
//! `postcard`, the check that bytes are text, and the two halves of a
//! 128-bit identifier as `uuid` splits and joins them.
//!
//! Nothing in this file is proved. Each function states what the outside
//! function that it calls returns; where that is an encoding, a spec function
//! without a body stands for it.

use vstd::prelude::*;
use vstd::utf8::decode_utf8;
use vstd::utf8::valid_utf8;

verus! {

/// The error type of `postcard`.
#[verifier::external_type_specification]
#[verifier::external_body]
pub struct ExPostcardError(postcard::Error);

/// The bytes that `postcard::to_allocvec` produces for an optional entry
/// identifier. For an absent one they are what it produces for every absent
/// optional value, of whatever type.
pub uninterp spec fn postcard_option_bytes(parent: Option<u64>) -> Seq<u8>;

/// The bytes that `postcard::to_allocvec` produces for a sequence of entry
/// identifiers.
pub uninterp spec fn postcard_ids_bytes(children: Seq<u64>) -> Seq<u8>;

/// The optional entry identifier that `postcard::from_bytes` reads from the
/// bytes, or `None` where it rejects them.
pub uninterp spec fn postcard_parsed_option(bytes: Seq<u8>) -> Option<Option<u64>>;

/// The sequence of entry identifiers that `postcard::from_bytes` reads from
/// the bytes, or `None` where it rejects them.
pub uninterp spec fn postcard_parsed_ids(bytes: Seq<u8>) -> Option<Seq<u64>>;

/// `postcard::to_allocvec` on an `Option<u64>`. It succeeds: the serialiser
/// fails only when its output is full or a sequence has no known length, and
/// the output here is a vector that grows and the value holds no sequence.
/// An absent value is written as the single byte zero.
#[verifier::external_body]
pub(crate) fn option_to_bytes(parent: &Option<u64>) -> (r: Result<Vec<u8>, postcard::Error>)
    ensures
        r is Ok,
        r matches Ok(bytes) ==> bytes@ == postcard_option_bytes(*parent),
        r matches Ok(bytes) ==> (*parent is None ==> bytes@ == seq![0u8]),
{
    postcard::to_allocvec(parent)
}

/// `postcard::to_allocvec` on a `Vec<u64>`. It succeeds: the serialiser
/// fails only when its output is full or a sequence has no known length, and
/// the output here is a vector that grows and a `Vec` knows its length.
#[verifier::external_body]
pub(crate) fn ids_to_bytes(children: &Vec<u64>) -> (r: Result<Vec<u8>, postcard::Error>)
    ensures
        r is Ok,
        r matches Ok(bytes) ==> bytes@ == postcard_ids_bytes(children@),
{
    postcard::to_allocvec(children)
}

/// `postcard::from_bytes` for an `Option<u64>`: the value read from the
/// front of the bytes, or the error with which the bytes are rejected.
#[verifier::external_body]
pub(crate) fn option_from_bytes(bytes: &[u8]) -> (r: Result<Option<u64>, postcard::Error>)
    ensures
        r matches Ok(parent) ==> postcard_parsed_option(bytes@) == Some(parent),
        r is Err ==> postcard_parsed_option(bytes@) is None,
{
    postcard::from_bytes(bytes)
}

/// `postcard::from_bytes` for a `Vec<u64>`: the value read from the front of
/// the bytes, or the error with which the bytes are rejected.
#[verifier::external_body]
pub(crate) fn ids_from_bytes(bytes: &[u8]) -> (r: Result<Vec<u64>, postcard::Error>)
    ensures
        r matches Ok(children) ==> postcard_parsed_ids(bytes@) == Some(children@),
        r is Err ==> postcard_parsed_ids(bytes@) is None,
{
    postcard::from_bytes(bytes)
}

/// `core::str::from_utf8`: the text that the bytes encode, exactly when they
/// are valid UTF-8.
#[verifier::external_body]
pub(crate) fn text_from_utf8(bytes: &[u8]) -> (text: Option<&str>)
    ensures
        text is Some <==> valid_utf8(bytes@),
        text matches Some(s) ==> s@ == decode_utf8(bytes@),
{
    core::str::from_utf8(bytes).ok()
}

/// The 128-bit number whose upper 64 bits are `high` and whose lower 64 bits
/// are `low`.
pub open spec fn join_halves(high: u64, low: u64) -> u128 {
    (high * 0x1_0000_0000_0000_0000 + low) as u128
}

/// The upper 64 bits of `id`.
pub open spec fn high_half(id: u128) -> u64 {
    (id / 0x1_0000_0000_0000_0000) as u64
}

/// The lower 64 bits of `id`.
pub open spec fn low_half(id: u128) -> u64 {
    (id % 0x1_0000_0000_0000_0000) as u64
}

/// `uuid::Uuid::from_u64_pair`, read back as a number by
/// `uuid::Uuid::as_u128`: the first argument becomes the upper 64 bits, the
/// second the lower 64 bits.
#[verifier::external_body]
pub(crate) fn uuid_from_u64_pair(high: u64, low: u64) -> (id: u128)
    ensures
        id == join_halves(high, low),
{
    uuid::Uuid::from_u64_pair(high, low).as_u128()
}

/// `uuid::Uuid::as_u64_pair` of the identifier that `uuid::Uuid::from_u128`
/// makes of a number: the upper 64 bits first, the lower 64 bits second.
#[verifier::external_body]
pub(crate) fn uuid_as_u64_pair(id: u128) -> (pair: (u64, u64))
    ensures
        pair.0 == high_half(id),
        pair.1 == low_half(id),
{
    uuid::Uuid::from_u128(id).as_u64_pair()
}

/// Splitting an identifier and joining the halves gives it back, and so does
/// joining two halves and splitting the result.
pub proof fn law_halves_round_trip(id: u128, high: u64, low: u64)
    ensures
        join_halves(high_half(id), low_half(id)) == id,
        high_half(join_halves(high, low)) == high,
        low_half(join_halves(high, low)) == low,
{
}

} // verus!
