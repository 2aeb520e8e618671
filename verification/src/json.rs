//! The structured-value codec: a JSON value travels as the bounded string
//! carrying its canonical text. Writing serializes and delegates to the
//! string codec under the same maximum; reading reverses the process and
//! fails with an encoding error on text that is not JSON. Serializing a
//! `serde_json::Value` itself cannot fail, so the write and size operations
//! owe success whenever the text fits.

use vstd::prelude::*;

verus! {

use crate::context::TransportProcessorContext;
use crate::error::Error;
use crate::strings::{
    exceeds_bound, read_string, reported_bound, size_string, spec_read_string, string_wire_bytes,
    write_string, StringRead,
};
use crate::varnum::varint_bytes;
use vstd::utf8::encode_utf8;

#[verifier::external_type_specification]
#[verifier::external_body]
pub struct ExJsonValue(serde_json::Value);

/// The canonical serialized text of a JSON value. It depends on the value
/// alone; `json_to_string` names its result with this function.
pub uninterp spec fn json_text_of(value: serde_json::Value) -> Seq<char>;

/// What parsing a text as JSON yields: the value, or nothing when the text
/// is not JSON. It depends on the text alone; `json_from_str` names its
/// result with this function.
pub uninterp spec fn json_parse_of(text: Seq<char>) -> Option<serde_json::Value>;

/// Relies on serde_json::to_string: serializes a JSON value to its canonical
/// text, a function of the value alone. On a `Value` it always succeeds:
/// the sink is a `Vec`, whose writes cannot fail, and every `Value` variant
/// serializes (numbers are finite, map keys are strings).
#[verifier::external_body]
fn json_to_string(value: &serde_json::Value) -> (r: Option<String>)
    ensures
        r is Some,
        r matches Some(s) ==> s@ == json_text_of(*value),
{
    serde_json::to_string(value).ok()
}

/// Relies on serde_json::from_str: whether a text parses as JSON, and to
/// which value, is a function of the text alone.
#[verifier::external_body]
fn json_from_str(text: &str) -> (r: Option<serde_json::Value>)
    ensures
        r is Some <==> json_parse_of(text@) is Some,
        r matches Some(v) ==> json_parse_of(text@) == Some(v),
{
    serde_json::from_str(text).ok()
}

/// Serializes `value` and writes it as a bounded string under `max_length`:
/// exactly the wire form of the canonical text when its byte length is
/// within three times `max_length`, and a bound error with nothing written
/// when it is not.
pub fn write_json(
    max_length: usize,
    value: &serde_json::Value,
    context: &mut TransportProcessorContext,
    writer: &mut Vec<u8>,
) -> (r: Result<(), Error>)
    ensures
        !exceeds_bound(encode_utf8(json_text_of(*value)).len() as int, max_length) ==> r == Ok::<
            (),
            Error,
        >(()) && final(writer)@ == old(writer)@ + string_wire_bytes(
            encode_utf8(json_text_of(*value)),
        ),
        exceeds_bound(encode_utf8(json_text_of(*value)).len() as int, max_length) ==> r == Err::<
            (),
            Error,
        >(
            (Error::BoundExceeded {
                byte_length: encode_utf8(json_text_of(*value)).len() as usize,
                reported_max: reported_bound(max_length),
            }),
        ) && final(writer)@ == old(writer)@,
{
    let text: String = json_to_string(value).unwrap();
    write_string(max_length, &text, context, writer)
}

/// Reads a bounded string under `max_length` and parses it as JSON, failing
/// with an encoding error when the text is not JSON.
pub fn read_json(
    max_length: usize,
    context: &mut TransportProcessorContext,
    data: &Vec<u8>,
    pos: &mut usize,
) -> (r: Result<serde_json::Value, Error>)
    requires
        *old(pos) <= data@.len(),
    ensures
        *final(pos) <= data@.len(),
        match spec_read_string(max_length, data@, *old(pos) as int) {
            StringRead::Got { text, end } => *final(pos) == end && (match json_parse_of(text) {
                Option::Some(v) => r == Ok::<serde_json::Value, Error>(v),
                Option::None => r == Err::<serde_json::Value, Error>(Error::EncodingError),
            }),
            StringRead::Failed { error, end } => r == Err::<serde_json::Value, Error>(error)
                && *final(pos) == end,
        },
{
    let text: String = match read_string(max_length, context, data, pos) {
        Ok(s) => s,
        Err(e) => {
            return Err(e);
        },
    };
    match json_from_str(text.as_str()) {
        Some(v) => Ok(v),
        None => Err(Error::EncodingError),
    }
}

/// The exact wire size of a JSON value: the size of the bounded string
/// carrying its serialized text. Fails only in the degenerate case where
/// the total does not fit in `usize`.
pub fn size_json(value: &serde_json::Value, context: &mut TransportProcessorContext) -> (r: Result<
    usize,
    Error,
>)
    ensures
        ({
            let blen = encode_utf8(json_text_of(*value)).len();
            let total = varint_bytes(blen as u32).len() + blen;
            &&& total <= usize::MAX ==> r == Ok::<usize, Error>(total as usize)
            &&& total > usize::MAX ==> r == Err::<usize, Error>(
                (Error::BoundExceeded { byte_length: blen as usize, reported_max: usize::MAX as u128 }),
            )
        }),
{
    let text: String = json_to_string(value).unwrap();
    size_string(&text, context)
}

} // verus!
