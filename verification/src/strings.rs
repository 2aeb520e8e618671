//! The bounded string codec: a text value travels as a VarInt byte-length
//! prefix followed by exactly that many UTF-8 bytes. A caller-supplied
//! maximum is enforced on both read and write against three times the
//! maximum (a protocol-specific scaling of a logical character bound), while
//! the error reports four times the maximum; that mismatch is historical
//! wire-protocol behaviour and is kept exactly.

use vstd::prelude::*;

verus! {

use crate::context::TransportProcessorContext;
use crate::error::Error;
use crate::varnum::{
    read_var_int, write_var_int, varint_bytes, spec_read_var_int, VarIntDecode,
    lemma_varint_bytes_len, lemma_decode_encoding32,
};
use vstd::utf8::{encode_utf8, decode_utf8, valid_utf8};

/// The wire form of a string body: a VarInt prefix carrying the low 32 bits
/// of the byte length, then the bytes themselves.
pub open spec fn string_wire_bytes(bytes: Seq<u8>) -> Seq<u8> {
    varint_bytes(bytes.len() as u32) + bytes
}

/// Whether a byte length breaks a configured maximum: the enforced bound is
/// three times the maximum.
pub open spec fn exceeds_bound(byte_length: int, max_length: usize) -> bool {
    byte_length > 3 * (max_length as int)
}

/// The bound a failing check reports: four times the maximum, although three
/// times is what is enforced.
pub open spec fn reported_bound(max_length: usize) -> u128 {
    (4 * (max_length as int)) as u128
}

/// Relies on String::from_utf8: it succeeds exactly on valid UTF-8 input,
/// and the returned string holds exactly the input bytes.
#[verifier::external_body]
fn string_from_utf8(bytes: Vec<u8>) -> (r: Option<String>)
    ensures
        r is Some <==> valid_utf8(bytes@),
        r matches Some(s) ==> s@ == decode_utf8(bytes@),
{
    String::from_utf8(bytes).ok()
}

/// Writes `bytes` as a length-prefixed string body without any bound check;
/// for callers that have already validated the length elsewhere. The prefix
/// carries the low 32 bits of the byte length.
pub fn write_string_checked(
    bytes: &[u8],
    context: &mut TransportProcessorContext,
    writer: &mut Vec<u8>,
) -> (r: Result<(), Error>)
    ensures
        r == Ok::<(), Error>(()),
        final(writer)@ == old(writer)@ + string_wire_bytes(bytes@),
{
    let n: usize = bytes.len();
    let len32: u32 = n as u32;
    proof {
        assert(((len32 as i32) as u32) == len32) by (bit_vector);
    }
    let ghost mid = writer@ + varint_bytes(bytes@.len() as u32);
    let _ = write_var_int(len32 as i32, context, writer);
    let mut i: usize = 0;
    while i < n
        invariant
            i <= n,
            n == bytes@.len(),
            writer@ == mid + bytes@.take(i as int),
        decreases n - i,
    {
        let b: u8 = bytes[i];
        writer.push(b);
        proof {
            assert(mid + bytes@.take(i as int) + seq![b] =~= mid + bytes@.take(i + 1));
        }
        i = i + 1;
    }
    proof {
        assert(bytes@.take(n as int) =~= bytes@);
        assert(mid + bytes@ =~= old(writer)@ + string_wire_bytes(bytes@));
    }
    Ok(())
}

/// Writes a string as its length-prefixed UTF-8 form, first enforcing that
/// the byte length does not exceed three times `max_length`; on failure
/// nothing is written and the error reports four times `max_length`.
pub fn write_string(
    max_length: usize,
    string: &String,
    context: &mut TransportProcessorContext,
    writer: &mut Vec<u8>,
) -> (r: Result<(), Error>)
    ensures
        exceeds_bound(encode_utf8(string@).len() as int, max_length) ==> r == Err::<(), Error>(
            (Error::BoundExceeded {
                byte_length: encode_utf8(string@).len() as usize,
                reported_max: reported_bound(max_length),
            }),
        ) && final(writer)@ == old(writer)@,
        !exceeds_bound(encode_utf8(string@).len() as int, max_length) ==> r == Ok::<(), Error>(())
            && final(writer)@ == old(writer)@ + string_wire_bytes(encode_utf8(string@)),
{
    let bytes: &[u8] = string.as_str().as_bytes();
    let length: usize = bytes.len();
    let over: bool = if max_length <= usize::MAX / 3 {
        length > max_length * 3
    } else {
        false
    };
    if over {
        return Err(Error::BoundExceeded {
            byte_length: length,
            reported_max: (max_length as u128) * 4,
        });
    }
    write_string_checked(bytes, context, writer)
}

/// Reads exactly `length` bytes from `data` at `*pos` and decodes them as
/// UTF-8, without any bound check; for callers that have already validated
/// the length elsewhere.
pub fn read_string_checked(
    length: usize,
    _context: &mut TransportProcessorContext,
    data: &Vec<u8>,
    pos: &mut usize,
) -> (r: Result<String, Error>)
    requires
        *old(pos) <= data@.len(),
    ensures
        *final(pos) <= data@.len(),
        *old(pos) + length > data@.len() ==> r == Err::<String, Error>(Error::ShortRead)
            && *final(pos) == data@.len(),
        *old(pos) + length <= data@.len() ==> {
            let seg = data@.subrange(*old(pos) as int, *old(pos) + length);
            &&& *final(pos) == *old(pos) + length
            &&& valid_utf8(seg) ==> (r matches Ok(s) && s@ == decode_utf8(seg))
            &&& !valid_utf8(seg) ==> r == Err::<String, Error>(Error::EncodingError)
        },
{
    let p: usize = *pos;
    let dlen: usize = data.len();
    if length > dlen - p {
        *pos = dlen;
        return Err(Error::ShortRead);
    }
    let mut buf: Vec<u8> = Vec::new();
    let mut i: usize = 0;
    while i < length
        invariant
            i <= length,
            p + length <= dlen,
            dlen == data@.len(),
            buf@ == data@.subrange(p as int, p + i),
        decreases length - i,
    {
        let b: u8 = data[p + i];
        buf.push(b);
        proof {
            assert(data@.subrange(p as int, p + i) + seq![b] =~= data@.subrange(p as int, p + i + 1));
        }
        i = i + 1;
    }
    *pos = p + length;
    match string_from_utf8(buf) {
        Some(s) => Ok(s),
        None => Err(Error::EncodingError),
    }
}

/// Outcome of reading a bounded string from a byte stream: the decoded
/// text, or the failure, together with the position after the attempt.
pub enum StringRead {
    Got { text: Seq<char>, end: int },
    Failed { error: Error, end: int },
}

/// What reading a bounded string under `max_length` from `bytes` at `start`
/// yields: the VarInt length prefix is decoded first; it must be
/// non-negative and within three times `max_length`; then that many bytes
/// must be present and hold valid UTF-8.
pub open spec fn spec_read_string(max_length: usize, bytes: Seq<u8>, start: int) -> StringRead {
    match spec_read_var_int(bytes, start) {
        VarIntDecode::Malformed => StringRead::Failed {
            error: Error::MalformedVarint,
            end: start + 5,
        },
        VarIntDecode::ShortRead => StringRead::Failed {
            error: Error::ShortRead,
            end: bytes.len() as int,
        },
        VarIntDecode::Value { value, consumed } => {
            let length = value as i32;
            let body_start = start + consumed;
            if length < 0 {
                StringRead::Failed { error: (Error::InvalidLength { length }), end: body_start }
            } else if exceeds_bound(length as int, max_length) {
                StringRead::Failed {
                    error: (Error::BoundExceeded {
                        byte_length: length as usize,
                        reported_max: reported_bound(max_length),
                    }),
                    end: body_start,
                }
            } else if body_start + length > bytes.len() {
                StringRead::Failed { error: Error::ShortRead, end: bytes.len() as int }
            } else {
                let seg = bytes.subrange(body_start, body_start + length);
                if valid_utf8(seg) {
                    StringRead::Got { text: decode_utf8(seg), end: body_start + length }
                } else {
                    StringRead::Failed { error: Error::EncodingError, end: body_start + length }
                }
            }
        },
    }
}

/// Checks a decoded string length prefix: it must be non-negative and
/// within three times `max_length`. Returns the length as a byte count.
/// This is the decision an adapter needs before it dares read a string body
/// from a live stream; the failing cases report exactly as `read_string`
/// does.
pub fn validate_string_length(max_length: usize, length: i32) -> (r: Result<usize, Error>)
    ensures
        length < 0 ==> r == Err::<usize, Error>((Error::InvalidLength { length })),
        length >= 0 && exceeds_bound(length as int, max_length) ==> r == Err::<usize, Error>(
            (Error::BoundExceeded {
                byte_length: length as usize,
                reported_max: reported_bound(max_length),
            }),
        ),
        length >= 0 && !exceeds_bound(length as int, max_length) ==> r == Ok::<usize, Error>(
            length as usize,
        ),
{
    if length < 0 {
        return Err(Error::InvalidLength { length });
    }
    let len: usize = length as usize;
    let over: bool = if max_length <= usize::MAX / 3 {
        len > max_length * 3
    } else {
        false
    };
    if over {
        return Err(Error::BoundExceeded {
            byte_length: len,
            reported_max: (max_length as u128) * 4,
        });
    }
    Ok(len)
}

/// Reads a length-prefixed string: a VarInt byte length, which must be
/// non-negative and within three times `max_length`, then that many bytes of
/// UTF-8. The bound is enforced before the body is read.
pub fn read_string(
    max_length: usize,
    context: &mut TransportProcessorContext,
    data: &Vec<u8>,
    pos: &mut usize,
) -> (r: Result<String, Error>)
    requires
        *old(pos) <= data@.len(),
    ensures
        *final(pos) <= data@.len(),
        match spec_read_string(max_length, data@, *old(pos) as int) {
            StringRead::Got { text, end } => (r matches Ok(s) && s@ == text) && *final(pos) == end,
            StringRead::Failed { error, end } => r == Err::<String, Error>(error) && *final(pos)
                == end,
        },
{
    let length_prefix: i32 = match read_var_int(context, data, pos) {
        Ok(v) => v,
        Err(e) => {
            return Err(e);
        },
    };
    let length: usize = match validate_string_length(max_length, length_prefix) {
        Ok(n) => n,
        Err(e) => {
            return Err(e);
        },
    };
    read_string_checked(length, context, data, pos)
}

/// The exact wire size of a string: the VarInt prefix's length plus the byte
/// length itself. Agrees byte-for-byte with what `write_string` emits. Fails
/// only in the degenerate case where the total does not fit in `usize`.
pub fn size_string(value: &String, _context: &mut TransportProcessorContext) -> (r: Result<
    usize,
    Error,
>)
    ensures
        ({
            let blen = encode_utf8(value@).len();
            let total = varint_bytes(blen as u32).len() + blen;
            &&& total <= usize::MAX ==> r == Ok::<usize, Error>(total as usize)
            &&& total > usize::MAX ==> r == Err::<usize, Error>(
                (Error::BoundExceeded { byte_length: blen as usize, reported_max: usize::MAX as u128 }),
            )
        }),
{
    let bytes: &[u8] = value.as_str().as_bytes();
    let string_len: usize = bytes.len();
    let len32: u32 = string_len as u32;
    proof {
        assert(((len32 as i32) as u32) == len32) by (bit_vector);
        lemma_varint_bytes_len(len32);
    }
    let mut temp: u32 = len32;
    let mut size: usize = 0;
    loop
        invariant
            size + varint_bytes(temp).len() == varint_bytes(len32).len(),
            varint_bytes(len32).len() <= 5,
        ensures
            temp & 0xffff_ff80u32 == 0,
            size + varint_bytes(temp).len() == varint_bytes(len32).len(),
        decreases temp,
    {
        proof {
            assert(temp & 0xffff_ff80u32 != 0 ==> (temp >> 7u32) < temp) by (bit_vector);
        }
        if temp & 0xffff_ff80u32 == 0 {
            break;
        }
        size = size + 1;
        temp = temp >> 7u32;
    }
    let prefix: usize = size + 1;
    match string_len.checked_add(prefix) {
        Some(total) => Ok(total),
        None => Err(Error::BoundExceeded {
            byte_length: string_len,
            reported_max: usize::MAX as u128,
        }),
    }
}

/// Law: size agreement for strings. The size reported for a string is
/// exactly the length of the wire form the writer emits: the prefix's length
/// plus the body's length.
pub proof fn lemma_string_size_agreement(s: Seq<char>)
    ensures
        string_wire_bytes(encode_utf8(s)).len() == varint_bytes(encode_utf8(s).len() as u32).len()
            + encode_utf8(s).len(),
{
}

/// Law: round-trip for strings. For a string whose byte length is
/// representable in the prefix, the wire form written for it reads back as
/// exactly the original characters: the prefix decodes to the byte length,
/// the body is the UTF-8 encoding, and decoding that body gives the
/// characters back.
pub proof fn lemma_string_round_trip(s: Seq<char>)
    requires
        encode_utf8(s).len() < 0x8000_0000,
    ensures
        ({
            let body = encode_utf8(s);
            let wire = string_wire_bytes(body);
            let prefix_len = varint_bytes(body.len() as u32).len();
            &&& spec_read_var_int(wire, 0) == (VarIntDecode::Value {
                value: body.len() as u32,
                consumed: prefix_len as nat,
            })
            &&& (body.len() as u32) as i32 >= 0
            &&& (body.len() as u32) as i32 == body.len()
            &&& wire.subrange(prefix_len as int, prefix_len + body.len() as int) == body
            &&& valid_utf8(body)
            &&& decode_utf8(body) == s
        }),
{
    broadcast use vstd::utf8::encode_utf8_valid_utf8, vstd::utf8::encode_utf8_decode_utf8;

    let body = encode_utf8(s);
    let blen32 = body.len() as u32;
    let e = varint_bytes(blen32);
    let wire = string_wire_bytes(body);
    lemma_varint_bytes_len(blen32);
    assert(wire.subrange(0, e.len() as int) =~= e);
    lemma_decode_encoding32(wire, 0, 0, 0, blen32);
    assert((0u32 | (blen32 << 0u32)) == blen32) by (bit_vector);
    assert(blen32 < 0x8000_0000 ==> (blen32 as i32) >= 0 && (blen32 as i32) == blen32)
        by (bit_vector);
    assert(wire.subrange(e.len() as int, e.len() + body.len() as int) =~= body);
}

} // verus!
