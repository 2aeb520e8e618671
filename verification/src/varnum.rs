//! The variable-length numeric codec: signed 32-bit and 64-bit integers are
//! carried as 1..=5 or 1..=10 bytes, each byte holding 7 data bits in its low
//! bits and a continuation flag in its high bit. The least-significant 7-bit
//! group comes first. Decoding rejects a sequence whose continuation budget
//! (35 or 70 bits of shift) runs out before a terminating byte.

use vstd::prelude::*;

verus! {

use crate::context::TransportProcessorContext;
use crate::error::Error;

/// Outcome of decoding a VarInt from a byte stream: the 32-bit value and the
/// number of bytes consumed, or the kind of failure.
pub enum VarIntDecode {
    Value { value: u32, consumed: nat },
    Malformed,
    ShortRead,
}

/// Outcome of decoding a VarLong from a byte stream.
pub enum VarLongDecode {
    Value { value: u64, consumed: nat },
    Malformed,
    ShortRead,
}

/// The wire encoding of a 32-bit value: its low 7 bits with the continuation
/// bit set while higher bits remain, then one terminating byte.
pub open spec fn varint_bytes(v: u32) -> Seq<u8>
    decreases v,
{
    if v & 0xffff_ff80u32 == 0 {
        seq![v as u8]
    } else {
        proof {
            assert(v & 0xffff_ff80u32 != 0 ==> (v >> 7u32) < v) by (bit_vector);
        }
        seq![((v & 0x7f) | 0x80) as u8] + varint_bytes(v >> 7u32)
    }
}

/// The wire encoding of a 64-bit value, same scheme as `varint_bytes`.
pub open spec fn varlong_bytes(v: u64) -> Seq<u8>
    decreases v,
{
    if v & 0xffff_ffff_ffff_ff80u64 == 0 {
        seq![v as u8]
    } else {
        proof {
            assert(v & 0xffff_ffff_ffff_ff80u64 != 0 ==> (v >> 7u64) < v) by (bit_vector);
        }
        seq![((v & 0x7f) | 0x80) as u8] + varlong_bytes(v >> 7u64)
    }
}

/// Decoding a VarInt from `bytes` starting at `start`, having already
/// consumed `count` bytes whose data bits are accumulated in `acc`.
pub open spec fn spec_read32_from(bytes: Seq<u8>, start: int, count: nat, acc: u32) -> VarIntDecode
    decreases 5 - count,
{
    if count >= 5 {
        VarIntDecode::Malformed
    } else if start + count >= bytes.len() {
        VarIntDecode::ShortRead
    } else {
        let b = bytes[start + count];
        let acc2 = acc | (((b & 0x7f) as u32) << ((7 * count) as u32));
        if b & 0x80 == 0 {
            VarIntDecode::Value { value: acc2, consumed: count + 1 }
        } else {
            spec_read32_from(bytes, start, count + 1, acc2)
        }
    }
}

/// What reading a VarInt from `bytes` at position `start` yields.
pub open spec fn spec_read_var_int(bytes: Seq<u8>, start: int) -> VarIntDecode {
    spec_read32_from(bytes, start, 0, 0)
}

/// Decoding a VarLong, same scheme as `spec_read32_from` with a 10-byte
/// budget.
pub open spec fn spec_read64_from(bytes: Seq<u8>, start: int, count: nat, acc: u64) -> VarLongDecode
    decreases 10 - count,
{
    if count >= 10 {
        VarLongDecode::Malformed
    } else if start + count >= bytes.len() {
        VarLongDecode::ShortRead
    } else {
        let b = bytes[start + count];
        let acc2 = acc | (((b & 0x7f) as u64) << ((7 * count) as u64));
        if b & 0x80 == 0 {
            VarLongDecode::Value { value: acc2, consumed: count + 1 }
        } else {
            spec_read64_from(bytes, start, count + 1, acc2)
        }
    }
}

/// What reading a VarLong from `bytes` at position `start` yields.
pub open spec fn spec_read_var_long(bytes: Seq<u8>, start: int) -> VarLongDecode {
    spec_read64_from(bytes, start, 0, 0)
}

/// Reads a VarInt from `data` at `*pos`, advancing `*pos` past the bytes
/// consumed. Fails with `MalformedVarint` after 5 continuation bytes, and
/// with `ShortRead` if `data` runs out first.
pub fn read_var_int(_context: &mut TransportProcessorContext, data: &Vec<u8>, pos: &mut usize) -> (r:
    Result<i32, Error>)
    requires
        *old(pos) <= data@.len(),
    ensures
        *final(pos) <= data@.len(),
        match spec_read_var_int(data@, *old(pos) as int) {
            VarIntDecode::Value { value, consumed } => r == Ok::<i32, Error>(value as i32)
                && *final(pos) == *old(pos) + consumed,
            VarIntDecode::Malformed => r == Err::<i32, Error>(Error::MalformedVarint)
                && *final(pos) == *old(pos) + 5,
            VarIntDecode::ShortRead => r == Err::<i32, Error>(Error::ShortRead) && *final(pos)
                == data@.len(),
        },
{
    let start: usize = *pos;
    let dlen: usize = data.len();
    let mut value: u32 = 0;
    let mut count: usize = 0;
    loop
        invariant
            count <= 5,
            start + count <= dlen,
            start == *old(pos),
            dlen == data@.len(),
            spec_read32_from(data@, start as int, 0, 0) == spec_read32_from(
                data@,
                start as int,
                count as nat,
                value,
            ),
        decreases 5 - count,
    {
        if count == 5 {
            *pos = start + count;
            return Err(Error::MalformedVarint);
        }
        if count >= dlen - start {
            *pos = dlen;
            return Err(Error::ShortRead);
        }
        let b: u8 = data[start + count];
        value = value | (((b & 0x7f) as u32) << ((7 * count) as u32));
        if b & 0x80 == 0 {
            *pos = start + count + 1;
            return Ok(value as i32);
        }
        count = count + 1;
    }
}

/// Reads a VarLong from `data` at `*pos`, advancing `*pos` past the bytes
/// consumed. Fails with `MalformedVarint` after 10 continuation bytes, and
/// with `ShortRead` if `data` runs out first.
pub fn read_var_long(_context: &mut TransportProcessorContext, data: &Vec<u8>, pos: &mut usize) -> (r:
    Result<i64, Error>)
    requires
        *old(pos) <= data@.len(),
    ensures
        *final(pos) <= data@.len(),
        match spec_read_var_long(data@, *old(pos) as int) {
            VarLongDecode::Value { value, consumed } => r == Ok::<i64, Error>(value as i64)
                && *final(pos) == *old(pos) + consumed,
            VarLongDecode::Malformed => r == Err::<i64, Error>(Error::MalformedVarint)
                && *final(pos) == *old(pos) + 10,
            VarLongDecode::ShortRead => r == Err::<i64, Error>(Error::ShortRead) && *final(pos)
                == data@.len(),
        },
{
    let start: usize = *pos;
    let dlen: usize = data.len();
    let mut value: u64 = 0;
    let mut count: usize = 0;
    loop
        invariant
            count <= 10,
            start + count <= dlen,
            start == *old(pos),
            dlen == data@.len(),
            spec_read64_from(data@, start as int, 0, 0) == spec_read64_from(
                data@,
                start as int,
                count as nat,
                value,
            ),
        decreases 10 - count,
    {
        if count == 10 {
            *pos = start + count;
            return Err(Error::MalformedVarint);
        }
        if count >= dlen - start {
            *pos = dlen;
            return Err(Error::ShortRead);
        }
        let b: u8 = data[start + count];
        value = value | (((b & 0x7f) as u64) << ((7 * count) as u64));
        if b & 0x80 == 0 {
            *pos = start + count + 1;
            return Ok(value as i64);
        }
        count = count + 1;
    }
}

/// Writes the VarInt encoding of `var` to `writer`. Always succeeds and
/// appends exactly `varint_bytes(var as u32)`.
pub fn write_var_int(var: i32, _context: &mut TransportProcessorContext, writer: &mut Vec<u8>) -> (r:
    Result<(), Error>)
    ensures
        r == Ok::<(), Error>(()),
        final(writer)@ == old(writer)@ + varint_bytes(var as u32),
{
    let mut temp: u32 = var as u32;
    loop
        invariant
            writer@ + varint_bytes(temp) == old(writer)@ + varint_bytes(var as u32),
        decreases temp,
    {
        proof {
            assert(temp & 0xffff_ff80u32 != 0 ==> (temp >> 7u32) < temp) by (bit_vector);
        }
        if temp & 0xffff_ff80u32 == 0 {
            writer.push(temp as u8);
            proof {
                assert(writer@ + varint_bytes(temp) =~= (writer@ + seq![temp as u8])
                    + varint_bytes(temp).skip(1));
                assert(varint_bytes(temp).skip(1) =~= Seq::<u8>::empty());
                assert((writer@ + seq![temp as u8]) + Seq::<u8>::empty() =~= writer@ + seq![
                    temp as u8,
                ]);
            }
            return Ok(());
        }
        let b: u8 = ((temp & 0x7f) | 0x80) as u8;
        writer.push(b);
        proof {
            assert((writer@ + seq![b]) + varint_bytes(temp >> 7u32) =~= writer@ + (seq![b]
                + varint_bytes(temp >> 7u32)));
        }
        temp = temp >> 7u32;
    }
}

/// Writes the VarLong encoding of `var` to `writer`. Always succeeds and
/// appends exactly `varlong_bytes(var as u64)`.
pub fn write_var_long(var: i64, _context: &mut TransportProcessorContext, writer: &mut Vec<u8>) -> (r:
    Result<(), Error>)
    ensures
        r == Ok::<(), Error>(()),
        final(writer)@ == old(writer)@ + varlong_bytes(var as u64),
{
    let mut temp: u64 = var as u64;
    loop
        invariant
            writer@ + varlong_bytes(temp) == old(writer)@ + varlong_bytes(var as u64),
        decreases temp,
    {
        proof {
            assert(temp & 0xffff_ffff_ffff_ff80u64 != 0 ==> (temp >> 7u64) < temp) by (bit_vector);
        }
        if temp & 0xffff_ffff_ffff_ff80u64 == 0 {
            writer.push(temp as u8);
            proof {
                assert(writer@ + varlong_bytes(temp) =~= (writer@ + seq![temp as u8])
                    + varlong_bytes(temp).skip(1));
                assert(varlong_bytes(temp).skip(1) =~= Seq::<u8>::empty());
                assert((writer@ + seq![temp as u8]) + Seq::<u8>::empty() =~= writer@ + seq![
                    temp as u8,
                ]);
            }
            return Ok(());
        }
        let b: u8 = ((temp & 0x7f) | 0x80) as u8;
        writer.push(b);
        proof {
            assert((writer@ + seq![b]) + varlong_bytes(temp >> 7u64) =~= writer@ + (seq![b]
                + varlong_bytes(temp >> 7u64)));
        }
        temp = temp >> 7u64;
    }
}

/// The byte length of the VarInt encoding, computed without allocating. It
/// agrees byte-for-byte with what `write_var_int` emits.
pub fn size_var_int(var: i32, _context: &mut TransportProcessorContext) -> (r: Result<usize, Error>)
    ensures
        r == Ok::<usize, Error>(varint_bytes(var as u32).len() as usize),
{
    proof {
        lemma_varint_bytes_len(var as u32);
    }
    let mut temp: u32 = var as u32;
    let mut size: usize = 0;
    loop
        invariant
            size + varint_bytes(temp).len() == varint_bytes(var as u32).len(),
            varint_bytes(var as u32).len() <= 5,
        decreases temp,
    {
        proof {
            assert(temp & 0xffff_ff80u32 != 0 ==> (temp >> 7u32) < temp) by (bit_vector);
        }
        if temp & 0xffff_ff80u32 == 0 {
            return Ok(size + 1);
        }
        size = size + 1;
        temp = temp >> 7u32;
    }
}

/// The byte length of the VarLong encoding, computed without allocating. It
/// agrees byte-for-byte with what `write_var_long` emits.
pub fn size_var_long(var: i64, _context: &mut TransportProcessorContext) -> (r: Result<usize, Error>)
    ensures
        r == Ok::<usize, Error>(varlong_bytes(var as u64).len() as usize),
{
    proof {
        lemma_varlong_bytes_len(var as u64);
    }
    let mut temp: u64 = var as u64;
    let mut size: usize = 0;
    loop
        invariant
            size + varlong_bytes(temp).len() == varlong_bytes(var as u64).len(),
            varlong_bytes(var as u64).len() <= 10,
        decreases temp,
    {
        proof {
            assert(temp & 0xffff_ffff_ffff_ff80u64 != 0 ==> (temp >> 7u64) < temp) by (bit_vector);
        }
        if temp & 0xffff_ffff_ffff_ff80u64 == 0 {
            return Ok(size + 1);
        }
        size = size + 1;
        temp = temp >> 7u64;
    }
}

/// Law: a VarInt encoding is minimal. It is never longer than 5 bytes, and a
/// value whose highest set bit lies in the k-th 7-bit group occupies exactly
/// k bytes; in particular 0 encodes as a single byte.
pub proof fn lemma_varint_bytes_len(v: u32)
    ensures
        1 <= varint_bytes(v).len() <= 5,
        v < 0x80 ==> varint_bytes(v) == seq![v as u8],
        varint_bytes(v).len() == if v < 0x80 {
            1int
        } else if v < 0x4000 {
            2int
        } else if v < 0x20_0000 {
            3int
        } else if v < 0x1000_0000 {
            4int
        } else {
            5int
        },
    decreases v,
{
    assert((v & 0xffff_ff80u32 == 0 <==> v < 0x80) && (v & 0xffff_ff80u32 != 0 ==> (v >> 7u32) < v)
        && ((v >> 7u32) < 0x80 <==> v < 0x4000) && ((v >> 7u32) < 0x4000 <==> v < 0x20_0000) && ((v
        >> 7u32) < 0x20_0000 <==> v < 0x1000_0000) && ((v >> 7u32) < 0x1000_0000)) by (bit_vector);
    if v & 0xffff_ff80u32 != 0 {
        lemma_varint_bytes_len(v >> 7u32);
    }
}

/// Law: a VarLong encoding is minimal. It is never longer than 10 bytes, and
/// a value whose highest set bit lies in the k-th 7-bit group occupies
/// exactly k bytes; in particular 0 encodes as a single byte.
pub proof fn lemma_varlong_bytes_len(v: u64)
    ensures
        1 <= varlong_bytes(v).len() <= 10,
        v < 0x80 ==> varlong_bytes(v) == seq![v as u8],
        varlong_bytes(v).len() == if v < 0x80 {
            1int
        } else if v < 0x4000 {
            2int
        } else if v < 0x20_0000 {
            3int
        } else if v < 0x1000_0000 {
            4int
        } else if v < 0x8_0000_0000 {
            5int
        } else if v < 0x400_0000_0000 {
            6int
        } else if v < 0x2_0000_0000_0000 {
            7int
        } else if v < 0x100_0000_0000_0000 {
            8int
        } else if v < 0x8000_0000_0000_0000 {
            9int
        } else {
            10int
        },
    decreases v,
{
    assert((v & 0xffff_ffff_ffff_ff80u64 == 0 <==> v < 0x80) && (v & 0xffff_ffff_ffff_ff80u64 != 0
        ==> (v >> 7u64) < v) && ((v >> 7u64) < 0x80 <==> v < 0x4000) && ((v >> 7u64) < 0x4000 <==> v
        < 0x20_0000) && ((v >> 7u64) < 0x20_0000 <==> v < 0x1000_0000) && ((v >> 7u64) < 0x1000_0000
        <==> v < 0x8_0000_0000) && ((v >> 7u64) < 0x8_0000_0000 <==> v < 0x400_0000_0000) && ((v
        >> 7u64) < 0x400_0000_0000 <==> v < 0x2_0000_0000_0000) && ((v >> 7u64) < 0x2_0000_0000_0000
        <==> v < 0x100_0000_0000_0000) && ((v >> 7u64) < 0x100_0000_0000_0000 <==> v
        < 0x8000_0000_0000_0000) && ((v >> 7u64) < 0x8000_0000_0000_0000)) by (bit_vector);
    if v & 0xffff_ffff_ffff_ff80u64 != 0 {
        lemma_varlong_bytes_len(v >> 7u64);
    }
}

pub(crate) proof fn lemma_decode_encoding32(bytes: Seq<u8>, start: int, count: nat, acc: u32, v: u32)
    requires
        0 <= start,
        count + varint_bytes(v).len() <= 5,
        start + count + varint_bytes(v).len() <= bytes.len(),
        bytes.subrange(start + count, start + count + varint_bytes(v).len() as int) == varint_bytes(
            v,
        ),
    ensures
        spec_read32_from(bytes, start, count, acc) == (VarIntDecode::Value {
            value: acc | (v << ((7 * count) as u32)),
            consumed: (count + varint_bytes(v).len()) as nat,
        }),
    decreases v,
{
    lemma_varint_bytes_len(v);
    let e = varint_bytes(v);
    let s = (7 * count) as u32;
    let b = bytes[start + count];
    assert(b == e[0]) by {
        assert(e[0] == bytes.subrange(start + count, start + count + e.len() as int)[0]);
    }
    if v & 0xffff_ff80u32 == 0 {
        assert(b == v as u8);
        assert(((v as u8) & 0x80) == 0 && (acc | ((((v as u8) & 0x7f) as u32) << s)) == (acc | (v
            << s))) by (bit_vector)
            requires
                v & 0xffff_ff80u32 == 0 && s <= 28,
        ;
    } else {
        assert(b == ((v & 0x7f) | 0x80) as u8);
        assert((((v & 0x7f) | 0x80) as u8) & 0x80 != 0 && (acc | (((((((v & 0x7f) | 0x80) as u8)
            & 0x7f) as u32)) << s)) == (acc | ((v & 0x7f) << s))) by (bit_vector);
        let acc2 = acc | ((v & 0x7f) << s);
        let e2 = varint_bytes(v >> 7u32);
        assert(e =~= seq![b] + e2);
        assert(bytes.subrange(start + count + 1, start + count + 1 + e2.len() as int) =~= e2) by {
            let sub = bytes.subrange(start + count, start + count + e.len() as int);
            assert forall|j: int| 0 <= j < e2.len() implies bytes.subrange(
                start + count + 1,
                start + count + 1 + e2.len() as int,
            )[j] == e2[j] by {
                assert(sub[j + 1] == e[j + 1]);
            }
        }
        assert(v & 0xffff_ff80u32 != 0 ==> (v >> 7u32) < v) by (bit_vector);
        lemma_decode_encoding32(bytes, start, count + 1, acc2, v >> 7u32);
        assert((acc | ((v & 0x7f) << s)) | ((v >> 7u32) << ((s + 7) as u32)) == (acc | (v << s)))
            by (bit_vector)
            requires
                s <= 21,
        ;
        assert((7 * (count + 1)) as u32 == (s + 7) as u32);
    }
}

pub(crate) proof fn lemma_decode_encoding64(bytes: Seq<u8>, start: int, count: nat, acc: u64, v: u64)
    requires
        0 <= start,
        count + varlong_bytes(v).len() <= 10,
        start + count + varlong_bytes(v).len() <= bytes.len(),
        bytes.subrange(start + count, start + count + varlong_bytes(v).len() as int)
            == varlong_bytes(v),
    ensures
        spec_read64_from(bytes, start, count, acc) == (VarLongDecode::Value {
            value: acc | (v << ((7 * count) as u64)),
            consumed: (count + varlong_bytes(v).len()) as nat,
        }),
    decreases v,
{
    lemma_varlong_bytes_len(v);
    let e = varlong_bytes(v);
    let s = (7 * count) as u64;
    let b = bytes[start + count];
    assert(b == e[0]) by {
        assert(e[0] == bytes.subrange(start + count, start + count + e.len() as int)[0]);
    }
    if v & 0xffff_ffff_ffff_ff80u64 == 0 {
        assert(b == v as u8);
        assert(((v as u8) & 0x80) == 0 && (acc | ((((v as u8) & 0x7f) as u64) << s)) == (acc | (v
            << s))) by (bit_vector)
            requires
                v & 0xffff_ffff_ffff_ff80u64 == 0 && s <= 63,
        ;
    } else {
        assert(b == ((v & 0x7f) | 0x80) as u8);
        assert((((v & 0x7f) | 0x80) as u8) & 0x80 != 0 && (acc | (((((((v & 0x7f) | 0x80) as u8)
            & 0x7f) as u64)) << s)) == (acc | ((v & 0x7f) << s))) by (bit_vector);
        let acc2 = acc | ((v & 0x7f) << s);
        let e2 = varlong_bytes(v >> 7u64);
        assert(e =~= seq![b] + e2);
        assert(bytes.subrange(start + count + 1, start + count + 1 + e2.len() as int) =~= e2) by {
            let sub = bytes.subrange(start + count, start + count + e.len() as int);
            assert forall|j: int| 0 <= j < e2.len() implies bytes.subrange(
                start + count + 1,
                start + count + 1 + e2.len() as int,
            )[j] == e2[j] by {
                assert(sub[j + 1] == e[j + 1]);
            }
        }
        assert(v & 0xffff_ffff_ffff_ff80u64 != 0 ==> (v >> 7u64) < v) by (bit_vector);
        lemma_decode_encoding64(bytes, start, count + 1, acc2, v >> 7u64);
        assert((acc | ((v & 0x7f) << s)) | ((v >> 7u64) << ((s + 7) as u64)) == (acc | (v << s)))
            by (bit_vector)
            requires
                s <= 56,
        ;
        assert((7 * (count + 1)) as u64 == (s + 7) as u64);
    }
}

/// Law: round-trip. Decoding the VarInt encoding of any 32-bit value yields
/// exactly that value and consumes exactly the encoding.
pub proof fn lemma_var_int_round_trip(v: i32)
    ensures
        spec_read_var_int(varint_bytes(v as u32), 0) == (VarIntDecode::Value {
            value: v as u32,
            consumed: varint_bytes(v as u32).len() as nat,
        }),
        (v as u32) as i32 == v,
{
    let u = v as u32;
    assert((v as u32) as i32 == v) by (bit_vector);
    lemma_varint_bytes_len(u);
    let e = varint_bytes(u);
    assert(e.subrange(0, e.len() as int) =~= e);
    lemma_decode_encoding32(e, 0, 0, 0, u);
    assert((0u32 | (u << 0u32)) == u) by (bit_vector);
}

/// Law: round-trip. Decoding the VarLong encoding of any 64-bit value yields
/// exactly that value and consumes exactly the encoding.
pub proof fn lemma_var_long_round_trip(v: i64)
    ensures
        spec_read_var_long(varlong_bytes(v as u64), 0) == (VarLongDecode::Value {
            value: v as u64,
            consumed: varlong_bytes(v as u64).len() as nat,
        }),
        (v as u64) as i64 == v,
{
    let u = v as u64;
    assert((v as u64) as i64 == v) by (bit_vector);
    lemma_varlong_bytes_len(u);
    let e = varlong_bytes(u);
    assert(e.subrange(0, e.len() as int) =~= e);
    lemma_decode_encoding64(e, 0, 0, 0, u);
    assert((0u64 | (u << 0u64)) == u) by (bit_vector);
}


/// The data bits accumulated from a sequence of continuation bytes, each
/// contributing its low 7 bits at the next 7-bit offset.
pub open spec fn varint_partial(bytes: Seq<u8>) -> u32
    decreases bytes.len(),
{
    if bytes.len() == 0 {
        0
    } else {
        varint_partial(bytes.drop_last()) | (((bytes.last() & 0x7f) as u32) << ((7 * (bytes.len()
            - 1)) as u32))
    }
}

/// What one `VarIntDecoder::step` call reports.
#[derive(Clone, Copy, Debug, PartialEq, Eq, Structural)]
pub enum VarIntStep {
    /// A terminating byte arrived: the value is complete.
    Done { value: i32 },
    /// A continuation byte arrived: more bytes are needed.
    NeedMore,
    /// The 35-bit budget is exhausted: the sequence is malformed, and no
    /// further byte may be consumed.
    TooLong,
}

/// The VarInt decoding algorithm as a mode-agnostic state machine: bytes are
/// fed in one at a time, however they were obtained. A blocking adapter and
/// a suspendable adapter differ only in how they await each byte, so both
/// decode any given byte sequence identically; `lemma_var_int_decoder_parity`
/// ties a run of this machine to the one-shot decode of the same stream.
pub struct VarIntDecoder {
    value: u32,
    count: u32,
    consumed: Ghost<Seq<u8>>,
}

impl VarIntDecoder {
    /// The continuation bytes fed so far.
    pub closed spec fn fed(self) -> Seq<u8> {
        self.consumed@
    }

    /// Well-formed: at most five continuation bytes are pending, and the
    /// accumulator holds exactly their data bits.
    pub closed spec fn wf(self) -> bool {
        &&& self.count == self.consumed@.len()
        &&& self.count <= 5
        &&& (forall|j: int|
            0 <= j < self.consumed@.len() ==> (#[trigger] self.consumed@[j]) & 0x80 != 0)
        &&& self.value == varint_partial(self.consumed@)
    }

    /// A decoder with no bytes pending.
    pub fn new() -> (r: VarIntDecoder)
        ensures
            r.wf(),
            r.fed() == Seq::<u8>::empty(),
    {
        VarIntDecoder { value: 0, count: 0, consumed: Ghost(Seq::empty()) }
    }

    /// How many continuation bytes are pending.
    pub fn pending(&self) -> (n: usize)
        requires
            self.wf(),
        ensures
            n == self.fed().len(),
    {
        self.count as usize
    }

    /// Feeds one byte. A terminating byte completes the value and resets the
    /// decoder; a continuation byte is accumulated; once five continuation
    /// bytes are pending every further byte is refused as too long.
    pub fn step(&mut self, byte: u8) -> (r: VarIntStep)
        requires
            old(self).wf(),
        ensures
            final(self).wf(),
            old(self).fed().len() == 5 ==> r == VarIntStep::TooLong && *final(self) == *old(self),
            old(self).fed().len() < 5 && byte & 0x80 != 0 ==> r == VarIntStep::NeedMore
                && final(self).fed() == old(self).fed() + seq![byte],
            old(self).fed().len() < 5 && byte & 0x80 == 0 ==> r == (VarIntStep::Done {
                value: (varint_partial(old(self).fed()) | (((byte & 0x7f) as u32) << ((7
                    * old(self).fed().len()) as u32))) as i32,
            }) && final(self).fed() == Seq::<u8>::empty(),
    {
        if self.count == 5 {
            return VarIntStep::TooLong;
        }
        let shift: u32 = 7 * self.count;
        let joined: u32 = self.value | (((byte & 0x7f) as u32) << shift);
        if byte & 0x80 == 0 {
            self.value = 0;
            self.count = 0;
            proof {
                self.consumed@ = Seq::<u8>::empty();
            }
            return VarIntStep::Done { value: joined as i32 };
        }
        self.value = joined;
        self.count = self.count + 1;
        proof {
            self.consumed@ = self.consumed@ + seq![byte];
            assert(self.consumed@.drop_last() =~= old(self).consumed@);
        }
        VarIntStep::NeedMore
    }
}

/// Law: sync/async parity. Decoding is a function of the delivered bytes
/// alone. A decoder that has been fed the first `k` bytes of a stream — all
/// carrying the continuation bit — stands exactly at the intermediate state
/// of the one-shot decode of that stream, so any adapter that feeds stream
/// bytes in order, blocking or suspendable, completes with precisely what
/// `spec_read_var_int` says of the stream.
pub proof fn lemma_var_int_decoder_parity(bytes: Seq<u8>, start: int, k: nat)
    requires
        0 <= start,
        k <= 5,
        start + k <= bytes.len(),
        forall|j: int| 0 <= j < k ==> (#[trigger] bytes[start + j]) & 0x80 != 0,
    ensures
        spec_read32_from(bytes, start, k, varint_partial(bytes.subrange(start, start + k)))
            == spec_read_var_int(bytes, start),
    decreases k,
{
    if k == 0 {
        assert(bytes.subrange(start, start) =~= Seq::<u8>::empty());
    } else {
        lemma_var_int_decoder_parity(bytes, start, (k - 1) as nat);
        let prev = bytes.subrange(start, start + k - 1);
        let cur = bytes.subrange(start, start + k);
        let b = bytes[start + k - 1];
        assert(cur.drop_last() =~= prev);
        assert(cur.last() == b);
        assert(b & 0x80 != 0);
    }
}

/// The data bits accumulated from a sequence of continuation bytes, each
/// contributing its low 7 bits at the next 7-bit offset.
pub open spec fn varlong_partial(bytes: Seq<u8>) -> u64
    decreases bytes.len(),
{
    if bytes.len() == 0 {
        0
    } else {
        varlong_partial(bytes.drop_last()) | (((bytes.last() & 0x7f) as u64) << ((7 * (bytes.len()
            - 1)) as u64))
    }
}

/// What one `VarLongDecoder::step` call reports.
#[derive(Clone, Copy, Debug, PartialEq, Eq, Structural)]
pub enum VarLongStep {
    /// A terminating byte arrived: the value is complete.
    Done { value: i64 },
    /// A continuation byte arrived: more bytes are needed.
    NeedMore,
    /// The 70-bit budget is exhausted: the sequence is malformed, and no
    /// further byte may be consumed.
    TooLong,
}

/// The VarLong decoding algorithm as a mode-agnostic state machine: bytes are
/// fed in one at a time, however they were obtained. A blocking adapter and
/// a suspendable adapter differ only in how they await each byte, so both
/// decode any given byte sequence identically; `lemma_var_long_decoder_parity`
/// ties a run of this machine to the one-shot decode of the same stream.
pub struct VarLongDecoder {
    value: u64,
    count: u32,
    consumed: Ghost<Seq<u8>>,
}

impl VarLongDecoder {
    /// The continuation bytes fed so far.
    pub closed spec fn fed(self) -> Seq<u8> {
        self.consumed@
    }

    /// Well-formed: at most ten continuation bytes are pending, and the
    /// accumulator holds exactly their data bits.
    pub closed spec fn wf(self) -> bool {
        &&& self.count == self.consumed@.len()
        &&& self.count <= 10
        &&& (forall|j: int|
            0 <= j < self.consumed@.len() ==> (#[trigger] self.consumed@[j]) & 0x80 != 0)
        &&& self.value == varlong_partial(self.consumed@)
    }

    /// A decoder with no bytes pending.
    pub fn new() -> (r: VarLongDecoder)
        ensures
            r.wf(),
            r.fed() == Seq::<u8>::empty(),
    {
        VarLongDecoder { value: 0, count: 0, consumed: Ghost(Seq::empty()) }
    }

    /// How many continuation bytes are pending.
    pub fn pending(&self) -> (n: usize)
        requires
            self.wf(),
        ensures
            n == self.fed().len(),
    {
        self.count as usize
    }

    /// Feeds one byte. A terminating byte completes the value and resets the
    /// decoder; a continuation byte is accumulated; once ten continuation
    /// bytes are pending every further byte is refused as too long.
    pub fn step(&mut self, byte: u8) -> (r: VarLongStep)
        requires
            old(self).wf(),
        ensures
            final(self).wf(),
            old(self).fed().len() == 10 ==> r == VarLongStep::TooLong && *final(self) == *old(self),
            old(self).fed().len() < 10 && byte & 0x80 != 0 ==> r == VarLongStep::NeedMore
                && final(self).fed() == old(self).fed() + seq![byte],
            old(self).fed().len() < 10 && byte & 0x80 == 0 ==> r == (VarLongStep::Done {
                value: (varlong_partial(old(self).fed()) | (((byte & 0x7f) as u64) << ((7
                    * old(self).fed().len()) as u64))) as i64,
            }) && final(self).fed() == Seq::<u8>::empty(),
    {
        if self.count == 10 {
            return VarLongStep::TooLong;
        }
        let shift: u32 = 7 * self.count;
        let joined: u64 = self.value | (((byte & 0x7f) as u64) << (shift as u64));
        if byte & 0x80 == 0 {
            self.value = 0;
            self.count = 0;
            proof {
                self.consumed@ = Seq::<u8>::empty();
            }
            return VarLongStep::Done { value: joined as i64 };
        }
        self.value = joined;
        self.count = self.count + 1;
        proof {
            self.consumed@ = self.consumed@ + seq![byte];
            assert(self.consumed@.drop_last() =~= old(self).consumed@);
        }
        VarLongStep::NeedMore
    }
}

/// Law: sync/async parity. Decoding is a function of the delivered bytes
/// alone. A decoder that has been fed the first `k` bytes of a stream — all
/// carrying the continuation bit — stands exactly at the intermediate state
/// of the one-shot decode of that stream, so any adapter that feeds stream
/// bytes in order, blocking or suspendable, completes with precisely what
/// `spec_read_var_long` says of the stream.
pub proof fn lemma_var_long_decoder_parity(bytes: Seq<u8>, start: int, k: nat)
    requires
        0 <= start,
        k <= 10,
        start + k <= bytes.len(),
        forall|j: int| 0 <= j < k ==> (#[trigger] bytes[start + j]) & 0x80 != 0,
    ensures
        spec_read64_from(bytes, start, k, varlong_partial(bytes.subrange(start, start + k)))
            == spec_read_var_long(bytes, start),
    decreases k,
{
    if k == 0 {
        assert(bytes.subrange(start, start) =~= Seq::<u8>::empty());
    } else {
        lemma_var_long_decoder_parity(bytes, start, (k - 1) as nat);
        let prev = bytes.subrange(start, start + k - 1);
        let cur = bytes.subrange(start, start + k);
        let b = bytes[start + k - 1];
        assert(cur.drop_last() =~= prev);
        assert(cur.last() == b);
        assert(b & 0x80 != 0);
    }
}


/// Law: completion parity. When a terminating byte follows `k` continuation
/// bytes, the value a byte-at-a-time decoder completes with — its pending
/// data bits joined with the terminator's — is exactly the value the
/// one-shot decode of the stream yields, consuming exactly those bytes.
pub proof fn lemma_var_int_decoder_completion(bytes: Seq<u8>, start: int, k: nat)
    requires
        0 <= start,
        k < 5,
        start + k < bytes.len(),
        forall|j: int| 0 <= j < k ==> (#[trigger] bytes[start + j]) & 0x80 != 0,
        bytes[start + k] & 0x80 == 0,
    ensures
        spec_read_var_int(bytes, start) == (VarIntDecode::Value {
            value: varint_partial(bytes.subrange(start, start + k)) | (((bytes[start + k]
                & 0x7f) as u32) << ((7 * k) as u32)),
            consumed: k + 1,
        }),
{
    lemma_var_int_decoder_parity(bytes, start, k);
}

/// Law: completion parity for VarLong, with the ten-byte budget.
pub proof fn lemma_var_long_decoder_completion(bytes: Seq<u8>, start: int, k: nat)
    requires
        0 <= start,
        k < 10,
        start + k < bytes.len(),
        forall|j: int| 0 <= j < k ==> (#[trigger] bytes[start + j]) & 0x80 != 0,
        bytes[start + k] & 0x80 == 0,
    ensures
        spec_read_var_long(bytes, start) == (VarLongDecode::Value {
            value: varlong_partial(bytes.subrange(start, start + k)) | (((bytes[start + k]
                & 0x7f) as u64) << ((7 * k) as u64)),
            consumed: k + 1,
        }),
{
    lemma_var_long_decoder_parity(bytes, start, k);
}

/// Law: malformed input rejection. Five consecutive bytes with the
/// continuation bit set exhaust the VarInt budget: decoding fails as
/// malformed without looking at a sixth byte.
pub proof fn lemma_var_int_malformed(bytes: Seq<u8>, start: int)
    requires
        0 <= start,
        start + 5 <= bytes.len(),
        forall|j: int| 0 <= j < 5 ==> #[trigger] bytes[start + j] & 0x80 != 0,
    ensures
        spec_read_var_int(bytes, start) == VarIntDecode::Malformed,
{
    reveal_with_fuel(spec_read32_from, 6);
    assert(bytes[start + 0] & 0x80 != 0);
    assert(bytes[start + 1] & 0x80 != 0);
    assert(bytes[start + 2] & 0x80 != 0);
    assert(bytes[start + 3] & 0x80 != 0);
    assert(bytes[start + 4] & 0x80 != 0);
}

/// Law: malformed input rejection for VarLong, with a ten-byte budget.
pub proof fn lemma_var_long_malformed(bytes: Seq<u8>, start: int)
    requires
        0 <= start,
        start + 10 <= bytes.len(),
        forall|j: int| 0 <= j < 10 ==> #[trigger] bytes[start + j] & 0x80 != 0,
    ensures
        spec_read_var_long(bytes, start) == VarLongDecode::Malformed,
{
    reveal_with_fuel(spec_read64_from, 11);
    assert(bytes[start + 0] & 0x80 != 0);
    assert(bytes[start + 1] & 0x80 != 0);
    assert(bytes[start + 2] & 0x80 != 0);
    assert(bytes[start + 3] & 0x80 != 0);
    assert(bytes[start + 4] & 0x80 != 0);
    assert(bytes[start + 5] & 0x80 != 0);
    assert(bytes[start + 6] & 0x80 != 0);
    assert(bytes[start + 7] & 0x80 != 0);
    assert(bytes[start + 8] & 0x80 != 0);
    assert(bytes[start + 9] & 0x80 != 0);
}

} // verus!
