//! The generic transport capability: a uniform read/write/size contract that
//! any type can implement to travel over the codec layer, demonstrated by a
//! 128-bit universally-unique identifier carried as two big-endian 64-bit
//! halves with a fixed wire size of 16 bytes.

use vstd::prelude::*;

verus! {

use crate::context::TransportProcessorContext;
use crate::error::Error;

/// The 8-byte big-endian wire form of a 64-bit value.
pub open spec fn u64_wire_bytes(v: u64) -> Seq<u8> {
    seq![
        (v >> 56u64) as u8,
        (v >> 48u64) as u8,
        (v >> 40u64) as u8,
        (v >> 32u64) as u8,
        (v >> 24u64) as u8,
        (v >> 16u64) as u8,
        (v >> 8u64) as u8,
        v as u8,
    ]
}

/// The capability a type implements to take part in the codec framework:
/// write a value's wire form, read one back, and report its exact wire size
/// without writing. Each implementation pins all three operations to one
/// `wire_bytes` model, so that what `write_to_transport` emits is what
/// `read_from_transport` consumes and what `precondition_size` counts.
pub trait DraxTransport: Sized {
    /// The exact byte sequence this value takes on the wire.
    spec fn wire_bytes(&self) -> Seq<u8>;

    /// Writes the value's wire form to `writer`; on success exactly
    /// `wire_bytes` has been appended.
    fn write_to_transport(
        &self,
        context: &mut TransportProcessorContext,
        writer: &mut Vec<u8>,
    ) -> (r: Result<(), Error>)
        ensures
            r is Ok ==> final(writer)@ == old(writer)@ + self.wire_bytes(),
    ;

    /// Reads a value from `data` at `*pos`; on success the bytes consumed
    /// are exactly the returned value's wire form.
    fn read_from_transport(
        context: &mut TransportProcessorContext,
        data: &Vec<u8>,
        pos: &mut usize,
    ) -> (r: Result<Self, Error>)
        requires
            *old(pos) <= data@.len(),
        ensures
            *final(pos) <= data@.len(),
            r matches Ok(v) ==> *old(pos) + v.wire_bytes().len() == *final(pos) && data@.subrange(
                *old(pos) as int,
                *final(pos) as int,
            ) == v.wire_bytes(),
    ;

    /// The wire size of the value, computed with no side effect on the
    /// context or any stream.
    fn precondition_size(&self, context: &mut TransportProcessorContext) -> (r: Result<
        usize,
        Error,
    >)
        ensures
            r matches Ok(n) ==> n == self.wire_bytes().len(),
    ;
}

impl DraxTransport for u64 {
    open spec fn wire_bytes(&self) -> Seq<u8> {
        u64_wire_bytes(*self)
    }

    fn write_to_transport(
        &self,
        _context: &mut TransportProcessorContext,
        writer: &mut Vec<u8>,
    ) -> (r: Result<(), Error>)
        ensures
            r == Ok::<(), Error>(()),
            final(writer)@ == old(writer)@ + self.wire_bytes(),
    {
        let v: u64 = *self;
        writer.push((v >> 56u64) as u8);
        writer.push((v >> 48u64) as u8);
        writer.push((v >> 40u64) as u8);
        writer.push((v >> 32u64) as u8);
        writer.push((v >> 24u64) as u8);
        writer.push((v >> 16u64) as u8);
        writer.push((v >> 8u64) as u8);
        writer.push(v as u8);
        proof {
            assert(writer@ =~= old(writer)@ + u64_wire_bytes(v));
        }
        Ok(())
    }

    fn read_from_transport(
        _context: &mut TransportProcessorContext,
        data: &Vec<u8>,
        pos: &mut usize,
    ) -> (r: Result<u64, Error>)
        ensures
            *old(pos) + 8 <= data@.len() ==> r is Ok,
            *old(pos) + 8 > data@.len() ==> r == Err::<u64, Error>(Error::ShortRead)
                && *final(pos) == data@.len(),
    {
        let p: usize = *pos;
        let dlen: usize = data.len();
        if dlen - p < 8 {
            *pos = dlen;
            return Err(Error::ShortRead);
        }
        let b0: u8 = data[p];
        let b1: u8 = data[p + 1];
        let b2: u8 = data[p + 2];
        let b3: u8 = data[p + 3];
        let b4: u8 = data[p + 4];
        let b5: u8 = data[p + 5];
        let b6: u8 = data[p + 6];
        let b7: u8 = data[p + 7];
        let v: u64 = ((b0 as u64) << 56u64) | ((b1 as u64) << 48u64) | ((b2 as u64) << 40u64) | ((
        b3 as u64) << 32u64) | ((b4 as u64) << 24u64) | ((b5 as u64) << 16u64) | ((b6 as u64)
            << 8u64) | (b7 as u64);
        *pos = p + 8;
        proof {
            assert(((v >> 56u64) as u8) == b0 && ((v >> 48u64) as u8) == b1 && ((v >> 40u64) as u8)
                == b2 && ((v >> 32u64) as u8) == b3 && ((v >> 24u64) as u8) == b4 && ((v
                >> 16u64) as u8) == b5 && ((v >> 8u64) as u8) == b6 && (v as u8) == b7)
                by (bit_vector)
                requires
                    v == ((b0 as u64) << 56u64) | ((b1 as u64) << 48u64) | ((b2 as u64) << 40u64) | (
                    (b3 as u64) << 32u64) | ((b4 as u64) << 24u64) | ((b5 as u64) << 16u64) | ((
                    b6 as u64) << 8u64) | (b7 as u64),
            ;
            assert(data@.subrange(p as int, p + 8) =~= u64_wire_bytes(v));
        }
        Ok(v)
    }

    fn precondition_size(&self, _context: &mut TransportProcessorContext) -> (r: Result<
        usize,
        Error,
    >)
        ensures
            r == Ok::<usize, Error>(8),
    {
        Ok(8)
    }
}

/// A 128-bit universally-unique identifier, held as its two 64-bit halves,
/// most-significant half first.
#[derive(Clone, Copy, Debug, PartialEq, Eq, Structural)]
pub struct Uuid {
    pub most_significant: u64,
    pub least_significant: u64,
}

impl Uuid {
    /// Builds a UUID from its most- and least-significant 64-bit halves.
    pub fn from_u64_pair(most_significant: u64, least_significant: u64) -> (r: Uuid)
        ensures
            r == (Uuid { most_significant, least_significant }),
    {
        Uuid { most_significant, least_significant }
    }

    /// The two 64-bit halves, most-significant first.
    pub fn as_u64_pair(&self) -> (r: (u64, u64))
        ensures
            r == (self.most_significant, self.least_significant),
    {
        (self.most_significant, self.least_significant)
    }
}

impl DraxTransport for Uuid {
    open spec fn wire_bytes(&self) -> Seq<u8> {
        u64_wire_bytes(self.most_significant) + u64_wire_bytes(self.least_significant)
    }

    fn write_to_transport(
        &self,
        context: &mut TransportProcessorContext,
        writer: &mut Vec<u8>,
    ) -> (r: Result<(), Error>)
        ensures
            r == Ok::<(), Error>(()),
            final(writer)@ == old(writer)@ + self.wire_bytes(),
    {
        match u64::write_to_transport(&self.most_significant, context, writer) {
            Ok(_) => {},
            Err(e) => {
                return Err(e);
            },
        }
        let r = u64::write_to_transport(&self.least_significant, context, writer);
        proof {
            if r is Ok {
                assert(old(writer)@ + u64_wire_bytes(self.most_significant) + u64_wire_bytes(
                    self.least_significant,
                ) =~= old(writer)@ + self.wire_bytes());
            }
        }
        r
    }

    fn read_from_transport(
        context: &mut TransportProcessorContext,
        data: &Vec<u8>,
        pos: &mut usize,
    ) -> (r: Result<Uuid, Error>)
        ensures
            *old(pos) + 16 <= data@.len() ==> r is Ok,
            *old(pos) + 16 > data@.len() ==> r == Err::<Uuid, Error>(Error::ShortRead)
                && *final(pos) == data@.len(),
    {
        let ghost p0 = *pos;
        let most_significant: u64 = match u64::read_from_transport(context, data, pos) {
            Ok(v) => v,
            Err(e) => {
                return Err(e);
            },
        };
        let ghost p1 = *pos;
        let least_significant: u64 = match u64::read_from_transport(context, data, pos) {
            Ok(v) => v,
            Err(e) => {
                return Err(e);
            },
        };
        let value = Uuid { most_significant, least_significant };
        proof {
            assert(data@.subrange(p0 as int, *pos as int) =~= data@.subrange(p0 as int, p1 as int)
                + data@.subrange(p1 as int, *pos as int));
        }
        Ok(value)
    }

    fn precondition_size(&self, _context: &mut TransportProcessorContext) -> (r: Result<
        usize,
        Error,
    >)
        ensures
            r == Ok::<usize, Error>(16),
    {
        Ok(16)
    }
}

/// Law: fixed size. The wire form of any UUID is exactly 16 bytes — the two
/// big-endian 64-bit halves — whatever its value; `precondition_size` is
/// pinned to that length.
pub proof fn lemma_uuid_wire_size(u: Uuid)
    ensures
        u.wire_bytes().len() == 16,
{
}

} // verus!
