//! Variable-length integers for the byte-level packet readers, which report
//! failures as classes of I/O error.

use vstd::prelude::*;
use vstd::std_specs::convert::FromSpecImpl;

use crate::error::{ErrorKind, Fault, IoResult};
use crate::protocol::cursor::Cursor;
use crate::protocol::types;
use crate::protocol::wire::{parse_varint, signed32, varint_bytes, varint_rest, Parsed};

verus! {

/// Whether what a byte-level reader returned, and where it left the input,
/// is what the wire format prescribes for the bytes it was given.
pub open spec fn io_decodes<T: View>(r: IoResult<T>, after: Seq<u8>, expected: Parsed<T::V>) -> bool {
    match r {
        Ok(v) => expected == Ok::<(T::V, Seq<u8>), Fault>((v@, after)),
        Err(kind) => expected is Err && kind.fault() == Some(expected->Err_0),
    }
}

/// A variable-length integer as used in the protocol.
#[derive(Debug, Clone, Copy, PartialEq, Eq, Structural)]
pub struct VarInt(pub i32);

impl View for VarInt {
    type V = int;

    open spec fn view(&self) -> int {
        self.0 as int
    }
}

impl VarInt {
    /// Maximum number of bytes a VarInt can use.
    pub const MAX_SIZE: usize = 5;

    /// Reads a VarInt. A short input is an unexpected end of file, more
    /// than five bytes are invalid data.
    pub fn read(reader: &mut Cursor) -> (r: IoResult<VarInt>)
        ensures
            final(reader).follows(*old(reader)),
            final(reader)@ == varint_rest(old(reader)@),
            io_decodes(r, final(reader)@, parse_varint(old(reader)@)),
    {
        match types::VarInt::read(reader) {
            Ok(v) => Ok(VarInt(v.0)),
            Err(e) => Err(e.kind()),
        }
    }

    /// Appends the encoding of the value to `writer`.
    pub fn write(&self, writer: &mut Vec<u8>) -> (r: IoResult<()>)
        ensures
            r is Ok,
            final(writer)@ == old(writer)@ + varint_bytes(self@),
    {
        let _ = types::VarInt(self.0).write(writer);
        Ok(())
    }

    /// Number of bytes this VarInt uses when encoded.
    pub fn size(&self) -> (n: usize)
        ensures
            n == varint_bytes(self@).len(),
            1 <= n <= 5,
    {
        types::VarInt(self.0).len()
    }

    /// Reads a VarInt from the start of a byte slice and says how many
    /// bytes it took.
    pub fn from_bytes(bytes: &[u8]) -> (r: core::result::Result<(VarInt, usize), ErrorKind>)
        ensures
            match r {
                Ok((value, taken)) => parse_varint(bytes@) == Ok::<(int, Seq<u8>), Fault>(
                    (value@, bytes@.skip(taken as int)),
                ) && 1 <= taken <= 5 && taken <= bytes@.len(),
                Err(kind) => parse_varint(bytes@) is Err && kind.fault() == Some(
                    parse_varint(bytes@)->Err_0,
                ),
            },
    {
        let mut cursor = Cursor::new(bytes);
        let value = Self::read(&mut cursor)?;
        let taken = cursor.offset();
        proof {
            crate::protocol::wire::lemma_parse_varint_prefix(bytes@);
        }
        Ok((value, taken))
    }

    /// The encoding of the value.
    pub fn to_bytes(self) -> (bytes: Vec<u8>)
        ensures
            bytes@ == varint_bytes(self@),
    {
        let mut bytes: Vec<u8> = Vec::new();
        let _ = self.write(&mut bytes);
        assert(bytes@ =~= varint_bytes(self@));
        bytes
    }
}

impl From<i32> for VarInt {
    fn from(value: i32) -> (r: Self) {
        VarInt(value)
    }
}

impl FromSpecImpl<i32> for VarInt {
    open spec fn obeys_from_spec() -> bool {
        true
    }

    open spec fn from_spec(v: i32) -> Self {
        VarInt(v)
    }
}

impl From<VarInt> for i32 {
    fn from(varint: VarInt) -> (r: Self) {
        varint.0
    }
}

impl FromSpecImpl<VarInt> for i32 {
    open spec fn obeys_from_spec() -> bool {
        true
    }

    open spec fn from_spec(v: VarInt) -> Self {
        v.0
    }
}

impl From<usize> for VarInt {
    /// The VarInt whose bit pattern is the low 32 bits of `value`.
    fn from(value: usize) -> (r: Self) {
        let low = (value as u64) % 0x1_0000_0000;
        if low < 0x8000_0000 {
            VarInt(low as i32)
        } else {
            VarInt(((low as i64) - 0x1_0000_0000) as i32)
        }
    }
}

impl FromSpecImpl<usize> for VarInt {
    open spec fn obeys_from_spec() -> bool {
        true
    }

    open spec fn from_spec(v: usize) -> Self {
        VarInt(signed32(v as nat) as i32)
    }
}

} // verus!
