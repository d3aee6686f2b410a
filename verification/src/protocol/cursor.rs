//! A read position over a borrowed byte buffer.

use vstd::prelude::*;
use vstd::slice::slice_subrange;

verus! {

/// Reads bytes front to back from a borrowed buffer.
pub struct Cursor<'a> {
    data: &'a [u8],
    pos: usize,
}

impl<'a> View for Cursor<'a> {
    type V = Seq<u8>;

    /// The bytes that have not been read yet.
    closed spec fn view(&self) -> Seq<u8> {
        self.data@.skip(self.pos as int)
    }
}

impl<'a> Cursor<'a> {
    #[verifier::type_invariant]
    spec fn in_bounds(self) -> bool {
        self.pos <= self.data@.len()
    }

    /// The whole underlying buffer, read or not.
    pub closed spec fn buffer(&self) -> Seq<u8> {
        self.data@
    }

    /// Number of bytes read so far.
    pub closed spec fn consumed(&self) -> nat {
        self.pos as nat
    }

    /// Whether this cursor reads the same buffer as `before` and stands at
    /// the same place or further on.
    pub open spec fn follows(&self, before: Cursor) -> bool {
        self.buffer() == before.buffer() && self.consumed() >= before.consumed()
    }

    /// Starts reading at the first byte of `data`.
    pub fn new(data: &'a [u8]) -> (c: Self)
        ensures
            c@ == data@,
            c.buffer() == data@,
            c.consumed() == 0,
    {
        Cursor { data, pos: 0 }
    }

    /// Number of bytes read so far.
    pub fn position(&self) -> (p: u64)
        ensures
            p == self.consumed(),
            self.consumed() <= self.buffer().len(),
            self@ == self.buffer().skip(self.consumed() as int),
    {
        proof {
            use_type_invariant(self);
        }
        self.pos as u64
    }

    /// Number of bytes read so far, as an index into the buffer.
    pub fn offset(&self) -> (p: usize)
        ensures
            p == self.consumed(),
            self.consumed() <= self.buffer().len(),
            self@ == self.buffer().skip(self.consumed() as int),
    {
        proof {
            use_type_invariant(self);
        }
        self.pos
    }

    /// Number of bytes left to read.
    pub fn remaining(&self) -> (n: usize)
        ensures
            n == self@.len(),
            self.consumed() + n == self.buffer().len(),
            self.buffer().len() <= usize::MAX,
    {
        proof {
            use_type_invariant(self);
        }
        self.data.len() - self.pos
    }

    /// Reads one byte, or reports that none is left.
    pub fn read_byte(&mut self) -> (r: Option<u8>)
        ensures
            final(self).follows(*old(self)),
            match r {
                Some(b) => old(self)@.len() > 0 && b == old(self)@[0] && final(self)@ == old(self)@.skip(1) && final(self).consumed() == old(self).consumed() + 1,
                None => old(self)@.len() == 0 && *final(self) == *old(self),
            },
    {
        proof {
            use_type_invariant(&*self);
        }
        if self.pos < self.data.len() {
            let b = self.data[self.pos];
            self.pos = self.pos + 1;
            assert(self.data@.skip(self.pos as int) =~= old(self).data@.skip(
                old(self).pos as int,
            ).skip(1));
            Some(b)
        } else {
            None
        }
    }

    /// Reads the next `n` bytes, or reports that fewer are left and reads
    /// nothing.
    pub fn take(&mut self, n: usize) -> (r: Option<&'a [u8]>)
        ensures
            final(self).follows(*old(self)),
            match r {
                Some(s) => n <= old(self)@.len() && s@ == old(self)@.take(n as int) && final(self)@ == old(self)@.skip(n as int) && final(self).consumed() == old(self).consumed()
                    + n,
                None => n > old(self)@.len() && *final(self) == *old(self),
            },
    {
        proof {
            use_type_invariant(&*self);
        }
        if n <= self.data.len() - self.pos {
            let s = slice_subrange(self.data, self.pos, self.pos + n);
            self.pos = self.pos + n;
            assert(s@ =~= old(self).data@.skip(old(self).pos as int).take(n as int));
            assert(self.data@.skip(self.pos as int) =~= old(self).data@.skip(
                old(self).pos as int,
            ).skip(n as int));
            Some(s)
        } else {
            None
        }
    }

    /// Moves the read position to `consumed` bytes from the start of the
    /// buffer, if the buffer is that long; says whether it is.
    pub fn seek(&mut self, consumed: usize) -> (moved: bool)
        ensures
            final(self).buffer() == old(self).buffer(),
            moved == (consumed <= old(self).buffer().len()),
            moved ==> final(self).consumed() == consumed && final(self)@ == old(self).buffer().skip(
                consumed as int,
            ),
            !moved ==> *final(self) == *old(self),
    {
        proof {
            use_type_invariant(&*self);
        }
        if consumed <= self.data.len() {
            self.pos = consumed;
            true
        } else {
            false
        }
    }

    /// The bytes not read yet, without reading them.
    pub fn rest(&self) -> (s: &'a [u8])
        ensures
            s@ == self@,
    {
        proof {
            use_type_invariant(self);
        }
        slice_subrange(self.data, self.pos, self.data.len())
    }
}

} // verus!
