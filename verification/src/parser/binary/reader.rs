//! Byte source that knows how many bytes it has handed out.

use vstd::prelude::*;
use super::error::IoError;
use super::primitive::{decode_u16, decode_u32, decode_u64, le_u16, le_u32, le_u64};

verus! {

/// Forward-only cursor over the bytes of a document.
#[derive(Debug)]
pub struct CountReader {
    data: Vec<u8>,
    pos: usize,
}

impl CountReader {
    /// All bytes of the source, consumed or not.
    pub closed spec fn bytes(&self) -> Seq<u8> {
        self.data@
    }

    /// Number of bytes consumed so far.
    pub closed spec fn position(&self) -> nat {
        self.pos as nat
    }

    /// The cursor never lies beyond the end of the source.
    pub open spec fn wf(&self) -> bool {
        self.position() <= self.bytes().len()
    }

    /// The bytes not yet consumed.
    pub open spec fn rest(&self) -> Seq<u8> {
        self.bytes().skip(self.position() as int)
    }

    /// Wraps `data` with the cursor at its first byte.
    pub fn new(data: Vec<u8>) -> (reader: CountReader)
        ensures
            reader.wf(),
            reader.bytes() == data@,
            reader.position() == 0,
    {
        CountReader { data, pos: 0 }
    }

    /// Returns the number of bytes consumed so far.
    pub fn count(&self) -> (n: u64)
        ensures
            n == self.position(),
    {
        self.pos as u64
    }

    /// Returns the number of bytes not yet consumed.
    pub fn remaining(&self) -> (n: usize)
        requires
            self.wf(),
        ensures
            n == self.bytes().len() - self.position(),
    {
        self.data.len() - self.pos
    }

    /// Returns the unconsumed bytes without moving the cursor.
    pub fn peek(&self) -> (rest: &[u8])
        requires
            self.wf(),
        ensures
            rest@ == self.rest(),
            self.bytes().len() <= usize::MAX,
    {
        assert(self.data@.len() == self.data.len());
        let rest = vstd::slice::slice_subrange(self.data.as_slice(), self.pos, self.data.len());
        assert(rest@ =~= self.rest());
        rest
    }

    /// Moves the cursor forward over `n` bytes that are known to be there.
    pub fn advance(&mut self, n: usize)
        requires
            old(self).wf(),
            old(self).position() + n <= old(self).bytes().len(),
        ensures
            final(self).wf(),
            final(self).bytes() == old(self).bytes(),
            final(self).position() == old(self).position() + n,
    {
        assert(self.data@.len() == self.data.len());
        self.pos = self.pos + n;
    }

    /// Moves the cursor forward by `n` bytes, or fails and leaves it in place
    /// when fewer than `n` bytes are left.
    pub fn skip(&mut self, n: u64) -> (r: Result<(), IoError>)
        requires
            old(self).wf(),
        ensures
            final(self).wf(),
            final(self).bytes() == old(self).bytes(),
            r == if old(self).position() + n <= old(self).bytes().len() {
                Ok::<(), IoError>(())
            } else {
                Err(IoError::UnexpectedEof)
            },
            final(self).position() == if r is Ok {
                old(self).position() + n
            } else {
                old(self).position() as int
            },
    {
        let left: usize = self.data.len() - self.pos;
        if n <= left as u64 {
            self.pos = self.pos + n as usize;
            Ok(())
        } else {
            Err(IoError::UnexpectedEof)
        }
    }

    /// Moves the cursor forward to the absolute offset `target`, or fails and
    /// leaves it in place when the source is shorter than that.
    pub fn skip_to(&mut self, target: u64) -> (r: Result<(), IoError>)
        requires
            old(self).wf(),
            old(self).position() <= target,
        ensures
            final(self).wf(),
            final(self).bytes() == old(self).bytes(),
            r == if target <= old(self).bytes().len() {
                Ok::<(), IoError>(())
            } else {
                Err(IoError::UnexpectedEof)
            },
            final(self).position() == if r is Ok {
                target as int
            } else {
                old(self).position() as int
            },
    {
        if target <= self.data.len() as u64 {
            self.pos = target as usize;
            Ok(())
        } else {
            Err(IoError::UnexpectedEof)
        }
    }

    /// Consumes `n` bytes and returns a copy of them, or fails and leaves the
    /// cursor in place when fewer than `n` bytes are left.
    pub fn read_exact(&mut self, n: usize) -> (r: Result<Vec<u8>, IoError>)
        requires
            old(self).wf(),
        ensures
            final(self).wf(),
            final(self).bytes() == old(self).bytes(),
            (r is Ok) == (old(self).position() + n <= old(self).bytes().len()),
            r matches Ok(v) ==> v@ == old(self).rest().take(n as int)
                && final(self).position() == old(self).position() + n,
            r matches Err(e) ==> e == IoError::UnexpectedEof
                && final(self).position() == old(self).position(),
    {
        let left: usize = self.data.len() - self.pos;
        if n <= left {
            let end: usize = self.pos + n;
            let part = vstd::slice::slice_subrange(self.data.as_slice(), self.pos, end);
            let out = vstd::slice::slice_to_vec(part);
            assert(out@ =~= self.rest().take(n as int));
            self.pos = end;
            Ok(out)
        } else {
            Err(IoError::UnexpectedEof)
        }
    }

    /// Consumes one byte.
    pub fn read_u8(&mut self) -> (r: Result<u8, IoError>)
        requires
            old(self).wf(),
        ensures
            final(self).wf(),
            final(self).bytes() == old(self).bytes(),
            r == if old(self).rest().len() >= 1 {
                Ok::<u8, IoError>(old(self).rest()[0])
            } else {
                Err(IoError::UnexpectedEof)
            },
            final(self).position() == old(self).position() + if r is Ok { 1int } else { 0int },
    {
        if self.pos < self.data.len() {
            let v: u8 = self.data[self.pos];
            self.pos = self.pos + 1;
            Ok(v)
        } else {
            Err(IoError::UnexpectedEof)
        }
    }

    /// Consumes a little-endian `u16`.
    pub fn read_u16(&mut self) -> (r: Result<u16, IoError>)
        requires
            old(self).wf(),
        ensures
            final(self).wf(),
            final(self).bytes() == old(self).bytes(),
            r == if old(self).rest().len() >= 2 {
                Ok::<u16, IoError>(le_u16(old(self).rest()))
            } else {
                Err(IoError::UnexpectedEof)
            },
            final(self).position() == old(self).position() + if r is Ok { 2int } else { 0int },
    {
        if self.data.len() - self.pos >= 2 {
            let v: u16 = decode_u16(self.data.as_slice(), self.pos);
            self.pos = self.pos + 2;
            Ok(v)
        } else {
            Err(IoError::UnexpectedEof)
        }
    }

    /// Consumes a little-endian `u32`.
    pub fn read_u32(&mut self) -> (r: Result<u32, IoError>)
        requires
            old(self).wf(),
        ensures
            final(self).wf(),
            final(self).bytes() == old(self).bytes(),
            r == if old(self).rest().len() >= 4 {
                Ok::<u32, IoError>(le_u32(old(self).rest()))
            } else {
                Err(IoError::UnexpectedEof)
            },
            final(self).position() == old(self).position() + if r is Ok { 4int } else { 0int },
    {
        if self.data.len() - self.pos >= 4 {
            let v: u32 = decode_u32(self.data.as_slice(), self.pos);
            self.pos = self.pos + 4;
            Ok(v)
        } else {
            Err(IoError::UnexpectedEof)
        }
    }

    /// Consumes a little-endian `u64`.
    pub fn read_u64(&mut self) -> (r: Result<u64, IoError>)
        requires
            old(self).wf(),
        ensures
            final(self).wf(),
            final(self).bytes() == old(self).bytes(),
            r == if old(self).rest().len() >= 8 {
                Ok::<u64, IoError>(le_u64(old(self).rest()))
            } else {
                Err(IoError::UnexpectedEof)
            },
            final(self).position() == old(self).position() + if r is Ok { 8int } else { 0int },
    {
        if self.data.len() - self.pos >= 8 {
            let v: u64 = decode_u64(self.data.as_slice(), self.pos);
            self.pos = self.pos + 8;
            Ok(v)
        } else {
            Err(IoError::UnexpectedEof)
        }
    }
}

} // verus!
