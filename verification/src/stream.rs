//! Seekable byte streams, and one that lives in memory.
//!
//! A stream is a sequence of bytes and a position in it. Reading takes bytes from
//! the position on, writing replaces bytes from the position on and lets the stream
//! grow at its end, and seeking moves the position anywhere from the first byte to
//! just behind the last.

use crate::xor::overwrite;
use vstd::prelude::*;

verus! {

/// Where to seek to: counted from the start, from the end, or from the position.
#[derive(Clone, Copy, Debug, PartialEq, Eq, Structural)]
pub enum SeekFrom {
    Start(u64),
    End(i64),
    Current(i64),
}

/// Why a stream operation failed.
#[derive(Clone, Copy, Debug, PartialEq, Eq, Structural)]
pub enum StreamError {
    /// The position sought lies before the first byte or beyond the end.
    InvalidSeek,
}

/// The position that a seek asks for, in a stream of `len` bytes whose position is
/// `position`.
pub open spec fn seek_target(len: int, position: int, to: SeekFrom) -> int {
    match to {
        SeekFrom::Start(offset) => offset as int,
        SeekFrom::End(offset) => len + offset,
        SeekFrom::Current(offset) => position + offset,
    }
}

/// What a buffer holds after `count` bytes were read into it from `position` on:
/// those bytes in front, and behind them what it held before.
pub open spec fn filled(buf: Seq<u8>, bytes: Seq<u8>, position: int, count: int) -> Seq<u8> {
    bytes.subrange(position, position + count) + buf.skip(count)
}

/// The outcome of an operation, with a count or a position as a natural number.
pub open spec fn outcome_view(r: Result<usize, StreamError>) -> Result<nat, StreamError> {
    match r {
        Ok(count) => Ok(count as nat),
        Err(e) => Err(e),
    }
}

/// The outcome of a seek, with the position as a natural number.
pub open spec fn seek_view(r: Result<u64, StreamError>) -> Result<nat, StreamError> {
    match r {
        Ok(position) => Ok(position as nat),
        Err(e) => Err(e),
    }
}

/// A seekable stream of bytes.
///
/// What an operation returns is a function of the stream's state, named by the
/// `..._outcome` functions; what it does to the stream is stated over the stream's
/// bytes and position.
pub trait ByteStream: Sized {
    /// All bytes of the stream.
    spec fn bytes(&self) -> Seq<u8>;

    /// The position at which the next read or write takes place.
    spec fn position(&self) -> nat;

    /// Whether the stream is in a state that its operations accept. Every stream
    /// starts out so, and every operation keeps it so.
    spec fn wf(&self) -> bool;

    /// What a read into a buffer of `room` bytes returns: the number of bytes read,
    /// or an error.
    spec fn read_outcome(&self, room: nat) -> Result<nat, StreamError>;

    /// What a write of `len` bytes returns: the number of bytes written, or an error.
    spec fn write_outcome(&self, len: nat) -> Result<nat, StreamError>;

    /// What a flush returns.
    spec fn flush_outcome(&self) -> Result<(), StreamError>;

    /// What a seek returns: the new position, or an error.
    spec fn seek_outcome(&self, to: SeekFrom) -> Result<nat, StreamError>;

    /// Reads bytes from the position on into the front of `buf`, as many as the
    /// stream gives and at most as many as `buf` holds, and moves the position
    /// behind them. The rest of `buf` stays as it is, and so does the stream's
    /// content. A failed read changes nothing.
    fn read(&mut self, buf: &mut Vec<u8>) -> (r: Result<usize, StreamError>)
        requires
            old(self).wf(),
        ensures
            final(self).wf(),
            final(self).bytes() == old(self).bytes(),
            outcome_view(r) == old(self).read_outcome(old(buf)@.len()),
            match r {
                Ok(count) => {
                    &&& count <= old(buf)@.len()
                    &&& old(self).position() + count <= old(self).bytes().len()
                    &&& final(self).position() == old(self).position() + count
                    &&& final(buf)@ == filled(
                        old(buf)@,
                        old(self).bytes(),
                        old(self).position() as int,
                        count as int,
                    )
                },
                Err(_) => final(self).position() == old(self).position() && final(buf)@ == old(
                    buf,
                )@,
            },
    ;

    /// Writes bytes from the front of `buf` over the stream from the position on, as
    /// many as the stream takes, and moves the position behind them. A failed write
    /// changes nothing.
    fn write(&mut self, buf: &[u8]) -> (r: Result<usize, StreamError>)
        requires
            old(self).wf(),
        ensures
            final(self).wf(),
            outcome_view(r) == old(self).write_outcome(buf@.len()),
            match r {
                Ok(count) => {
                    &&& count <= buf@.len()
                    &&& old(self).position() <= old(self).bytes().len()
                    &&& final(self).position() == old(self).position() + count
                    &&& final(self).bytes() == overwrite(
                        old(self).bytes(),
                        old(self).position() as int,
                        buf@.take(count as int),
                    )
                },
                Err(_) => final(self).bytes() == old(self).bytes() && final(self).position()
                    == old(self).position(),
            },
    ;

    /// Makes sure that what was written has reached the backing store. Content and
    /// position stay as they are.
    fn flush(&mut self) -> (r: Result<(), StreamError>)
        requires
            old(self).wf(),
        ensures
            final(self).wf(),
            r == old(self).flush_outcome(),
            final(self).bytes() == old(self).bytes(),
            final(self).position() == old(self).position(),
    ;

    /// Moves the position and returns the new one. The content stays as it is, and a
    /// failed seek leaves the position where it was.
    fn seek(&mut self, to: SeekFrom) -> (r: Result<u64, StreamError>)
        requires
            old(self).wf(),
        ensures
            final(self).wf(),
            final(self).bytes() == old(self).bytes(),
            seek_view(r) == old(self).seek_outcome(to),
            match r {
                Ok(position) => {
                    &&& position == seek_target(
                        old(self).bytes().len() as int,
                        old(self).position() as int,
                        to,
                    )
                    &&& position <= old(self).bytes().len()
                    &&& final(self).position() == position
                },
                Err(_) => final(self).position() == old(self).position(),
            },
    ;
}

/// A stream over a vector of bytes in memory.
#[derive(Debug)]
pub struct MemoryStream {
    data: Vec<u8>,
    position: usize,
}

impl MemoryStream {
    /// A stream over `data`, positioned at its first byte.
    pub fn new(data: Vec<u8>) -> (stream: Self)
        ensures
            stream.wf(),
            stream.bytes() == data@,
            stream.position() == 0,
    {
        MemoryStream { data, position: 0 }
    }

    /// The bytes of the stream.
    pub fn into_bytes(self) -> (data: Vec<u8>)
        ensures
            data@ == self.bytes(),
    {
        self.data
    }
}

impl ByteStream for MemoryStream {
    closed spec fn bytes(&self) -> Seq<u8> {
        self.data@
    }

    closed spec fn position(&self) -> nat {
        self.position as nat
    }

    closed spec fn wf(&self) -> bool {
        self.position <= self.data@.len()
    }

    /// A read never fails, and reads all that fits: as many bytes as the buffer
    /// holds, or as are left in the stream if those are fewer.
    open spec fn read_outcome(&self, room: nat) -> Result<nat, StreamError> {
        if self.position() + room <= self.bytes().len() {
            Ok(room)
        } else if self.position() <= self.bytes().len() {
            Ok((self.bytes().len() - self.position()) as nat)
        } else {
            Ok(0)
        }
    }

    /// A write never fails, and takes all the bytes; it stops short only where the
    /// position would leave the range of `usize`.
    open spec fn write_outcome(&self, len: nat) -> Result<nat, StreamError> {
        if self.position() + len <= usize::MAX {
            Ok(len)
        } else {
            Ok((usize::MAX - self.position()) as nat)
        }
    }

    /// A flush never fails: a stream in memory has nothing to flush.
    open spec fn flush_outcome(&self) -> Result<(), StreamError> {
        Ok(())
    }

    /// A seek succeeds exactly where the position sought lies in the stream or just
    /// behind its last byte.
    open spec fn seek_outcome(&self, to: SeekFrom) -> Result<nat, StreamError> {
        let target = seek_target(self.bytes().len() as int, self.position() as int, to);
        if 0 <= target <= self.bytes().len() {
            Ok(target as nat)
        } else {
            Err(StreamError::InvalidSeek)
        }
    }

    fn read(&mut self, buf: &mut Vec<u8>) -> (r: Result<usize, StreamError>) {
        let start = self.position;
        let remaining = self.data.len() - start;
        let count = if buf.len() <= remaining {
            buf.len()
        } else {
            remaining
        };
        let mut i: usize = 0;
        while i < count
            invariant
                i <= count,
                count <= buf.len(),
                start + count <= self.data.len(),
                buf.len() == old(buf).len(),
                self.data@ == old(self).data@,
                buf@ == filled(old(buf)@, self.data@, start as int, i as int),
            decreases count - i,
        {
            buf.set(i, self.data[start + i]);
            i += 1;
            assert(buf@ =~= filled(old(buf)@, self.data@, start as int, i as int));
        }
        self.position = start + count;
        Ok(count)
    }

    fn write(&mut self, buf: &[u8]) -> (r: Result<usize, StreamError>) {
        let start = self.position;
        let count = if buf.len() <= usize::MAX - start {
            buf.len()
        } else {
            usize::MAX - start
        };
        let mut i: usize = 0;
        while i < count
            invariant
                i <= count <= buf.len(),
                start + count <= usize::MAX,
                start <= old(self).data@.len(),
                self.position == start,
                self.position <= self.data@.len(),
                self.data@ == overwrite(old(self).data@, start as int, buf@.take(i as int)),
            decreases count - i,
        {
            let at = start + i;
            if at < self.data.len() {
                self.data.set(at, buf[i]);
            } else {
                self.data.push(buf[i]);
            }
            i += 1;
            assert(self.data@ =~= overwrite(old(self).data@, start as int, buf@.take(i as int)));
        }
        self.position = start + count;
        Ok(count)
    }

    fn flush(&mut self) -> (r: Result<(), StreamError>) {
        Ok(())
    }

    fn seek(&mut self, to: SeekFrom) -> (r: Result<u64, StreamError>) {
        let len: i128 = self.data.len() as i128;
        let target: i128 = match to {
            SeekFrom::Start(offset) => offset as i128,
            SeekFrom::End(offset) => len + offset as i128,
            SeekFrom::Current(offset) => self.position as i128 + offset as i128,
        };
        if 0 <= target && target <= len {
            self.position = target as usize;
            Ok(target as u64)
        } else {
            Err(StreamError::InvalidSeek)
        }
    }
}

} // verus!
