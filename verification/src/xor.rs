//! The byte transform that obfuscates a bundle: every byte XOR-ed with one fixed key.
//!
//! The transform is a casual deterrent, not encryption. It is its own inverse and
//! works byte by byte, so it may be applied to a whole file or to any piece of it,
//! at any offset, with the same outcome.

use crate::stream::{filled, ByteStream, SeekFrom, StreamError};
use vstd::prelude::*;

verus! {

/// The key every byte of an obfuscated bundle is XOR-ed with.
pub const XOR_FACTOR: u8 = 0b0101_0101;

/// One byte under the transform.
pub open spec fn xor_byte(b: u8) -> u8 {
    b ^ XOR_FACTOR
}

/// A byte sequence under the transform: the same length, each byte XOR-ed with the key.
pub open spec fn transform(bytes: Seq<u8>) -> Seq<u8> {
    Seq::new(bytes.len(), |i: int| xor_byte(bytes[i]))
}

/// The bytes of a bundle file for the bytes of its archive, and the other way round:
/// through the transform where the bundle is obfuscated, unchanged where it is plain.
pub open spec fn masked(obfuscated: bool, bytes: Seq<u8>) -> Seq<u8> {
    if obfuscated {
        transform(bytes)
    } else {
        bytes
    }
}

/// `bytes` with the `data.len()` bytes from `at` on replaced by `data`; where `data`
/// runs past the end, the sequence grows.
pub open spec fn overwrite(bytes: Seq<u8>, at: int, data: Seq<u8>) -> Seq<u8>
    recommends
        0 <= at <= bytes.len(),
{
    if at + data.len() <= bytes.len() {
        bytes.take(at) + data + bytes.skip(at + data.len())
    } else {
        bytes.take(at) + data
    }
}

/// Applying the transform twice to a byte gives the byte back, for all 256 values.
pub proof fn lemma_xor_byte_involution(b: u8)
    ensures
        xor_byte(xor_byte(b)) == b,
{
    assert((b ^ 0x55u8) ^ 0x55u8 == b) by (bit_vector);
}

/// Round trip: the transform undoes itself on every byte sequence.
pub proof fn lemma_transform_round_trip(bytes: Seq<u8>)
    ensures
        transform(transform(bytes)) == bytes,
{
    assert forall|i: int| 0 <= i < bytes.len() implies transform(transform(bytes))[i]
        == bytes[i] by {
        lemma_xor_byte_involution(bytes[i]);
    }
    assert(transform(transform(bytes)) =~= bytes);
}

/// Writing a bundle and reading it back are inverse to each other, obfuscated or
/// plain: what the bundler masks, the resolver unmasks to the same archive bytes.
pub proof fn lemma_masked_round_trip(obfuscated: bool, bytes: Seq<u8>)
    ensures
        masked(obfuscated, masked(obfuscated, bytes)) == bytes,
{
    lemma_transform_round_trip(bytes);
}

/// Position independence, reading: a window of a stream transformed on its own is
/// the same window of the transformed stream.
pub proof fn lemma_transform_subrange(bytes: Seq<u8>, start: int, end: int)
    requires
        0 <= start <= end <= bytes.len(),
    ensures
        transform(bytes.subrange(start, end)) == transform(bytes).subrange(start, end),
{
    assert(transform(bytes.subrange(start, end)) =~= transform(bytes).subrange(start, end));
}

/// Position independence, appending: pieces transformed one after another give the
/// transform of the pieces joined.
pub proof fn lemma_transform_concat(a: Seq<u8>, b: Seq<u8>)
    ensures
        transform(a + b) == transform(a) + transform(b),
{
    assert(transform(a + b) =~= transform(a) + transform(b));
}

/// Position independence, writing: overwriting a transformed stream at any offset
/// with transformed data gives the transform of the stream overwritten with the
/// data itself.
pub proof fn lemma_transform_overwrite(bytes: Seq<u8>, at: int, data: Seq<u8>)
    requires
        0 <= at <= bytes.len(),
    ensures
        overwrite(transform(bytes), at, transform(data)) == transform(overwrite(bytes, at, data)),
{
    assert(overwrite(transform(bytes), at, transform(data)) =~= transform(
        overwrite(bytes, at, data),
    ));
}

/// Applies the transform to `bytes`, giving a new vector.
pub fn transform_bytes(bytes: &[u8]) -> (out: Vec<u8>)
    ensures
        out@ == transform(bytes@),
{
    let mut out: Vec<u8> = Vec::with_capacity(bytes.len());
    let mut i: usize = 0;
    while i < bytes.len()
        invariant
            i <= bytes.len(),
            out@ == transform(bytes@.take(i as int)),
        decreases bytes.len() - i,
    {
        out.push(bytes[i] ^ XOR_FACTOR);
        i += 1;
        assert(out@ =~= transform(bytes@.take(i as int)));
    }
    assert(bytes@.take(i as int) =~= bytes@);
    out
}

/// Takes `bytes` through the transform where `obfuscated` is set, and hands them
/// back as they are where it is not.
pub fn mask(obfuscated: bool, bytes: Vec<u8>) -> (out: Vec<u8>)
    ensures
        out@ == masked(obfuscated, bytes@),
{
    if obfuscated {
        transform_bytes(bytes.as_slice())
    } else {
        bytes
    }
}

/// Applies the transform in place to the first `count` bytes of `buf` and leaves
/// the rest as it is.
pub fn transform_prefix(buf: &mut Vec<u8>, count: usize)
    requires
        count <= old(buf).len(),
    ensures
        final(buf)@ == transform(old(buf)@.take(count as int)) + old(buf)@.skip(count as int),
{
    let mut i: usize = 0;
    while i < count
        invariant
            i <= count <= buf.len(),
            buf.len() == old(buf).len(),
            buf@ == transform(old(buf)@.take(i as int)) + old(buf)@.skip(i as int),
        decreases count - i,
    {
        let b = buf[i];
        buf.set(i, b ^ XOR_FACTOR);
        i += 1;
        assert(buf@ =~= transform(old(buf)@.take(i as int)) + old(buf)@.skip(i as int));
    }
}

/// A stream seen through the byte transform: what is read from it is the inner
/// stream's bytes transformed, and what is written to it reaches the inner stream
/// transformed. Positions are those of the inner stream.
#[derive(Debug)]
pub struct Xor<T>(pub T);

impl<T> Xor<T> {
    /// Wraps `inner`.
    pub fn new(inner: T) -> (wrapped: Self)
        ensures
            wrapped.0 == inner,
    {
        Xor(inner)
    }

    /// Hands the inner stream back.
    pub fn into_inner(self) -> (inner: T)
        ensures
            inner == self.0,
    {
        self.0
    }
}

/// The wrapped stream is a stream of its own, whose bytes are the inner stream's
/// under the transform, at the same positions. Since every operation of a stream
/// is stated over its bytes and its position alone, reads, writes and seeks in any
/// order act on the wrapper as they would on a stream that holds the transformed
/// bytes.
impl<T: ByteStream> ByteStream for Xor<T> {
    open spec fn bytes(&self) -> Seq<u8> {
        transform(self.0.bytes())
    }

    open spec fn position(&self) -> nat {
        self.0.position()
    }

    open spec fn wf(&self) -> bool {
        self.0.wf()
    }

    /// A read returns what the inner stream's read returns.
    open spec fn read_outcome(&self, room: nat) -> Result<nat, StreamError> {
        self.0.read_outcome(room)
    }

    /// A write returns what the inner stream's write returns.
    open spec fn write_outcome(&self, len: nat) -> Result<nat, StreamError> {
        self.0.write_outcome(len)
    }

    /// A flush returns what the inner stream's flush returns.
    open spec fn flush_outcome(&self) -> Result<(), StreamError> {
        self.0.flush_outcome()
    }

    /// A seek returns what the inner stream's seek returns.
    open spec fn seek_outcome(&self, to: SeekFrom) -> Result<nat, StreamError> {
        self.0.seek_outcome(to)
    }

    /// Reads from the inner stream, then transforms the bytes that were read. The
    /// count is the inner stream's, and so is a failure.
    fn read(&mut self, buf: &mut Vec<u8>) -> (r: Result<usize, StreamError>) {
        match self.0.read(buf) {
            Ok(count) => {
                transform_prefix(buf, count);
                proof {
                    let inner = old(self).0.bytes();
                    let at = old(self).0.position() as int;
                    lemma_transform_subrange(inner, at, at + count);
                    assert(buf@ =~= filled(old(buf)@, transform(inner), at, count as int));
                }
                Ok(count)
            },
            Err(e) => Err(e),
        }
    }

    /// Transforms a copy of `buf` and writes the copy to the inner stream. The
    /// count is the inner stream's, and so is a failure.
    fn write(&mut self, buf: &[u8]) -> (r: Result<usize, StreamError>) {
        let coded = transform_bytes(buf);
        let r = self.0.write(coded.as_slice());
        proof {
            if let Ok(count) = r {
                let inner = old(self).0.bytes();
                let at = old(self).0.position() as int;
                let taken = coded@.take(count as int);
                lemma_transform_overwrite(inner, at, taken);
                lemma_transform_subrange(buf@, 0, count as int);
                lemma_transform_round_trip(buf@.take(count as int));
                assert(transform(taken) =~= buf@.take(count as int));
            }
        }
        r
    }

    /// Flushes the inner stream.
    fn flush(&mut self) -> (r: Result<(), StreamError>) {
        self.0.flush()
    }

    /// Seeks in the inner stream: the transform works byte by byte, so positions
    /// are the same on both sides of it.
    fn seek(&mut self, to: SeekFrom) -> (r: Result<u64, StreamError>) {
        self.0.seek(to)
    }
}

/// Round trip on streams: a stream wrapped twice shows the bytes and the position
/// of the stream itself.
pub proof fn lemma_wrapped_twice_is_plain<T: ByteStream>(stream: Xor<Xor<T>>)
    ensures
        stream.bytes() == stream.0.0.bytes(),
        stream.position() == stream.0.0.position(),
{
    lemma_transform_round_trip(stream.0.0.bytes());
}

} // verus!
