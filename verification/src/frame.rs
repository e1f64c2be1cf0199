//! The wire codec. A frame is an eight-byte header, the length of the payload
//! as a little-endian 64-bit number, followed by exactly that many payload
//! bytes. What the payload means is not the codec's business.

use vstd::bytes::{
    lemma_auto_spec_u64_to_from_le_bytes, spec_u64_from_le_bytes, spec_u64_to_le_bytes,
    u64_from_le_bytes, u64_to_le_bytes,
};
use vstd::prelude::*;
use vstd::slice::slice_subrange;

verus! {

/// Bytes in the header of a frame.
pub const HEADER_LEN: usize = 8;

/// Why a frame could not be written or read.
#[derive(Debug, Clone, Copy, PartialEq, Eq, Structural)]
pub enum FrameError {
    /// The stream ends before the frame does.
    UnexpectedEof,
    /// Header and payload together have more bytes than can be counted.
    TooLong,
}

/// The frame that carries `payload`.
pub open spec fn frame_of(payload: Seq<u8>) -> Seq<u8> {
    spec_u64_to_le_bytes(payload.len() as u64) + payload
}

/// The payload length that the first eight bytes of `stream` declare.
pub open spec fn declared_len(stream: Seq<u8>) -> nat
    recommends
        stream.len() >= HEADER_LEN,
{
    spec_u64_from_le_bytes(stream.subrange(0, HEADER_LEN as int)) as nat
}

/// Whether `stream` begins with a whole frame.
pub open spec fn starts_with_frame(stream: Seq<u8>) -> bool {
    stream.len() >= HEADER_LEN && stream.len() - HEADER_LEN >= declared_len(stream)
}

/// The payload of the frame that `stream` begins with.
pub open spec fn first_payload(stream: Seq<u8>) -> Seq<u8>
    recommends
        starts_with_frame(stream),
{
    stream.subrange(HEADER_LEN as int, HEADER_LEN + declared_len(stream))
}

/// What follows the frame that `stream` begins with.
pub open spec fn after_first(stream: Seq<u8>) -> Seq<u8>
    recommends
        starts_with_frame(stream),
{
    stream.subrange(HEADER_LEN + declared_len(stream), stream.len() as int)
}

/// Whatever follows a frame on the stream, reading gives back the payload
/// that was written and leaves exactly what follows.
pub proof fn lemma_round_trip(payload: Seq<u8>, tail: Seq<u8>)
    requires
        payload.len() <= u64::MAX,
    ensures
        starts_with_frame(frame_of(payload) + tail),
        first_payload(frame_of(payload) + tail) == payload,
        after_first(frame_of(payload) + tail) == tail,
{
    lemma_auto_spec_u64_to_from_le_bytes();
    let header = spec_u64_to_le_bytes(payload.len() as u64);
    let stream = frame_of(payload) + tail;
    assert(stream.subrange(0, HEADER_LEN as int) =~= header);
    assert(first_payload(stream) =~= payload);
    assert(after_first(stream) =~= tail);
}

/// A stream that ends inside a frame does not begin with a whole frame.
pub proof fn lemma_cut_short(payload: Seq<u8>, kept: int)
    requires
        payload.len() <= u64::MAX,
        0 <= kept < HEADER_LEN + payload.len(),
    ensures
        !starts_with_frame(frame_of(payload).take(kept)),
{
    lemma_auto_spec_u64_to_from_le_bytes();
    let header = spec_u64_to_le_bytes(payload.len() as u64);
    let stream = frame_of(payload).take(kept);
    if kept >= HEADER_LEN {
        assert(stream.subrange(0, HEADER_LEN as int) =~= header);
    }
}

/// Appends the frame that carries `message` to `w` and returns the number of
/// bytes appended. Nothing is appended when that number cannot be counted.
pub fn write(w: &mut Vec<u8>, message: &[u8]) -> (r: Result<usize, FrameError>)
    ensures
        message@.len() + HEADER_LEN <= usize::MAX ==> r == Ok::<usize, FrameError>(
            (message@.len() + HEADER_LEN) as usize,
        ) && final(w)@ == old(w)@ + frame_of(message@),
        message@.len() + HEADER_LEN > usize::MAX ==> r == Err::<usize, FrameError>(
            FrameError::TooLong,
        ) && final(w)@ == old(w)@,
{
    let len: usize = message.len();
    if len > usize::MAX - HEADER_LEN {
        return Err(FrameError::TooLong);
    }
    let header = u64_to_le_bytes(len as u64);
    let mut i: usize = 0;
    while i < HEADER_LEN
        invariant
            i <= HEADER_LEN,
            header@.len() == HEADER_LEN,
            w@ == old(w)@ + header@.take(i as int),
        decreases HEADER_LEN - i,
    {
        w.push(header[i]);
        assert(header@.take(i + 1) =~= header@.take(i as int).push(header@[i as int]));
        i += 1;
    }
    assert(header@.take(HEADER_LEN as int) =~= header@);
    let mut j: usize = 0;
    while j < len
        invariant
            j <= len,
            len == message@.len(),
            w@ == old(w)@ + header@ + message@.take(j as int),
        decreases len - j,
    {
        w.push(message[j]);
        assert(message@.take(j + 1) =~= message@.take(j as int).push(message@[j as int]));
        j += 1;
    }
    assert(message@.take(len as int) =~= message@);
    assert(w@ =~= old(w)@ + frame_of(message@));
    Ok(len + HEADER_LEN)
}

/// The bytes that have arrived on a stream and have not been read yet.
pub struct Reader {
    bytes: Vec<u8>,
    pos: usize,
}

impl Reader {
    /// The bytes not read yet.
    pub closed spec fn remaining(self) -> Seq<u8> {
        if self.pos <= self.bytes@.len() {
            self.bytes@.subrange(self.pos as int, self.bytes@.len() as int)
        } else {
            Seq::empty()
        }
    }

    /// A reader over `bytes`.
    pub fn new(bytes: Vec<u8>) -> (r: Reader)
        ensures
            r.remaining() == bytes@,
    {
        let r = Reader { bytes, pos: 0 };
        assert(r.remaining() =~= bytes@);
        r
    }

    /// Adds bytes that have arrived since.
    pub fn extend(&mut self, more: &[u8])
        ensures
            final(self).remaining() == old(self).remaining() + more@,
    {
        if self.pos > self.bytes.len() {
            self.pos = self.bytes.len();
            assert(self.remaining() =~= old(self).remaining());
        }
        let ghost before = self.bytes@;
        let ghost unread = self.remaining();
        let mut i: usize = 0;
        while i < more.len()
            invariant
                i <= more.len(),
                self.pos <= before.len(),
                unread == before.subrange(self.pos as int, before.len() as int),
                self.bytes@ == before + more@.take(i as int),
            decreases more.len() - i,
        {
            self.bytes.push(more[i]);
            assert(more@.take(i + 1) =~= more@.take(i as int).push(more@[i as int]));
            i += 1;
        }
        assert(more@.take(more@.len() as int) =~= more@);
        assert(self.remaining() =~= unread + more@);
    }

    /// How many bytes have not been read yet.
    pub fn remaining_len(&self) -> (n: usize)
        ensures
            n == self.remaining().len(),
    {
        if self.pos <= self.bytes.len() {
            self.bytes.len() - self.pos
        } else {
            0
        }
    }
}

/// Reads one frame from `r` into `buf`. If the unread bytes begin with a
/// whole frame, `buf` becomes its payload and the frame is consumed. If they
/// end before the frame does, nothing is consumed and `buf` is as it was.
pub fn read(r: &mut Reader, buf: &mut Vec<u8>) -> (res: Result<(), FrameError>)
    ensures
        starts_with_frame(old(r).remaining()) ==> res is Ok && final(buf)@ == first_payload(
            old(r).remaining(),
        ) && final(r).remaining() == after_first(old(r).remaining()),
        !starts_with_frame(old(r).remaining()) ==> res == Err::<(), FrameError>(
            FrameError::UnexpectedEof,
        ) && final(buf)@ == old(buf)@ && final(r).remaining() == old(r).remaining(),
{
    let ghost stream = r.remaining();
    let total: usize = r.bytes.len();
    let start: usize = r.pos;
    if start > total || total - start < HEADER_LEN {
        return Err(FrameError::UnexpectedEof);
    }
    let header = slice_subrange(r.bytes.as_slice(), start, start + HEADER_LEN);
    assert(header@ =~= stream.subrange(0, HEADER_LEN as int));
    let declared: u64 = u64_from_le_bytes(header);
    let available: usize = total - start - HEADER_LEN;
    if (available as u64) < declared {
        return Err(FrameError::UnexpectedEof);
    }
    let len: usize = declared as usize;
    let from: usize = start + HEADER_LEN;
    buf.clear();
    let mut i: usize = 0;
    while i < len
        invariant
            i <= len,
            from + len <= total,
            total == r.bytes@.len(),
            r.bytes@ == old(r).bytes@,
            r.pos == old(r).pos,
            buf@ == r.bytes@.subrange(from as int, from + i),
        decreases len - i,
    {
        buf.push(r.bytes[from + i]);
        assert(r.bytes@.subrange(from as int, from + i + 1) =~= r.bytes@.subrange(
            from as int,
            from + i,
        ).push(r.bytes@[from + i]));
        i += 1;
    }
    r.pos = from + len;
    assert(buf@ =~= first_payload(stream));
    assert(r.remaining() =~= after_first(stream));
    Ok(())
}

} // verus!
