//! The inbound side of a connection: bytes read from the stream wait in a
//! buffer until a whole frame can be taken from its front.
use bytes::{Buf, BytesMut};
use vstd::prelude::*;
use vstd::utf8::{decode_utf8, valid_utf8};

use crate::frame::{frame_complete, frame_size, payload, Cursor, Frame, FrameError};
use crate::Error;

verus! {

/// Room for this many bytes is made when a buffer is created.
pub const READ_BUFFER_CAPACITY: usize = 16 * 1024;

/// The growable byte buffer of the `bytes` crate, carried through opaque.
#[verifier::external_type_specification]
#[verifier::external_body]
pub struct ExBytesMut(BytesMut);

/// The bytes that a `BytesMut` holds, front first.
pub uninterp spec fn buffered(b: BytesMut) -> Seq<u8>;

/// Relies on `BytesMut::with_capacity`: the new buffer holds no bytes. It
/// panics only for a capacity past `isize::MAX`.
#[verifier::external_body]
fn empty_buffer(capacity: usize) -> (b: BytesMut)
    requires
        capacity <= isize::MAX,
    ensures
        buffered(b) == Seq::<u8>::empty(),
{
    BytesMut::with_capacity(capacity)
}

/// Relies on `BytesMut::extend_from_slice`: the bytes are appended at the
/// back; it panics only when the new length overflows, which the bound
/// rules out.
#[verifier::external_body]
fn append(b: &mut BytesMut, data: &[u8])
    requires
        buffered(*old(b)).len() + data@.len() <= isize::MAX,
    ensures
        buffered(*final(b)) == buffered(*old(b)) + data@,
{
    b.extend_from_slice(data)
}

/// Relies on `<BytesMut as Buf>::advance`: the first `cnt` bytes are
/// dropped; it panics where `cnt` exceeds the length, which the bound rules
/// out.
#[verifier::external_body]
fn consume(b: &mut BytesMut, cnt: usize)
    requires
        cnt <= buffered(*old(b)).len(),
    ensures
        buffered(*final(b)) == buffered(*old(b)).subrange(cnt as int, buffered(*old(b)).len() as int),
{
    b.advance(cnt)
}

/// Relies on `BytesMut`'s `Deref` to a slice: the bytes it holds.
#[verifier::external_body]
fn contents(b: &BytesMut) -> (r: &[u8])
    ensures
        r@ == buffered(*b),
{
    &b[..]
}

/// Bytes read from a stream that have not yet been taken as frames.
pub struct ReadBuffer {
    buffer: BytesMut,
}

impl View for ReadBuffer {
    type V = Seq<u8>;

    closed spec fn view(&self) -> Seq<u8> {
        buffered(self.buffer)
    }
}

impl ReadBuffer {
    /// An empty buffer.
    pub fn new() -> (r: ReadBuffer)
        ensures
            r@ == Seq::<u8>::empty(),
    {
        ReadBuffer { buffer: empty_buffer(READ_BUFFER_CAPACITY) }
    }

    /// The number of bytes waiting.
    pub fn len(&self) -> (r: usize)
        ensures
            r == self@.len(),
    {
        contents(&self.buffer).len()
    }

    /// Appends bytes that were just read.
    pub fn push(&mut self, data: &[u8])
        requires
            old(self)@.len() + data@.len() <= isize::MAX,
        ensures
            final(self)@ == old(self)@ + data@,
    {
        append(&mut self.buffer, data)
    }

    /// Takes the frame at the front, if a whole one is there. Nothing is
    /// taken while the frame is incomplete, or when its payload is not
    /// UTF-8, which is an error.
    pub fn parse_frame(&mut self) -> (r: Result<Option<Frame>, Error>)
        ensures
            ({
                let b = old(self)@;
                &&& (r matches Ok(Some(_))) <==> frame_complete(b, 0) && valid_utf8(payload(b, 0))
                &&& (r matches Ok(None)) <==> !frame_complete(b, 0)
                &&& r is Err <==> frame_complete(b, 0) && !valid_utf8(payload(b, 0))
                &&& r matches Err(e) ==> e == Error::FrameError(FrameError::InvalidUtf8)
                &&& r matches Ok(Some(f)) ==> f@ == decode_utf8(payload(b, 0))
                    && final(self)@ == b.subrange(frame_size(b, 0), b.len() as int)
                &&& !(r matches Ok(Some(_))) ==> final(self)@ == b
            }),
    {
        let mut cursor = Cursor::new(contents(&self.buffer));
        match Frame::parse(&mut cursor) {
            Ok(frame) => {
                let used = cursor.position();
                consume(&mut self.buffer, used);
                Ok(Some(frame))
            },
            Err(FrameError::Incomplete) => Ok(None),
            Err(e) => Err(Error::FrameError(e)),
        }
    }

    /// What reading gives once the stream has ended: nothing where the
    /// buffer is empty, otherwise the peer went away in the middle of a
    /// frame.
    pub fn at_end(&self) -> (r: Result<Option<Frame>, Error>)
        ensures
            (r matches Ok(None)) <==> self@.len() == 0,
            r matches Err(e) ==> e == Error::ConnectionResetByPeer,
            !(r matches Ok(Some(_))),
    {
        if self.len() == 0 {
            Ok(None)
        } else {
            Err(Error::ConnectionResetByPeer)
        }
    }
}

} // verus!
