//! The byte buffers that frames are built in and handed out as.
//!
//! The buffers belong to the `bytes` crate and the frames to `http-body`. Verus
//! does not look inside them: the contents of each are given a name here, and
//! the contracts of the functions below are taken on trust from the sources of
//! those crates.

use vstd::prelude::*;

verus! {

/// `bytes::BytesMut`, a growable buffer of bytes.
#[verifier::external_type_specification]
#[verifier::external_body]
pub struct ExBytesMut(bytes::BytesMut);

/// `bytes::Bytes`, an immutable chunk of bytes.
#[verifier::external_type_specification]
#[verifier::external_body]
pub struct ExBytes(bytes::Bytes);

/// `http_body::Frame`, one frame of a body: data or trailers.
#[verifier::external_type_specification]
#[verifier::external_body]
#[verifier::reject_recursive_types(T)]
pub struct ExFrame<T>(http_body::Frame<T>);

/// The bytes written so far into a growable buffer, in order.
pub uninterp spec fn buffer_bytes(buffer: bytes::BytesMut) -> Seq<u8>;

/// The bytes that an immutable chunk holds, in order.
pub uninterp spec fn chunk_bytes(chunk: bytes::Bytes) -> Seq<u8>;

/// The payload of a body frame: the bytes of its chunk for a data frame, and
/// `None` for a frame of any other kind.
pub uninterp spec fn frame_data(frame: http_body::Frame<bytes::Bytes>) -> Option<Seq<u8>>;

/// Whether this many bytes can be written to one buffer: a buffer holds at
/// most `isize::MAX` bytes.
pub open spec fn fits_buffer(len: nat) -> bool {
    len <= isize::MAX
}

/// `BytesMut::new`: a buffer with nothing in it.
#[verifier::external_body]
pub(crate) fn new_buffer() -> (buffer: bytes::BytesMut)
    ensures
        buffer_bytes(buffer) == Seq::<u8>::empty(),
{
    bytes::BytesMut::new()
}

/// `std::io::Write::write_all` on the `Writer` that `BufMut::writer` puts
/// around the buffer. The writer takes bytes as long as the buffer holds no
/// more than `isize::MAX` of them and reports a failure beyond that: the call
/// succeeds exactly when the whole of `src` fits, and has then appended it.
#[verifier::external_body]
pub(crate) fn write_all(buffer: &mut bytes::BytesMut, src: &[u8]) -> (written: bool)
    ensures
        written == fits_buffer(buffer_bytes(*old(buffer)).len() + src@.len()),
        written ==> buffer_bytes(*final(buffer)) == buffer_bytes(*old(buffer)) + src@,
{
    std::io::Write::write_all(&mut bytes::BufMut::writer(buffer), src).is_ok()
}

/// `BytesMut::freeze`: the same bytes as an immutable chunk.
#[verifier::external_body]
pub(crate) fn freeze(buffer: bytes::BytesMut) -> (chunk: bytes::Bytes)
    ensures
        chunk_bytes(chunk) == buffer_bytes(buffer),
{
    buffer.freeze()
}

/// `Bytes::from` on a static slice: a chunk of exactly those bytes.
#[verifier::external_body]
pub(crate) fn static_chunk(src: &'static [u8]) -> (chunk: bytes::Bytes)
    ensures
        chunk_bytes(chunk) == src@,
{
    bytes::Bytes::from(src)
}

/// `Bytes::from` on a vector: a chunk of exactly the vector's bytes.
#[verifier::external_body]
pub(crate) fn vec_chunk(src: Vec<u8>) -> (chunk: bytes::Bytes)
    ensures
        chunk_bytes(chunk) == src@,
{
    bytes::Bytes::from(src)
}

/// `Frame::data`: a data frame around the chunk.
#[verifier::external_body]
pub(crate) fn data_frame(chunk: bytes::Bytes) -> (frame: http_body::Frame<bytes::Bytes>)
    ensures
        frame_data(frame) == Some(chunk_bytes(chunk)),
{
    http_body::Frame::data(chunk)
}

} // verus!
