//! Length-prefixed framing of control messages: each frame is a 4-byte
//! big-endian length followed by that many bytes of JSON.

use crate::bytes_be::{be32, lemma_be32_roundtrip, read_be32};
use crate::error::OaatError;
use bytes::{Buf, BytesMut};
use vstd::prelude::*;

verus! {

/// Frames longer than this are refused (16 MiB).
pub const MAX_FRAME_SIZE: usize = 16777216;

#[verifier::external_type_specification]
#[verifier::external_body]
pub struct ExBytesMut(BytesMut);

/// The bytes a `bytes::BytesMut` holds, in order.
pub uninterp spec fn bytes_mut_contents(b: BytesMut) -> Seq<u8>;

/// `BytesMut::with_capacity`: a buffer that holds no bytes.
#[verifier::external_body]
fn bytes_with_capacity(capacity: usize) -> (b: BytesMut)
    ensures
        bytes_mut_contents(b) == Seq::<u8>::empty(),
{
    BytesMut::with_capacity(capacity)
}

/// `BytesMut::extend_from_slice`: appends the slice; the source panics when
/// the new length overflows, which `requires` rules out.
#[verifier::external_body]
fn bytes_extend(b: &mut BytesMut, data: &[u8])
    requires
        bytes_mut_contents(*old(b)).len() + data@.len() <= isize::MAX,
    ensures
        bytes_mut_contents(*final(b)) == bytes_mut_contents(*old(b)) + data@,
{
    b.extend_from_slice(data)
}

/// `BytesMut::len`: the number of bytes held.
#[verifier::external_body]
fn bytes_len(b: &BytesMut) -> (n: usize)
    ensures
        n == bytes_mut_contents(*b).len(),
{
    b.len()
}

/// Indexing through `BytesMut`'s `Deref` to `[u8]`: the byte at `i`.
#[verifier::external_body]
fn bytes_at(b: &BytesMut, i: usize) -> (v: u8)
    requires
        i < bytes_mut_contents(*b).len(),
    ensures
        v == bytes_mut_contents(*b)[i as int],
{
    b[i]
}

/// `Buf::advance` on `BytesMut`: drops the first `cnt` bytes (the source
/// panics past the end, which `requires` rules out).
#[verifier::external_body]
fn bytes_advance(b: &mut BytesMut, cnt: usize)
    requires
        cnt <= bytes_mut_contents(*old(b)).len(),
    ensures
        bytes_mut_contents(*final(b)) == bytes_mut_contents(*old(b)).skip(cnt as int),
{
    b.advance(cnt)
}

/// `BytesMut::split_to`: takes the first `at` bytes out into a new buffer.
#[verifier::external_body]
fn bytes_split_to(b: &mut BytesMut, at: usize) -> (head: BytesMut)
    requires
        at <= bytes_mut_contents(*old(b)).len(),
    ensures
        bytes_mut_contents(head) == bytes_mut_contents(*old(b)).take(at as int),
        bytes_mut_contents(*final(b)) == bytes_mut_contents(*old(b)).skip(at as int),
{
    b.split_to(at)
}

/// `<[u8]>::to_vec` through `BytesMut`'s `Deref`: a copy of the bytes.
#[verifier::external_body]
fn bytes_to_vec(b: &BytesMut) -> (v: Vec<u8>)
    ensures
        v@ == bytes_mut_contents(*b),
{
    b.to_vec()
}

/// The length announced by the 4-byte prefix of `s`.
pub open spec fn spec_frame_len(s: Seq<u8>) -> int {
    read_be32(s, 0) as int
}

/// One decoding step on buffered bytes: the outcome and the bytes left.
/// Fewer than 4 bytes, or a frame not yet complete, leave the buffer as it
/// is and give nothing; an announced length over the limit is an error that
/// also leaves the buffer; a complete frame is taken out.
pub open spec fn spec_decode_step(s: Seq<u8>) -> (Result<Option<Seq<u8>>, OaatError>, Seq<u8>) {
    if s.len() < 4 {
        (Ok(None), s)
    } else if spec_frame_len(s) > MAX_FRAME_SIZE {
        (Err(OaatError::MessageTooLarge(spec_frame_len(s) as usize)), s)
    } else if s.len() < 4 + spec_frame_len(s) {
        (Ok(None), s)
    } else {
        (Ok(Some(s.subrange(4, 4 + spec_frame_len(s)))), s.skip(4 + spec_frame_len(s)))
    }
}

/// The frame of a payload: its length (truncated to 32 bits) then the payload.
pub open spec fn spec_frame(payload: Seq<u8>) -> Seq<u8> {
    be32(payload.len() as u32) + payload
}

/// Accumulates bytes from the control stream and cuts them into frames.
pub struct FrameCodec {
    buf: BytesMut,
}

impl View for FrameCodec {
    type V = Seq<u8>;

    closed spec fn view(&self) -> Seq<u8> {
        bytes_mut_contents(self.buf)
    }
}

impl FrameCodec {
    pub fn new() -> (c: Self)
        ensures
            c@ == Seq::<u8>::empty(),
    {
        FrameCodec { buf: bytes_with_capacity(8192) }
    }

    /// Appends received bytes.
    pub fn feed(&mut self, data: &[u8])
        requires
            old(self)@.len() + data@.len() <= isize::MAX,
        ensures
            final(self)@ == old(self)@ + data@,
    {
        bytes_extend(&mut self.buf, data);
    }

    /// Takes the next complete frame's payload out of the buffer, if there
    /// is one.
    pub fn decode_next(&mut self) -> (r: Result<Option<Vec<u8>>, OaatError>)
        ensures
            ({
                let (res, rest) = spec_decode_step(old(self)@);
                &&& final(self)@ == rest
                &&& match (r, res) {
                    (Ok(None), Ok(None)) => true,
                    (Ok(Some(v)), Ok(Some(p))) => v@ == p,
                    (Err(OaatError::MessageTooLarge(n)), Err(OaatError::MessageTooLarge(m))) => n
                        == m,
                    _ => false,
                }
            }),
    {
        let n = bytes_len(&self.buf);
        if n < 4 {
            return Ok(None);
        }
        let b0 = bytes_at(&self.buf, 0);
        let b1 = bytes_at(&self.buf, 1);
        let b2 = bytes_at(&self.buf, 2);
        let b3 = bytes_at(&self.buf, 3);
        let len32: u32 = ((b0 as u32) << 24u32) | ((b1 as u32) << 16u32) | ((b2 as u32) << 8u32) | (
        b3 as u32);
        let len = len32 as usize;
        if len > MAX_FRAME_SIZE {
            return Err(OaatError::MessageTooLarge(len));
        }
        if n - 4 < len {
            return Ok(None);
        }
        bytes_advance(&mut self.buf, 4);
        let frame = bytes_split_to(&mut self.buf, len);
        let payload = bytes_to_vec(&frame);
        proof {
            let s = old(self)@;
            assert(s.skip(4).take(len as int) =~= s.subrange(4, 4 + len));
            assert(s.skip(4).skip(len as int) =~= s.skip(4 + len));
        }
        Ok(Some(payload))
    }

    /// The frame that carries `payload`: its length as a 4-byte big-endian
    /// prefix, then the payload.
    pub fn frame(payload: &[u8]) -> (f: Vec<u8>)
        ensures
            f@ == spec_frame(payload@),
    {
        let len = payload.len() as u32;
        let mut out: Vec<u8> = Vec::new();
        out.push((len >> 24u32) as u8);
        out.push(((len >> 16u32) & 0xff) as u8);
        out.push(((len >> 8u32) & 0xff) as u8);
        out.push((len & 0xff) as u8);
        let mut i: usize = 0;
        while i < payload.len()
            invariant
                i <= payload@.len(),
                out@ == be32(len) + payload@.take(i as int),
                len == payload@.len() as u32,
            decreases payload@.len() - i,
        {
            out.push(payload[i]);
            i += 1;
            assert(payload@.take(i as int) =~= payload@.take(i - 1).push(payload@[i - 1]));
        }
        assert(payload@.take(i as int) =~= payload@);
        out
    }
}

/// Reading back a frame: when the buffer holds a frame followed by any other
/// bytes, one decoding step yields exactly the frame's payload and leaves
/// exactly the bytes that followed it.
pub proof fn lemma_frame_then_decode(payload: Seq<u8>, rest: Seq<u8>)
    requires
        payload.len() <= MAX_FRAME_SIZE,
    ensures
        spec_decode_step(spec_frame(payload) + rest) == (
        Ok::<Option<Seq<u8>>, OaatError>(Some(payload)),
        rest,
        ),
{
    let s = spec_frame(payload) + rest;
    let n = payload.len() as u32;
    lemma_be32_roundtrip(n);
    assert(spec_frame_len(s) == payload.len());
    assert(s.subrange(4, 4 + payload.len() as int) =~= payload);
    assert(s.skip(4 + payload.len() as int) =~= rest);
}

/// An incomplete frame is never cut: while only a strict prefix of a frame
/// has arrived, decoding gives nothing and keeps every byte.
pub proof fn lemma_partial_frame_waits(payload: Seq<u8>, k: int)
    requires
        payload.len() <= MAX_FRAME_SIZE,
        0 <= k < spec_frame(payload).len(),
    ensures
        spec_decode_step(spec_frame(payload).take(k)) == (
        Ok::<Option<Seq<u8>>, OaatError>(None),
        spec_frame(payload).take(k),
        ),
{
    let s = spec_frame(payload).take(k);
    lemma_be32_roundtrip(payload.len() as u32);
    if k >= 4 {
        assert(s[0] == spec_frame(payload)[0]);
        assert(s[1] == spec_frame(payload)[1]);
        assert(s[2] == spec_frame(payload)[2]);
        assert(s[3] == spec_frame(payload)[3]);
        assert(spec_frame_len(s) == payload.len());
    }
}

} // verus!
