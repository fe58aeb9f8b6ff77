//! The event stream's framing: each event is eight bytes, a big-endian
//! `u16` type, `u16` code and `i32` value, with no delimiter between frames.
use vstd::prelude::*;

use tokio_util::bytes::{Buf, BufMut, BytesMut};

use crate::endian::{be16, be16_value, be32, be32_value, lemma_be16, lemma_be32};
use crate::event::InputEvent;

verus! {

/// Length of one frame.
pub const FRAME_LEN: usize = 8;

/// The byte buffer of the `bytes` crate (re-exported by tokio-util) that
/// frames are written to and read from; opaque here, known through
/// `buffer_bytes`.
#[verifier::external_type_specification]
#[verifier::external_body]
pub struct ExBytesMut(BytesMut);

/// The bytes that a buffer holds, from its read position to its end.
pub uninterp spec fn buffer_bytes(b: BytesMut) -> Seq<u8>;

/// Relies on `BufMut::put_u16` of `BytesMut`: appends the two big-endian
/// bytes of `n` (it grows the buffer, so the length must stay in bounds).
#[verifier::external_body]
fn put_u16(dst: &mut BytesMut, n: u16)
    requires
        buffer_bytes(*old(dst)).len() + 2 <= isize::MAX,
    ensures
        buffer_bytes(*final(dst)) == buffer_bytes(*old(dst)) + be16(n),
{
    dst.put_u16(n)
}

/// Relies on `BufMut::put_i32` of `BytesMut`: appends the four big-endian
/// bytes of `n`.
#[verifier::external_body]
fn put_i32(dst: &mut BytesMut, n: i32)
    requires
        buffer_bytes(*old(dst)).len() + 4 <= isize::MAX,
    ensures
        buffer_bytes(*final(dst)) == buffer_bytes(*old(dst)) + be32(n as u32),
{
    dst.put_i32(n)
}

/// Relies on `Buf::remaining` of `BytesMut`: the number of bytes held.
#[verifier::external_body]
fn remaining(src: &BytesMut) -> (r: usize)
    ensures
        r == buffer_bytes(*src).len(),
{
    src.remaining()
}

/// Relies on `Buf::get_u16` of `BytesMut`: takes two bytes off the front and
/// reads them big-endian (it panics on fewer).
#[verifier::external_body]
fn get_u16(src: &mut BytesMut) -> (r: u16)
    requires
        buffer_bytes(*old(src)).len() >= 2,
    ensures
        r == be16_value(buffer_bytes(*old(src))[0], buffer_bytes(*old(src))[1]),
        buffer_bytes(*final(src)) == buffer_bytes(*old(src)).subrange(
            2,
            buffer_bytes(*old(src)).len() as int,
        ),
{
    src.get_u16()
}

/// Relies on `Buf::get_i32` of `BytesMut`: takes four bytes off the front and
/// reads them big-endian (it panics on fewer).
#[verifier::external_body]
fn get_i32(src: &mut BytesMut) -> (r: i32)
    requires
        buffer_bytes(*old(src)).len() >= 4,
    ensures
        r == be32_value(
            buffer_bytes(*old(src))[0],
            buffer_bytes(*old(src))[1],
            buffer_bytes(*old(src))[2],
            buffer_bytes(*old(src))[3],
        ) as i32,
        buffer_bytes(*final(src)) == buffer_bytes(*old(src)).subrange(
            4,
            buffer_bytes(*old(src)).len() as int,
        ),
{
    src.get_i32()
}

/// The frame of one event.
pub open spec fn frame(e: InputEvent) -> Seq<u8> {
    be16(e.event_type) + be16(e.code) + be32(e.value as u32)
}

/// The event that the first eight bytes of `b` hold.
pub open spec fn frame_event(b: Seq<u8>) -> InputEvent {
    InputEvent {
        event_type: be16_value(b[0], b[1]),
        code: be16_value(b[2], b[3]),
        value: be32_value(b[4], b[5], b[6], b[7]) as i32,
    }
}

/// Decoding the frame of an event, whatever follows it, gives the event back
/// and leaves exactly what followed.
pub proof fn lemma_codec_round_trip(e: InputEvent, rest: Seq<u8>)
    ensures
        frame(e).len() == FRAME_LEN,
        frame_event(frame(e) + rest) == e,
        (frame(e) + rest).subrange(FRAME_LEN as int, (frame(e) + rest).len() as int) == rest,
{
    let v = e.value;
    lemma_be16(e.event_type);
    lemma_be16(e.code);
    lemma_be32(v as u32);
    assert((v as u32) as i32 == v) by (bit_vector);
    let b = frame(e) + rest;
    assert(b.subrange(FRAME_LEN as int, b.len() as int) =~= rest);
}

/// The encoder and decoder of frames.
pub struct Codec;

impl Codec {
    /// Appends the frame of `item` to `dst`.
    pub fn encode(&mut self, item: InputEvent, dst: &mut BytesMut)
        requires
            buffer_bytes(*old(dst)).len() + FRAME_LEN <= isize::MAX,
        ensures
            buffer_bytes(*final(dst)) == buffer_bytes(*old(dst)) + frame(item),
    {
        let ghost start = buffer_bytes(*dst);
        put_u16(dst, item.event_type);
        put_u16(dst, item.code);
        put_i32(dst, item.value);
        assert(buffer_bytes(*dst) =~= start + frame(item));
    }

    /// Takes one frame off the front of `src`. With fewer than eight bytes
    /// there, returns `None` and leaves `src` as it was.
    pub fn decode(&mut self, src: &mut BytesMut) -> (r: Option<InputEvent>)
        ensures
            buffer_bytes(*old(src)).len() < FRAME_LEN ==> r is None && buffer_bytes(*final(src))
                == buffer_bytes(*old(src)),
            buffer_bytes(*old(src)).len() >= FRAME_LEN ==> r == Some(
                frame_event(buffer_bytes(*old(src))),
            ) && buffer_bytes(*final(src)) == buffer_bytes(*old(src)).subrange(
                FRAME_LEN as int,
                buffer_bytes(*old(src)).len() as int,
            ),
    {
        if remaining(src) < FRAME_LEN {
            None
        } else {
            let ghost start = buffer_bytes(*src);
            let t = get_u16(src);
            let c = get_u16(src);
            let v = get_i32(src);
            assert(buffer_bytes(*src) =~= start.subrange(FRAME_LEN as int, start.len() as int));
            Some(InputEvent { event_type: t, code: c, value: v })
        }
    }
}

} // verus!
