//! Length-prefixed framing of messages on a byte stream.
//!
//! A frame is the length of its body as four bytes, the most significant first,
//! and then the body. Datagrams need none of this: a datagram is one message.

use bytes::{Buf, BufMut, BytesMut};
use vstd::prelude::*;

verus! {

/// The longest body that a frame may have.
pub const MAX_FRAME_LEN: usize = 16_777_216;

/// Why a frame is refused.
#[derive(Clone, Copy, Debug, PartialEq, Eq, Structural)]
pub enum FrameError {
    /// The body is longer than [`MAX_FRAME_LEN`].
    TooLarge(usize),
}

/// `bytes::BytesMut`, a growable byte buffer that is read from the front.
#[verifier::external_type_specification]
#[verifier::external_body]
pub struct ExBytesMut(bytes::BytesMut);

/// The bytes that a buffer holds.
pub uninterp spec fn held(buf: BytesMut) -> Seq<u8>;

/// `BytesMut::deref`: the bytes that the buffer holds, as a slice.
#[verifier::external_body]
fn buffer_slice(buf: &BytesMut) -> (s: &[u8])
    ensures
        s@ == held(*buf),
{
    buf
}

/// `Buf::advance` for `BytesMut`: drops `n` bytes from the front.
#[verifier::external_body]
fn buffer_advance(buf: &mut BytesMut, n: usize)
    requires
        n <= held(*old(buf)).len(),
    ensures
        held(*final(buf)) == held(*old(buf)).subrange(n as int, held(*old(buf)).len() as int),
{
    buf.advance(n);
}

/// `BytesMut::split_to`: takes the first `n` bytes out of the buffer.
#[verifier::external_body]
fn buffer_split_to(buf: &mut BytesMut, n: usize) -> (head: BytesMut)
    requires
        n <= held(*old(buf)).len(),
    ensures
        held(head) == held(*old(buf)).subrange(0, n as int),
        held(*final(buf)) == held(*old(buf)).subrange(n as int, held(*old(buf)).len() as int),
{
    buf.split_to(n)
}

/// `BufMut::put_u32` for `BytesMut`: appends the four bytes of `n`, the most
/// significant first.
#[verifier::external_body]
fn buffer_put_u32(buf: &mut BytesMut, n: u32)
    requires
        held(*old(buf)).len() + 4 <= isize::MAX / 2,
    ensures
        held(*final(buf)) == held(*old(buf)) + be32(n as nat),
{
    buf.put_u32(n);
}

/// `BufMut::put_slice` for `BytesMut`: appends the bytes of `s`.
#[verifier::external_body]
fn buffer_put_slice(buf: &mut BytesMut, s: &[u8])
    requires
        held(*old(buf)).len() + s@.len() <= isize::MAX / 2,
    ensures
        held(*final(buf)) == held(*old(buf)) + s@,
{
    buf.put_slice(s);
}

/// The four bytes of `n`, the most significant first.
pub open spec fn be32(n: nat) -> Seq<u8> {
    seq![
        (n / 0x100_0000) as u8,
        (n / 0x1_0000 % 0x100) as u8,
        (n / 0x100 % 0x100) as u8,
        (n % 0x100) as u8,
    ]
}

/// The number that the first four bytes spell, the most significant first.
pub open spec fn be32_value(s: Seq<u8>) -> int {
    s[0] * 0x100_0000 + s[1] * 0x1_0000 + s[2] * 0x100 + s[3]
}

/// The frame of a body.
pub open spec fn frame(body: Seq<u8>) -> Seq<u8> {
    be32(body.len()) + body
}

/// What stands at the front of a stream.
pub enum FrontFrame {
    /// Not yet a whole frame.
    Incomplete,
    /// A frame that is longer than allowed.
    TooLarge(int),
    /// A whole frame: its body, and what follows it.
    Whole { body: Seq<u8>, rest: Seq<u8> },
}

/// What stands at the front of `s`.
pub open spec fn front_frame(s: Seq<u8>) -> FrontFrame {
    if s.len() < 4 {
        FrontFrame::Incomplete
    } else if be32_value(s) > MAX_FRAME_LEN {
        FrontFrame::TooLarge(be32_value(s))
    } else if s.len() < 4 + be32_value(s) {
        FrontFrame::Incomplete
    } else {
        FrontFrame::Whole {
            body: s.subrange(4, 4 + be32_value(s)),
            rest: s.subrange(4 + be32_value(s), s.len() as int),
        }
    }
}

/// The frame of a body of `n` bytes is longer than allowed, or fits behind what `out`
/// holds.
pub open spec fn has_room(out: Seq<u8>, n: nat) -> bool {
    n > MAX_FRAME_LEN || out.len() + 4 + n <= isize::MAX / 2
}

/// Appends the frame of `body` to `out`. A body that is too long is refused,
/// and `out` is left as it was.
pub fn encode(body: &[u8], out: &mut BytesMut) -> (r: Result<(), FrameError>)
    requires
        has_room(held(*old(out)), body@.len()),
    ensures
        match r {
            Ok(()) => body@.len() <= MAX_FRAME_LEN && held(*final(out)) == held(*old(out)) + frame(
                body@,
            ),
            Err(FrameError::TooLarge(n)) => {
                &&& body@.len() > MAX_FRAME_LEN
                &&& n == body@.len()
                &&& held(*final(out)) == held(*old(out))
            },
        },
{
    if body.len() > MAX_FRAME_LEN {
        return Err(FrameError::TooLarge(body.len()));
    }
    buffer_put_u32(out, body.len() as u32);
    buffer_put_slice(out, body);
    assert(held(*out) =~= held(*old(out)) + frame(body@));
    Ok(())
}

/// Appends the frame of `body` to `out`, where there is room for it. Without room
/// `out` is left as it was, and nothing is answered.
pub fn encode_if_room(body: &[u8], out: &mut BytesMut) -> (r: Option<Result<(), FrameError>>)
    ensures
        r is None <==> !has_room(held(*old(out)), body@.len()),
        match r {
            None => held(*final(out)) == held(*old(out)),
            Some(Ok(())) => {
                &&& body@.len() <= MAX_FRAME_LEN
                &&& held(*final(out)) == held(*old(out)) + frame(body@)
            },
            Some(Err(FrameError::TooLarge(n))) => {
                &&& body@.len() > MAX_FRAME_LEN
                &&& n == body@.len()
                &&& held(*final(out)) == held(*old(out))
            },
        },
{
    let room: usize = (isize::MAX / 2) as usize;
    if body.len() <= MAX_FRAME_LEN && buffer_slice(out).len() > room - 4 - body.len() {
        return None;
    }
    Some(encode(body, out))
}

/// The number that four bytes spell, the most significant first.
pub fn read_be32(s: &[u8]) -> (n: u32)
    requires
        s@.len() >= 4,
    ensures
        n == be32_value(s@),
{
    s[0] as u32 * 0x100_0000 + s[1] as u32 * 0x1_0000 + s[2] as u32 * 0x100 + s[3] as u32
}

/// Takes one frame from the front of `buf`.
///
/// `Ok(Some(body))` consumes the frame. `Ok(None)` asks for more bytes and
/// leaves `buf` as it was, and so does the refusal of an overlong frame.
pub fn decode_one(buf: &mut BytesMut) -> (r: Result<Option<Vec<u8>>, FrameError>)
    ensures
        match front_frame(held(*old(buf))) {
            FrontFrame::Incomplete => {
                &&& r == Ok::<Option<Vec<u8>>, FrameError>(None)
                &&& held(*final(buf)) == held(*old(buf))
            },
            FrontFrame::TooLarge(n) => {
                &&& r matches Err(FrameError::TooLarge(m)) && m == n
                &&& held(*final(buf)) == held(*old(buf))
            },
            FrontFrame::Whole { body, rest } => {
                &&& r matches Ok(Some(b)) && b@ == body
                &&& held(*final(buf)) == rest
            },
        },
{
    let ghost before = held(*buf);
    let s = buffer_slice(buf);
    if s.len() < 4 {
        return Ok(None);
    }
    let len: usize = read_be32(s) as usize;
    if len > MAX_FRAME_LEN {
        return Err(FrameError::TooLarge(len));
    }
    if s.len() - 4 < len {
        return Ok(None);
    }
    buffer_advance(buf, 4);
    let body = buffer_split_to(buf, len);
    proof {
        let rest = before.subrange(4, before.len() as int);
        assert(rest.subrange(0, len as int) =~= before.subrange(4, 4 + len as int));
        assert(rest.subrange(len as int, rest.len() as int) =~= before.subrange(
            4 + len as int,
            before.len() as int,
        ));
    }
    Ok(Some(vstd::slice::slice_to_vec(buffer_slice(&body))))
}

/// The four bytes of a number spell that number.
pub proof fn lemma_be32_reads_back(n: nat, rest: Seq<u8>)
    requires
        n <= 0xffff_ffff,
    ensures
        be32(n).len() == 4,
        be32_value(be32(n) + rest) == n,
{
}

/// What was framed comes back: the body is the one that went in, and what
/// followed the frame is left.
pub proof fn law_frames_read_back(body: Seq<u8>, rest: Seq<u8>)
    requires
        body.len() <= MAX_FRAME_LEN,
    ensures
        front_frame(frame(body) + rest) == (FrontFrame::Whole { body, rest }),
{
    let s = frame(body) + rest;
    lemma_be32_reads_back(body.len(), body + rest);
    assert(s =~= be32(body.len()) + (body + rest));
    assert(s.subrange(4, 4 + body.len() as int) =~= body);
    assert(s.subrange(4 + body.len() as int, s.len() as int) =~= rest);
}

/// Any part of a frame short of the whole is not yet a frame.
pub proof fn law_partial_frames_wait(body: Seq<u8>, n: int)
    requires
        body.len() <= MAX_FRAME_LEN,
        0 <= n < frame(body).len(),
    ensures
        front_frame(frame(body).subrange(0, n)) == FrontFrame::Incomplete,
{
    let s = frame(body).subrange(0, n);
    if n >= 4 {
        lemma_be32_reads_back(body.len(), body);
        assert(be32_value(s) == be32_value(frame(body)));
    }
}

/// More bytes never change a frame that was whole: they only follow it.
pub proof fn law_frames_are_read_once(s: Seq<u8>, more: Seq<u8>)
    requires
        front_frame(s) is Whole,
    ensures
        front_frame(s + more) == (FrontFrame::Whole {
            body: front_frame(s)->body,
            rest: front_frame(s)->rest + more,
        }),
{
    let n = be32_value(s);
    let t = s + more;
    assert(be32_value(t) == n);
    assert(t.subrange(4, 4 + n) =~= s.subrange(4, 4 + n));
    assert(t.subrange(4 + n, t.len() as int) =~= s.subrange(4 + n, s.len() as int) + more);
}

/// The length stands before the body in four bytes, of which the first counts most; it is
/// the number of bytes that follow. A frame of more than 16 MiB is refused, whatever has
/// arrived of it.
pub proof fn law_lengths_begin_with_the_greatest_byte(body: Seq<u8>, s: Seq<u8>)
    requires
        s.len() >= 4,
    ensures
        body.len() <= 0xffff_ffff ==> {
            let f = frame(body);
            &&& f.len() == body.len() + 4
            &&& 16_777_216 * f[0] + 65_536 * f[1] + 256 * f[2] + f[3] == body.len()
            &&& f.subrange(4, f.len() as int) == body
        },
        be32_value(s) == 16_777_216 * s[0] + 65_536 * s[1] + 256 * s[2] + s[3],
        front_frame(s) is TooLarge <==> 16_777_216 * s[0] + 65_536 * s[1] + 256 * s[2] + s[3]
            > 16_777_216,
{
    if body.len() <= 0xffff_ffff {
        assert(frame(body).subrange(4, frame(body).len() as int) =~= body);
    }
}

/// A whole frame is its length, its body and what follows it.
pub proof fn law_frames_are_cut_at_their_length(s: Seq<u8>)
    ensures
        front_frame(s) matches FrontFrame::Whole { body, rest } ==> {
            &&& s == s.subrange(0, 4) + body + rest
            &&& body.len() == be32_value(s)
            &&& body.len() <= 16_777_216
        },
{
    if let FrontFrame::Whole { body, rest } = front_frame(s) {
        assert(s =~= s.subrange(0, 4) + body + rest);
    }
}

} // verus!
