//! Length-prefixed framing.
//!
//! The engine's own socket protocol prefixes each message with its length as
//! a little-endian `u32`; the SEMA storage protocol prefixes each frame with
//! its length as a big-endian `u32`.

use vstd::prelude::*;

verus! {

/// The four little-endian bytes of `n`.
pub open spec fn le32_bytes(n: u32) -> Seq<u8> {
    seq![
        (n % 256) as u8,
        ((n / 256) % 256) as u8,
        ((n / 65536) % 256) as u8,
        (n / 16777216) as u8,
    ]
}

/// The number that four bytes denote when read little-endian.
pub open spec fn le32_value(b: Seq<u8>) -> int
    recommends
        b.len() == 4,
{
    b[0] + 256 * b[1] + 65536 * b[2] + 16777216 * b[3]
}

/// The four big-endian bytes of `n`.
pub open spec fn be32_bytes(n: u32) -> Seq<u8> {
    seq![
        (n / 16777216) as u8,
        ((n / 65536) % 256) as u8,
        ((n / 256) % 256) as u8,
        (n % 256) as u8,
    ]
}

/// The number that four bytes denote when read big-endian.
pub open spec fn be32_value(b: Seq<u8>) -> int
    recommends
        b.len() == 4,
{
    16777216 * b[0] + 65536 * b[1] + 256 * b[2] + b[3]
}

/// The length prefix that the engine protocol writes for a message of
/// `len` bytes: the length truncated to 32 bits.
pub open spec fn wire_length(len: nat) -> u32 {
    (len % 0x1_0000_0000) as u32
}

/// A message of the engine protocol as it is written: the little-endian
/// length prefix, then the message.
pub open spec fn wire_frame(body: Seq<u8>) -> Seq<u8> {
    le32_bytes(wire_length(body.len())) + body
}

/// The message that a reader of the engine protocol takes from the front of
/// `buf`: `None` while the prefix or the announced message is incomplete.
pub open spec fn read_wire_frame(buf: Seq<u8>) -> Option<Seq<u8>> {
    if buf.len() < 4 {
        None
    } else {
        let n = le32_value(buf.take(4));
        if buf.len() - 4 < n {
            None
        } else {
            Some(buf.subrange(4, 4 + n))
        }
    }
}

/// A SEMA frame as the storage plane reads it: the big-endian length
/// prefix, then the frame's body.
pub open spec fn sema_frame_bytes(length: u32, body: Seq<u8>) -> Seq<u8> {
    be32_bytes(length) + body
}

fn push_le32(out: &mut Vec<u8>, n: u32)
    ensures
        final(out)@ == old(out)@ + le32_bytes(n),
{
    out.push((n % 256) as u8);
    out.push(((n / 256) % 256) as u8);
    out.push(((n / 65536) % 256) as u8);
    out.push((n / 16777216) as u8);
}

fn push_be32(out: &mut Vec<u8>, n: u32)
    ensures
        final(out)@ == old(out)@ + be32_bytes(n),
{
    out.push((n / 16777216) as u8);
    out.push(((n / 65536) % 256) as u8);
    out.push(((n / 256) % 256) as u8);
    out.push((n % 256) as u8);
}

fn push_all(out: &mut Vec<u8>, bytes: &[u8])
    ensures
        final(out)@ == old(out)@ + bytes@,
{
    let ghost start = out@;
    let mut i: usize = 0;
    while i < bytes.len()
        invariant
            i <= bytes@.len(),
            out@ == start + bytes@.take(i as int),
        decreases bytes@.len() - i,
    {
        out.push(bytes[i]);
        i = i + 1;
        assert(bytes@.take(i as int) == bytes@.take(i - 1) + seq![bytes@[i - 1]]);
    }
    assert(bytes@.take(i as int) == bytes@);
}

/// Frames a message for the engine protocol: its length as a little-endian
/// `u32` (truncated to 32 bits, as the writer casts it), then the message.
pub fn encode_frame(bytes: &[u8]) -> (frame: Vec<u8>)
    ensures
        frame@ == wire_frame(bytes@),
        frame@.len() == bytes@.len() + 4,
        frame@[0] as int == bytes@.len() % 256,
        frame@[1] as int == (bytes@.len() / 256) % 256,
        frame@[2] as int == (bytes@.len() / 65536) % 256,
        frame@[3] as int == (bytes@.len() / 16777216) % 256,
        frame@.skip(4) == bytes@,
{
    proof {
        lemma_wire_frame_layout(bytes@);
    }
    let len: usize = bytes.len();
    let length: u32 = len as u32;
    assert(len as u32 == ((len as u64) % 0x1_0000_0000u64) as u32) by (bit_vector);
    let mut frame: Vec<u8> = Vec::new();
    push_le32(&mut frame, length);
    push_all(&mut frame, bytes);
    frame
}

/// Reads a length prefix of the engine protocol.
pub fn frame_length(prefix: [u8; 4]) -> (n: u32)
    ensures
        n == le32_value(prefix@),
{
    let b0: u32 = prefix[0] as u32;
    let b1: u32 = prefix[1] as u32;
    let b2: u32 = prefix[2] as u32;
    let b3: u32 = prefix[3] as u32;
    b0 + 256 * b1 + 65536 * b2 + 16777216 * b3
}

/// Takes one message of the engine protocol from the front of `buf`, or
/// `None` while the prefix or the message it announces is incomplete.
pub fn decode_frame(buf: &[u8]) -> (body: Option<Vec<u8>>)
    ensures
        match body {
            Some(b) => read_wire_frame(buf@) == Some(b@),
            None => read_wire_frame(buf@) is None,
        },
        match body {
            Some(b) => {
                &&& buf@.len() >= 4
                &&& buf@.len() >= 4 + announced_length(buf@)
                &&& b@.len() == announced_length(buf@)
                &&& b@ == buf@.subrange(4, 4 + announced_length(buf@))
            },
            None => buf@.len() < 4 || buf@.len() < 4 + announced_length(buf@),
        },
{
    proof {
        lemma_read_wire_frame_exact(buf@);
    }
    if buf.len() < 4 {
        return None;
    }
    let prefix: [u8; 4] = [buf[0], buf[1], buf[2], buf[3]];
    assert(prefix@ == buf@.take(4));
    let n: u32 = frame_length(prefix);
    let available: usize = buf.len() - 4;
    if (available as u64) < (n as u64) {
        return None;
    }
    let end: usize = 4 + n as usize;
    let mut body: Vec<u8> = Vec::new();
    let mut i: usize = 4;
    while i < end
        invariant
            4 <= i <= end,
            end <= buf@.len(),
            body@ == buf@.subrange(4, i as int),
        decreases end - i,
    {
        body.push(buf[i]);
        i = i + 1;
        assert(buf@.subrange(4, i as int) == buf@.subrange(4, i - 1) + seq![buf@[i - 1]]);
    }
    Some(body)
}

/// Assembles a SEMA frame read off the storage socket: the big-endian
/// length that was read, then the `length` bytes that followed it.
pub fn sema_frame(length: u32, body: &[u8]) -> (frame: Vec<u8>)
    requires
        body@.len() == length,
        length + 4 <= usize::MAX,
    ensures
        frame@ == sema_frame_bytes(length, body@),
{
    let mut frame: Vec<u8> = Vec::with_capacity(length as usize + 4);
    push_be32(&mut frame, length);
    push_all(&mut frame, body);
    frame
}

/// The little-endian prefix gives back the length it was made from.
pub proof fn lemma_le32_roundtrip(n: u32)
    ensures
        le32_bytes(n).len() == 4,
        le32_value(le32_bytes(n)) == n,
{
}

/// The big-endian prefix gives back the length it was made from.
pub proof fn lemma_be32_roundtrip(n: u32)
    ensures
        be32_bytes(n).len() == 4,
        be32_value(be32_bytes(n)) == n,
{
}

/// A reader of the engine protocol gives back exactly the message that was
/// written, whatever follows it on the stream, for every message shorter
/// than 2^32 bytes.
pub proof fn lemma_wire_frame_roundtrip(body: Seq<u8>, rest: Seq<u8>)
    requires
        body.len() < 0x1_0000_0000,
    ensures
        read_wire_frame(wire_frame(body) + rest) == Some(body),
{
    let len = wire_length(body.len());
    assert(len == body.len());
    lemma_le32_roundtrip(len);
    let buf = wire_frame(body) + rest;
    assert(buf.take(4) == le32_bytes(len));
    assert(buf.subrange(4, 4 + body.len() as int) == body);
}

/// A SEMA frame carries the length of its body in its first four bytes,
/// then the body itself.
pub proof fn lemma_sema_frame_layout(length: u32, body: Seq<u8>)
    requires
        body.len() == length,
    ensures
        be32_value(sema_frame_bytes(length, body).take(4)) == length,
        sema_frame_bytes(length, body).skip(4) == body,
{
    lemma_be32_roundtrip(length);
    assert(sema_frame_bytes(length, body).take(4) == be32_bytes(length));
    assert(sema_frame_bytes(length, body).skip(4) == body);
}

/// The length that the first four bytes of `buf` announce, read
/// little-endian: the first byte the least significant.
pub open spec fn announced_length(buf: Seq<u8>) -> int {
    buf[0] as int + 256 * (buf[1] as int) + 65536 * (buf[2] as int) + 16777216 * (buf[3] as int)
}

/// A message of the engine protocol is written as four bytes of its length,
/// least significant first and truncated to 32 bits, then the message
/// itself, unchanged.
pub proof fn lemma_wire_frame_layout(body: Seq<u8>)
    ensures
        wire_frame(body).len() == body.len() + 4,
        wire_frame(body)[0] as int == body.len() % 256,
        wire_frame(body)[1] as int == (body.len() / 256) % 256,
        wire_frame(body)[2] as int == (body.len() / 65536) % 256,
        wire_frame(body)[3] as int == (body.len() / 16777216) % 256,
        wire_frame(body).skip(4) == body,
{
    let n = wire_length(body.len());
    assert(n == body.len() % 0x1_0000_0000);
    assert((n / 16777216) as int == (body.len() / 16777216) % 256);
    assert(wire_frame(body).skip(4) =~= body);
}

/// A reader of the engine protocol produces a message only once the four
/// prefix bytes and all the bytes they announce are present, and the
/// message is exactly those announced bytes, in order.
pub proof fn lemma_read_wire_frame_exact(buf: Seq<u8>)
    ensures
        match read_wire_frame(buf) {
            Some(b) => {
                &&& buf.len() >= 4
                &&& buf.len() >= 4 + announced_length(buf)
                &&& b.len() == announced_length(buf)
                &&& b == buf.subrange(4, 4 + announced_length(buf))
            },
            None => buf.len() < 4 || buf.len() < 4 + announced_length(buf),
        },
{
    if buf.len() >= 4 {
        assert(le32_value(buf.take(4)) == announced_length(buf));
    }
}

} // verus!
