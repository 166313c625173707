//! Length-prefixed framing: every frame is a 4-byte big-endian length
//! followed by exactly that many payload bytes.
use vstd::prelude::*;

verus! {

/// Largest datagram that the tick channel ever sends or accepts.
pub const UDP_DATAGRAM_SIZE: usize = 65536;

/// Number of bytes of the length header.
pub const HEADER_LEN: usize = 4;

/// Why a frame could not be built or read.
#[derive(Debug, Clone, Copy, PartialEq, Eq, Structural)]
pub enum FrameError {
    /// The payload is longer than a 32-bit length header can describe.
    PayloadTooLarge,
    /// The whole frame would not fit in one datagram.
    DatagramTooLarge,
    /// Fewer bytes than the header, or than the header announces.
    Truncated,
    /// More bytes than the header announces.
    TrailingBytes,
}

/// The four big-endian bytes of `n`.
pub open spec fn be_bytes(n: u32) -> Seq<u8> {
    seq![(n >> 24u32) as u8, (n >> 16u32) as u8, (n >> 8u32) as u8, n as u8]
}

/// The number that four big-endian bytes stand for.
pub open spec fn be_value(b0: u8, b1: u8, b2: u8, b3: u8) -> u32 {
    ((b0 as u32) << 24u32) | ((b1 as u32) << 16u32) | ((b2 as u32) << 8u32) | (b3 as u32)
}

/// The frame that carries `p`.
pub open spec fn frame(p: Seq<u8>) -> Seq<u8>
    recommends
        p.len() <= u32::MAX,
{
    be_bytes(p.len() as u32) + p
}

/// The length that the header at the start of `b` announces.
pub open spec fn announced_len(b: Seq<u8>) -> int
    recommends
        b.len() >= 4,
{
    be_value(b[0], b[1], b[2], b[3]) as int
}

/// `b` starts with a whole frame.
pub open spec fn has_whole_frame(b: Seq<u8>) -> bool {
    b.len() >= 4 && b.len() >= 4 + announced_len(b)
}

/// Number of bytes of the first frame of `b`.
pub open spec fn first_frame_len(b: Seq<u8>) -> int {
    4 + announced_len(b)
}

/// Payload of the first frame of `b`.
pub open spec fn first_payload(b: Seq<u8>) -> Seq<u8> {
    b.subrange(4, first_frame_len(b))
}

proof fn lemma_be_round_trip(n: u32)
    ensures
        be_value((n >> 24u32) as u8, (n >> 16u32) as u8, (n >> 8u32) as u8, n as u8) == n,
{
    assert((((((n >> 24u32) as u8) as u32) << 24u32) | ((((n >> 16u32) as u8) as u32) << 16u32)
        | ((((n >> 8u32) as u8) as u32) << 8u32) | (((n as u8) as u32))) == n) by (bit_vector);
}

/// Framing is undone by reading: whatever follows a frame, the reader finds
/// a whole frame at the start, of the payload's length, holding the payload.
pub proof fn lemma_frame_round_trip(p: Seq<u8>, rest: Seq<u8>)
    requires
        p.len() <= u32::MAX,
    ensures
        has_whole_frame(frame(p) + rest),
        first_frame_len(frame(p) + rest) == 4 + p.len(),
        first_payload(frame(p) + rest) == p,
{
    let n = p.len() as u32;
    lemma_be_round_trip(n);
    let b = frame(p) + rest;
    assert(b[0] == (n >> 24u32) as u8);
    assert(b[1] == (n >> 16u32) as u8);
    assert(b[2] == (n >> 8u32) as u8);
    assert(b[3] == n as u8);
    assert(announced_len(b) == p.len());
    assert(first_payload(b) =~= p);
}

fn header_bytes(n: u32) -> (r: [u8; 4])
    ensures
        r@ == be_bytes(n),
{
    let r = [(n >> 24u32) as u8, (n >> 16u32) as u8, (n >> 8u32) as u8, n as u8];
    assert(r@ =~= be_bytes(n));
    r
}

fn append_slice(buf: &mut Vec<u8>, s: &[u8])
    ensures
        final(buf)@ == old(buf)@ + s@,
{
    let ghost start = buf@;
    let mut i: usize = 0;
    while i < s.len()
        invariant
            0 <= i <= s.len(),
            buf@ == start + s@.subrange(0, i as int),
        decreases s.len() - i,
    {
        buf.push(s[i]);
        i = i + 1;
        assert(buf@ =~= start + s@.subrange(0, i as int));
    }
    assert(s@.subrange(0, s@.len() as int) =~= s@);
}

/// Appends to `buf` the frame that carries `slice`: its length as a 4-byte
/// big-endian header, then the bytes themselves.
pub fn write_to_buf_with_len(buf: &mut Vec<u8>, slice: &[u8]) -> (r: Result<(), FrameError>)
    ensures
        r is Ok <==> slice@.len() <= u32::MAX,
        r is Ok ==> final(buf)@ == old(buf)@ + frame(slice@),
        r == Err::<(), FrameError>(FrameError::PayloadTooLarge) <==> slice@.len() > u32::MAX,
        r is Err ==> final(buf)@ == old(buf)@,
{
    if slice.len() > u32::MAX as usize {
        return Err(FrameError::PayloadTooLarge);
    }
    let header = header_bytes(slice.len() as u32);
    let ghost start = buf@;
    append_slice(buf, &header);
    append_slice(buf, slice);
    assert(buf@ =~= start + frame(slice@));
    Ok(())
}

/// The frame that carries `payload`, for the control channel.
pub fn encode_frame(payload: &[u8]) -> (r: Result<Vec<u8>, FrameError>)
    ensures
        r is Ok <==> payload@.len() <= u32::MAX,
        r is Ok ==> r->Ok_0@ == frame(payload@),
        r is Err ==> r->Err_0 == FrameError::PayloadTooLarge,
{
    let mut out: Vec<u8> = Vec::new();
    match write_to_buf_with_len(&mut out, payload) {
        Ok(()) => {
            assert(out@ =~= frame(payload@));
            Ok(out)
        },
        Err(e) => Err(e),
    }
}

/// The datagram that carries `payload` on the tick channel. A payload whose
/// frame would exceed the datagram size is refused, never cut short.
pub fn encode_datagram(payload: &[u8]) -> (r: Result<Vec<u8>, FrameError>)
    ensures
        r is Ok <==> 4 + payload@.len() <= UDP_DATAGRAM_SIZE,
        r is Ok ==> r->Ok_0@ == frame(payload@) && r->Ok_0@.len() <= UDP_DATAGRAM_SIZE,
        r is Err ==> r->Err_0 == FrameError::DatagramTooLarge,
{
    if payload.len() > UDP_DATAGRAM_SIZE - HEADER_LEN {
        return Err(FrameError::DatagramTooLarge);
    }
    match encode_frame(payload) {
        Ok(v) => Ok(v),
        Err(_) => Err(FrameError::DatagramTooLarge),
    }
}

fn announced(b: &[u8]) -> (n: u32)
    requires
        b@.len() >= 4,
    ensures
        n as int == announced_len(b@),
{
    ((b[0] as u32) << 24u32) | ((b[1] as u32) << 16u32) | ((b[2] as u32) << 8u32) | (b[3] as u32)
}

fn copy_range(b: &[u8], from: usize, to: usize) -> (r: Vec<u8>)
    requires
        from <= to <= b@.len(),
    ensures
        r@ == b@.subrange(from as int, to as int),
{
    let mut r: Vec<u8> = Vec::new();
    let mut i: usize = from;
    while i < to
        invariant
            from <= i <= to <= b@.len(),
            r@ == b@.subrange(from as int, i as int),
        decreases to - i,
    {
        r.push(b[i]);
        i = i + 1;
        assert(r@ =~= b@.subrange(from as int, i as int));
    }
    r
}

/// Reads the first frame of `bytes`: its payload and the number of bytes it
/// took, or `None` while the frame is not yet whole.
pub fn parse_frame(bytes: &[u8]) -> (r: Option<(Vec<u8>, usize)>)
    ensures
        r is Some <==> has_whole_frame(bytes@),
        r is Some ==> r->Some_0.0@ == first_payload(bytes@) && r->Some_0.1 as int
            == first_frame_len(bytes@),
{
    if bytes.len() < HEADER_LEN {
        return None;
    }
    let n = announced(bytes);
    if bytes.len() - HEADER_LEN < n as usize {
        return None;
    }
    let end = HEADER_LEN + n as usize;
    Some((copy_range(bytes, HEADER_LEN, end), end))
}

/// Reads the payload of one datagram, which must hold exactly one frame.
pub fn decode_datagram(datagram: &[u8]) -> (r: Result<Vec<u8>, FrameError>)
    ensures
        r is Ok <==> datagram@.len() >= 4 && datagram@.len() == first_frame_len(datagram@),
        r is Ok ==> r->Ok_0@ == first_payload(datagram@),
        r == Err::<Vec<u8>, FrameError>(FrameError::Truncated) <==> !has_whole_frame(datagram@),
        r == Err::<Vec<u8>, FrameError>(FrameError::TrailingBytes) <==> (has_whole_frame(
            datagram@,
        ) && datagram@.len() > first_frame_len(datagram@)),
{
    match parse_frame(datagram) {
        None => Err(FrameError::Truncated),
        Some((payload, used)) => {
            if used < datagram.len() {
                Err(FrameError::TrailingBytes)
            } else {
                Ok(payload)
            }
        },
    }
}

/// Collects the bytes of a stream as they arrive and hands out whole frames
/// only: a payload is never read from a partial buffer.
pub struct FrameReader {
    pending: Vec<u8>,
}

impl FrameReader {
    /// The bytes received and not yet handed out.
    pub closed spec fn pending(&self) -> Seq<u8> {
        self.pending@
    }

    /// A reader that holds nothing yet.
    pub fn new() -> (r: FrameReader)
        ensures
            r.pending() == Seq::<u8>::empty(),
    {
        FrameReader { pending: Vec::new() }
    }

    /// Takes in the bytes of one read from the stream.
    pub fn push(&mut self, bytes: &[u8])
        ensures
            final(self).pending() == old(self).pending() + bytes@,
    {
        append_slice(&mut self.pending, bytes);
    }

    /// Number of bytes held.
    pub fn pending_len(&self) -> (n: usize)
        ensures
            n == self.pending().len(),
    {
        self.pending.len()
    }

    /// Hands out the payload of the first frame once it is whole, and drops
    /// its bytes; leaves everything as it is while the frame is partial.
    pub fn next_frame(&mut self) -> (r: Option<Vec<u8>>)
        ensures
            r is Some <==> has_whole_frame(old(self).pending()),
            r is Some ==> r->Some_0@ == first_payload(old(self).pending()) && final(self).pending()
                == old(self).pending().subrange(
                first_frame_len(old(self).pending()),
                old(self).pending().len() as int,
            ),
            r is None ==> final(self).pending() == old(self).pending(),
    {
        match parse_frame(self.pending.as_slice()) {
            None => None,
            Some((payload, used)) => {
                let rest = copy_range(self.pending.as_slice(), used, self.pending.len());
                self.pending = rest;
                Some(payload)
            },
        }
    }
}

} // verus!
