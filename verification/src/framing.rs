//! Length-prefixed framing: every message on the wire is a 4-byte big-endian
//! length followed by that many payload bytes.

use vstd::prelude::*;

verus! {

/// Number of bytes of the length prefix.
pub const PREFIX_LEN: usize = 4;

/// The four bytes of `n`, most significant first.
pub open spec fn be_u32(n: u32) -> Seq<u8> {
    seq![
        (n / 0x100_0000) as u8,
        (n / 0x1_0000 % 0x100) as u8,
        (n / 0x100 % 0x100) as u8,
        (n % 0x100) as u8,
    ]
}

/// The number whose big-endian bytes are the first four of `b`.
pub open spec fn from_be_u32(b: Seq<u8>) -> nat
    recommends
        b.len() >= 4,
{
    (b[0] as nat) * 0x100_0000 + (b[1] as nat) * 0x1_0000 + (b[2] as nat) * 0x100 + (b[3] as nat)
}

/// The frame that carries `payload`.
pub open spec fn frame(payload: Seq<u8>) -> Seq<u8>
    recommends
        payload.len() <= u32::MAX,
{
    be_u32(payload.len() as u32) + payload
}

/// Decoding the prefix of an encoded length gives the length back.
pub proof fn lemma_be_u32_round_trip(n: u32, rest: Seq<u8>)
    ensures
        be_u32(n).len() == 4,
        from_be_u32(be_u32(n) + rest) == n,
{
    let b = be_u32(n) + rest;
    assert(b[0] == be_u32(n)[0]);
    assert(b[1] == be_u32(n)[1]);
    assert(b[2] == be_u32(n)[2]);
    assert(b[3] == be_u32(n)[3]);
}

/// A payload that is too long for the length prefix.
#[derive(Clone, Copy, Debug, PartialEq, Eq)]
pub struct PayloadTooLong {
    pub len: usize,
}

/// What a reader finds at the head of the bytes it has received.
#[derive(Clone, Debug, PartialEq, Eq)]
pub enum ReadOutcome {
    /// One whole frame: its payload, and how many bytes of the stream it took.
    Message { payload: Vec<u8>, consumed: usize },
    /// The frame at the head is incomplete: so many bytes are still missing.
    NeedMore { missing: u64 },
    /// The peer closed the stream before another length prefix arrived.
    EndOfStream,
    /// The peer closed the stream in the middle of a payload.
    Truncated,
}

/// Mathematical value of a [`ReadOutcome`].
pub enum ReadOutcomeView {
    Message { payload: Seq<u8>, consumed: nat },
    NeedMore { missing: nat },
    EndOfStream,
    Truncated,
}

impl View for ReadOutcome {
    type V = ReadOutcomeView;

    open spec fn view(&self) -> ReadOutcomeView {
        match self {
            ReadOutcome::Message { payload, consumed } => ReadOutcomeView::Message {
                payload: payload@,
                consumed: *consumed as nat,
            },
            ReadOutcome::NeedMore { missing } => ReadOutcomeView::NeedMore {
                missing: *missing as nat,
            },
            ReadOutcome::EndOfStream => ReadOutcomeView::EndOfStream,
            ReadOutcome::Truncated => ReadOutcomeView::Truncated,
        }
    }
}

/// What reading one frame from `stream` yields, where `closed` says that the
/// peer will send no more than `stream`.
///
/// A frame is complete once its prefix and as many payload bytes as the
/// prefix declares have arrived; the reader takes those bytes and no others.
pub open spec fn read_one(stream: Seq<u8>, closed: bool) -> ReadOutcomeView {
    if stream.len() < 4 {
        if closed {
            ReadOutcomeView::EndOfStream
        } else {
            ReadOutcomeView::NeedMore { missing: (4 - stream.len()) as nat }
        }
    } else {
        let declared = from_be_u32(stream);
        if stream.len() >= 4 + declared {
            ReadOutcomeView::Message {
                payload: stream.subrange(4, 4 + declared as int),
                consumed: 4 + declared,
            }
        } else if closed {
            ReadOutcomeView::Truncated
        } else {
            ReadOutcomeView::NeedMore { missing: (4 + declared - stream.len()) as nat }
        }
    }
}

/// Reading a stream that starts with the frame of a payload of `n` bytes
/// yields that payload and takes exactly `4 + n` bytes, whatever follows the
/// frame and whether or not the peer has closed.
pub proof fn lemma_read_consumes_exactly_one_frame(payload: Seq<u8>, rest: Seq<u8>, closed: bool)
    requires
        payload.len() <= u32::MAX,
    ensures
        read_one(frame(payload) + rest, closed) == (ReadOutcomeView::Message {
            payload,
            consumed: 4 + payload.len(),
        }),
        (frame(payload) + rest).skip(4 + payload.len() as int) == rest,
{
    let n = payload.len() as u32;
    let stream = frame(payload) + rest;
    lemma_be_u32_round_trip(n, payload + rest);
    assert(stream =~= be_u32(n) + (payload + rest));
    assert(stream.subrange(4, 4 + payload.len() as int) =~= payload);
    assert(stream.skip(4 + payload.len() as int) =~= rest);
}

/// A stream that ends inside a frame never yields a message.
pub proof fn lemma_partial_frame_is_no_message(payload: Seq<u8>, cut: int, closed: bool)
    requires
        payload.len() <= u32::MAX,
        0 <= cut < 4 + payload.len(),
    ensures
        !(read_one(frame(payload).subrange(0, cut), closed) is Message),
{
    let n = payload.len() as u32;
    let stream = frame(payload).subrange(0, cut);
    if cut >= 4 {
        lemma_be_u32_round_trip(n, payload);
        assert(stream[0] == frame(payload)[0]);
        assert(stream[1] == frame(payload)[1]);
        assert(stream[2] == frame(payload)[2]);
        assert(stream[3] == frame(payload)[3]);
    }
}

/// The length prefix for a payload of `n` bytes.
pub fn encode_length(n: u32) -> (out: Vec<u8>)
    ensures
        out@ == be_u32(n),
{
    let mut out: Vec<u8> = Vec::new();
    out.push((n / 0x100_0000) as u8);
    out.push((n / 0x1_0000 % 0x100) as u8);
    out.push((n / 0x100 % 0x100) as u8);
    out.push((n % 0x100) as u8);
    assert(out@ =~= be_u32(n));
    out
}

/// The length that the first four bytes of `bytes` declare.
pub fn decode_length(bytes: &[u8]) -> (n: u32)
    requires
        bytes@.len() >= 4,
    ensures
        n == from_be_u32(bytes@),
{
    (bytes[0] as u32) * 0x100_0000 + (bytes[1] as u32) * 0x1_0000 + (bytes[2] as u32) * 0x100
        + (bytes[3] as u32)
}

/// Wraps `payload` in a frame. Fails exactly when the payload is longer than
/// the prefix can declare.
pub fn write_frame(payload: &[u8]) -> (out: Result<Vec<u8>, PayloadTooLong>)
    ensures
        payload@.len() <= u32::MAX ==> out is Ok && out->Ok_0@ == frame(payload@),
        payload@.len() > u32::MAX ==> out == Err::<Vec<u8>, PayloadTooLong>(
            PayloadTooLong { len: payload.len() },
        ),
{
    let len = payload.len();
    if len > u32::MAX as usize {
        return Err(PayloadTooLong { len });
    }
    let mut out = encode_length(len as u32);
    let mut i: usize = 0;
    while i < len
        invariant
            len == payload@.len(),
            i <= len,
            out@ == be_u32(len as u32) + payload@.subrange(0, i as int),
        decreases len - i,
    {
        out.push(payload[i]);
        assert(payload@.subrange(0, i + 1) =~= payload@.subrange(0, i as int).push(
            payload@[i as int],
        ));
        i += 1;
    }
    assert(payload@.subrange(0, len as int) =~= payload@);
    Ok(out)
}

/// Reads one frame from the head of `stream`, the bytes received so far and
/// not yet consumed; `closed` says that the peer has closed the stream.
pub fn read_frame(stream: &[u8], closed: bool) -> (out: ReadOutcome)
    ensures
        out@ == read_one(stream@, closed),
{
    let have = stream.len();
    if have < PREFIX_LEN {
        if closed {
            return ReadOutcome::EndOfStream;
        }
        return ReadOutcome::NeedMore { missing: (PREFIX_LEN - have) as u64 };
    }
    let declared = decode_length(stream);
    let needed: u64 = declared as u64 + 4;
    if have as u64 >= needed {
        let end = needed as usize;
        let mut payload: Vec<u8> = Vec::new();
        let mut i: usize = PREFIX_LEN;
        while i < end
            invariant
                4 <= i <= end <= stream@.len(),
                payload@ == stream@.subrange(4, i as int),
            decreases end - i,
        {
            payload.push(stream[i]);
            assert(stream@.subrange(4, i + 1) =~= stream@.subrange(4, i as int).push(
                stream@[i as int],
            ));
            i += 1;
        }
        ReadOutcome::Message { payload, consumed: end }
    } else if closed {
        ReadOutcome::Truncated
    } else {
        ReadOutcome::NeedMore { missing: needed - have as u64 }
    }
}

} // verus!
