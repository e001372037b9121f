//! Whole messages on the stream: a message is sent as the frame of its
//! payload, and received by reading one frame and decoding its payload.

use crate::codec::{
    de_request, de_response, decode_request, decode_response, encode_request, encode_response,
    lemma_request_round_trip, lemma_response_round_trip, request_fits, response_fits, ser_request,
    ser_response,
};
use crate::framing::{
    frame, lemma_read_consumes_exactly_one_frame, read_frame, read_one, write_frame,
    PayloadTooLong, ReadOutcome, ReadOutcomeView,
};
use crate::protocol::{Request, RequestView, Response, ResponseView};
use vstd::prelude::*;

verus! {

/// What a reader finds at the head of the bytes it has received.
#[derive(Clone, Debug, PartialEq, Eq)]
pub enum Received<M> {
    /// One whole message, and how many bytes of the stream it took.
    Message { message: M, consumed: usize },
    /// The frame at the head is incomplete: so many bytes are still missing.
    NeedMore { missing: u64 },
    /// The peer closed the stream before another length prefix arrived.
    EndOfStream,
    /// The peer closed the stream in the middle of a payload.
    Truncated,
    /// A whole frame of `consumed` bytes whose payload is no message.
    Malformed { consumed: usize },
}

/// Mathematical value of a [`Received`].
pub enum ReceivedView<V> {
    Message { message: V, consumed: nat },
    NeedMore { missing: nat },
    EndOfStream,
    Truncated,
    Malformed { consumed: nat },
}

impl<M: View> View for Received<M> {
    type V = ReceivedView<M::V>;

    open spec fn view(&self) -> ReceivedView<M::V> {
        match self {
            Received::Message { message, consumed } => ReceivedView::Message {
                message: message@,
                consumed: *consumed as nat,
            },
            Received::NeedMore { missing } => ReceivedView::NeedMore { missing: *missing as nat },
            Received::EndOfStream => ReceivedView::EndOfStream,
            Received::Truncated => ReceivedView::Truncated,
            Received::Malformed { consumed } => ReceivedView::Malformed {
                consumed: *consumed as nat,
            },
        }
    }
}

/// What reading one message from `stream` yields, given what the payload of
/// a frame decodes to.
pub open spec fn received<V>(
    stream: Seq<u8>,
    closed: bool,
    decode: spec_fn(Seq<u8>) -> Option<(V, Seq<u8>)>,
) -> ReceivedView<V> {
    match read_one(stream, closed) {
        ReadOutcomeView::Message { payload, consumed } => match decode(payload) {
            Some((message, rest)) => ReceivedView::Message { message, consumed },
            None => ReceivedView::Malformed { consumed },
        },
        ReadOutcomeView::NeedMore { missing } => ReceivedView::NeedMore { missing },
        ReadOutcomeView::EndOfStream => ReceivedView::EndOfStream,
        ReadOutcomeView::Truncated => ReceivedView::Truncated,
    }
}

/// What the server finds at the head of `stream`.
pub open spec fn received_request(stream: Seq<u8>, closed: bool) -> ReceivedView<RequestView> {
    received(stream, closed, |payload: Seq<u8>| de_request(payload))
}

/// What the client finds at the head of `stream`.
pub open spec fn received_response(stream: Seq<u8>, closed: bool) -> ReceivedView<ResponseView> {
    received(stream, closed, |payload: Seq<u8>| de_response(payload))
}

/// A request that was sent is received as it was, and takes from the stream
/// the four bytes of the prefix and the bytes of the payload, no more and no
/// fewer.
pub proof fn lemma_sent_request_is_received(r: RequestView, rest: Seq<u8>, closed: bool)
    requires
        request_fits(r),
        ser_request(r).len() <= u32::MAX,
    ensures
        received_request(frame(ser_request(r)) + rest, closed) == (ReceivedView::Message {
            message: r,
            consumed: 4 + ser_request(r).len(),
        }),
{
    lemma_read_consumes_exactly_one_frame(ser_request(r), rest, closed);
    lemma_request_round_trip(r, Seq::empty());
    assert(ser_request(r) + Seq::<u8>::empty() =~= ser_request(r));
}

/// A response that was sent is received as it was, and takes from the stream
/// the four bytes of the prefix and the bytes of the payload, no more and no
/// fewer.
pub proof fn lemma_sent_response_is_received(r: ResponseView, rest: Seq<u8>, closed: bool)
    requires
        response_fits(r),
        ser_response(r).len() <= u32::MAX,
    ensures
        received_response(frame(ser_response(r)) + rest, closed) == (ReceivedView::Message {
            message: r,
            consumed: 4 + ser_response(r).len(),
        }),
{
    lemma_read_consumes_exactly_one_frame(ser_response(r), rest, closed);
    lemma_response_round_trip(r, Seq::empty());
    assert(ser_response(r) + Seq::<u8>::empty() =~= ser_response(r));
}

/// The bytes to write for `request`: its payload in a frame. Fails exactly
/// when the payload is longer than a frame can declare.
pub fn send_to_server(request: &Request) -> (out: Result<Vec<u8>, PayloadTooLong>)
    ensures
        request_fits(request@),
        ser_request(request@).len() <= u32::MAX ==> out is Ok && out->Ok_0@ == frame(
            ser_request(request@),
        ),
        ser_request(request@).len() > u32::MAX ==> out is Err && out->Err_0.len == ser_request(
            request@,
        ).len(),
{
    let payload = encode_request(request);
    write_frame(payload.as_slice())
}

/// The bytes to write for `response`: its payload in a frame. Fails exactly
/// when the payload is longer than a frame can declare.
pub fn send_to_client(response: &Response) -> (out: Result<Vec<u8>, PayloadTooLong>)
    ensures
        response_fits(response@),
        ser_response(response@).len() <= u32::MAX ==> out is Ok && out->Ok_0@ == frame(
            ser_response(response@),
        ),
        ser_response(response@).len() > u32::MAX ==> out is Err && out->Err_0.len == ser_response(
            response@,
        ).len(),
{
    let payload = encode_response(response);
    write_frame(payload.as_slice())
}

/// Reads one request from the head of `stream`, the bytes received so far
/// and not yet consumed; `closed` says that the peer has closed the stream.
pub fn read_request(stream: &[u8], closed: bool) -> (out: Received<Request>)
    ensures
        out@ == received_request(stream@, closed),
{
    match read_frame(stream, closed) {
        ReadOutcome::Message { payload, consumed } => match decode_request(payload.as_slice()) {
            Ok(message) => Received::Message { message, consumed },
            Err(_) => Received::Malformed { consumed },
        },
        ReadOutcome::NeedMore { missing } => Received::NeedMore { missing },
        ReadOutcome::EndOfStream => Received::EndOfStream,
        ReadOutcome::Truncated => Received::Truncated,
    }
}

/// Reads one response from the head of `stream`, the bytes received so far
/// and not yet consumed; `closed` says that the peer has closed the stream.
pub fn read_from_client(stream: &[u8], closed: bool) -> (out: Received<Response>)
    ensures
        out@ == received_response(stream@, closed),
{
    match read_frame(stream, closed) {
        ReadOutcome::Message { payload, consumed } => match decode_response(payload.as_slice()) {
            Ok(message) => Received::Message { message, consumed },
            Err(_) => Received::Malformed { consumed },
        },
        ReadOutcome::NeedMore { missing } => Received::NeedMore { missing },
        ReadOutcome::EndOfStream => Received::EndOfStream,
        ReadOutcome::Truncated => Received::Truncated,
    }
}

} // verus!
