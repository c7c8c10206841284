//! Frames: messages behind their length.

use super::format::{Wire, WireError};
use crate::bytes::{
    le_bytes, le_value, lemma_byte_ranges, lemma_le_bytes_len, law_le_round_trip, put_le, put_slice,
    read_le, Decoder,
};
use crate::resident_core::protocol::{Request, RequestView, Response, ResponseView};
use vstd::prelude::*;

verus! {

/// The longest payload of a frame.
pub const MAX_MESSAGE_BYTES: u64 = 16777216;

/// The frame of a message, or why it has none.
pub open spec fn framed<T: Wire>(message: T::V) -> Result<Seq<u8>, WireError> {
    let payload = T::form(message);
    match T::refusal(message) {
        Some(error) => Err(error),
        None => if payload.len() > MAX_MESSAGE_BYTES {
            Err(WireError::FrameTooLarge)
        } else {
            Ok(le_bytes(payload.len(), 4) + payload)
        },
    }
}

/// The payload of a frame, or why it is none.
pub open spec fn payload_of(frame: Seq<u8>) -> Result<Seq<u8>, WireError> {
    let length = le_value(frame.take(4));
    if frame.len() < 4 {
        Err(WireError::MissingLengthPrefix)
    } else if length > MAX_MESSAGE_BYTES {
        Err(WireError::FrameTooLarge)
    } else if frame.len() != 4 + length {
        Err(WireError::LengthMismatch)
    } else {
        Ok(frame.skip(4))
    }
}

/// The message in a frame, or why there is none.
pub open spec fn unframed<T: Wire>(frame: Seq<u8>) -> Result<T::V, WireError> {
    match payload_of(frame) {
        Err(error) => Err(error),
        Ok(payload) => match T::parse(payload) {
            Err(error) => Err(error),
            Ok((message, rest)) => if rest.len() > 0 {
                Err(WireError::TrailingBytes)
            } else {
                Ok(message)
            },
        },
    }
}

/// Decoding an encoded message gives the message as the other side receives
/// it.
pub proof fn law_frames_round_trip<T: Wire>(message: T::V)
    requires
        framed::<T>(message) is Ok,
        T::readable(message),
    ensures
        unframed::<T>(framed::<T>(message)->Ok_0) == Result::<T::V, WireError>::Ok(
            T::received(message),
        ),
{
    let payload = T::form(message);
    let prefix = le_bytes(payload.len(), 4);
    let frame = framed::<T>(message)->Ok_0;
    lemma_byte_ranges();
    lemma_le_bytes_len(payload.len(), 4);
    law_le_round_trip(payload.len(), 4);
    assert(frame.take(4) =~= prefix);
    assert(frame.skip(4) =~= payload);
    T::round_trip(message, Seq::empty());
    assert(payload + Seq::empty() =~= payload);
}

/// Every request that has a frame arrives as it was sent, where its
/// identities are those of resources.
pub proof fn law_requests_arrive(request: RequestView)
    requires
        framed::<Request>(request) is Ok,
        Request::readable(request),
    ensures
        unframed::<Request>(framed::<Request>(request)->Ok_0) == Result::<
            RequestView,
            WireError,
        >::Ok(request),
{
    law_frames_round_trip::<Request>(request);
}

/// Every response that has a frame arrives as it was sent, but for whether
/// names were chosen.
pub proof fn law_responses_arrive(response: ResponseView)
    requires
        framed::<Response>(response) is Ok,
        Response::readable(response),
    ensures
        unframed::<Response>(framed::<Response>(response)->Ok_0) == Result::<
            ResponseView,
            WireError,
        >::Ok(Response::received(response)),
{
    law_frames_round_trip::<Response>(response);
}

/// The length of the frame that `prefix` begins, with the prefix.
pub fn expected_frame_len(prefix: &[u8; 4]) -> (length: Result<usize, WireError>)
    ensures
        match length {
            Ok(length) => le_value(prefix@) <= MAX_MESSAGE_BYTES && length == 4 + le_value(
                prefix@,
            ),
            Err(error) => le_value(prefix@) > MAX_MESSAGE_BYTES && error
                == WireError::FrameTooLarge,
        },
{
    let payload_length = read_le(prefix.as_slice());
    if payload_length > MAX_MESSAGE_BYTES {
        return Err(WireError::FrameTooLarge);
    }
    Ok(4 + payload_length as usize)
}

/// Puts a message behind its length.
fn encode<T: Wire>(message: &T) -> (frame: Result<Vec<u8>, WireError>)
    ensures
        match framed::<T>(message@) {
            Ok(bytes) => frame is Ok && frame->Ok_0@ == bytes,
            Err(error) => frame is Err && frame->Err_0 == error,
        },
{
    let mut payload: Vec<u8> = Vec::new();
    if let Err(error) = message.put(&mut payload) {
        return Err(error);
    }
    proof {
        assert(payload@ =~= T::form(message@));
    }
    if payload.len() as u64 > MAX_MESSAGE_BYTES {
        return Err(WireError::FrameTooLarge);
    }
    let mut frame: Vec<u8> = Vec::with_capacity(4 + payload.len());
    put_le(&mut frame, payload.len() as u64, 4);
    put_slice(&mut frame, payload.as_slice());
    proof {
        assert(frame@ =~= le_bytes(payload@.len(), 4) + payload@);
    }
    Ok(frame)
}

/// Reads a message behind its length.
fn decode<T: Wire>(frame: &[u8]) -> (message: Result<T, WireError>)
    ensures
        match unframed::<T>(frame@) {
            Ok(value) => message is Ok && message->Ok_0@ == value,
            Err(error) => message is Err && message->Err_0 == error,
        },
{
    if frame.len() < 4 {
        return Err(WireError::MissingLengthPrefix);
    }
    let (prefix, payload) = frame.split_at(4);
    proof {
        assert(prefix@ =~= frame@.take(4));
        assert(payload@ =~= frame@.skip(4));
    }
    let length = read_le(prefix);
    if length > MAX_MESSAGE_BYTES {
        return Err(WireError::FrameTooLarge);
    }
    if payload.len() as u64 != length {
        return Err(WireError::LengthMismatch);
    }
    let mut decoder = Decoder::new(payload);
    match T::get(&mut decoder) {
        Err(error) => Err(error),
        Ok(message) => if decoder.is_finished() {
            Ok(message)
        } else {
            Err(WireError::TrailingBytes)
        },
    }
}

pub fn encode_request(request: &Request) -> (frame: Result<Vec<u8>, WireError>)
    ensures
        match framed::<Request>(request@) {
            Ok(bytes) => frame is Ok && frame->Ok_0@ == bytes,
            Err(error) => frame is Err && frame->Err_0 == error,
        },
{
    encode(request)
}

pub fn decode_request(frame: &[u8]) -> (request: Result<Request, WireError>)
    ensures
        match unframed::<Request>(frame@) {
            Ok(value) => request is Ok && request->Ok_0@ == value,
            Err(error) => request is Err && request->Err_0 == error,
        },
{
    decode(frame)
}

pub fn encode_response(response: &Response) -> (frame: Result<Vec<u8>, WireError>)
    ensures
        match framed::<Response>(response@) {
            Ok(bytes) => frame is Ok && frame->Ok_0@ == bytes,
            Err(error) => frame is Err && frame->Err_0 == error,
        },
{
    encode(response)
}

pub fn decode_response(frame: &[u8]) -> (response: Result<Response, WireError>)
    ensures
        match unframed::<Response>(frame@) {
            Ok(value) => response is Ok && response->Ok_0@ == value,
            Err(error) => response is Err && response->Err_0 == error,
        },
{
    decode(frame)
}

} // verus!
