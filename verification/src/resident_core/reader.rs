//! A response that arrives in pieces.

use super::protocol::{Response, ResponseView};
use super::wire::format::{Wire, WireError};
use super::wire::frame::{decode_response, expected_frame_len, framed, unframed, MAX_MESSAGE_BYTES};
use crate::bytes::{
    law_le_round_trip, le_bytes, le_value, lemma_byte_ranges, lemma_le_bytes_len, put_slice,
};
use vstd::prelude::*;
use vstd::string::*;

verus! {

/// The most bytes that are read at once.
pub const READ_CHUNK_BYTES: usize = 8192;

/// Why what arrives is no response.
#[derive(Clone, Copy, Debug, PartialEq, Eq, Structural)]
pub enum ReadError {
    Deadline,
    Disconnected,
    Trailing,
    Wire(WireError),
}

impl ReadError {
    pub open spec fn spec_message(self) -> Seq<char> {
        match self {
            ReadError::Deadline => "Resident Core response deadline elapsed"@,
            ReadError::Disconnected => "Resident Core disconnected inside its response frame"@,
            ReadError::Trailing => "Resident Core response contains trailing frame bytes"@,
            ReadError::Wire(error) => error.spec_message(),
        }
    }

    pub fn message(self) -> (message: String)
        ensures
            message@ == self.spec_message(),
    {
        match self {
            ReadError::Deadline => "Resident Core response deadline elapsed".to_owned(),
            ReadError::Disconnected => {
                "Resident Core disconnected inside its response frame".to_owned()
            },
            ReadError::Trailing => {
                "Resident Core response contains trailing frame bytes".to_owned()
            },
            ReadError::Wire(error) => error.message(),
        }
    }
}

/// What is known of a response of which `bytes` have arrived: `None` while
/// more must come.
pub open spec fn arrived(bytes: Seq<u8>) -> Option<Result<ResponseView, ReadError>> {
    if bytes.len() < 4 {
        None
    } else if le_value(bytes.take(4)) > MAX_MESSAGE_BYTES {
        Some(Err(ReadError::Wire(WireError::FrameTooLarge)))
    } else if bytes.len() < 4 + le_value(bytes.take(4)) {
        None
    } else if bytes.len() > 4 + le_value(bytes.take(4)) {
        Some(Err(ReadError::Trailing))
    } else {
        match unframed::<Response>(bytes) {
            Ok(response) => Some(Ok(response)),
            Err(error) => Some(Err(ReadError::Wire(error))),
        }
    }
}

/// The bytes of a response that have arrived.
pub struct ResponseReader {
    bytes: Vec<u8>,
}

impl View for ResponseReader {
    type V = Seq<u8>;

    closed spec fn view(&self) -> Seq<u8> {
        self.bytes@
    }
}

impl ResponseReader {
    pub fn new() -> (reader: Self)
        ensures
            reader@ == Seq::<u8>::empty(),
    {
        ResponseReader { bytes: Vec::new() }
    }

    /// How many bytes to read next: never more than the response still has.
    pub fn capacity(&self) -> (capacity: usize)
        requires
            arrived(self@) is None,
        ensures
            0 < capacity <= READ_CHUNK_BYTES,
            capacity == READ_CHUNK_BYTES || capacity == (if self@.len() < 4 {
                4 - self@.len()
            } else {
                4 + le_value(self@.take(4)) - self@.len()
            }),
            self@.len() < 4 ==> self@.len() + capacity == 4,
            self@.len() >= 4 ==> self@.len() + capacity <= 4 + le_value(self@.take(4)),
    {
        let missing = if self.bytes.len() < 4 {
            4 - self.bytes.len()
        } else {
            let prefix = [self.bytes[0], self.bytes[1], self.bytes[2], self.bytes[3]];
            proof {
                assert(prefix@ =~= self.bytes@.take(4));
            }
            match expected_frame_len(&prefix) {
                Ok(length) => length - self.bytes.len(),
                Err(_) => 1,
            }
        };
        if missing < READ_CHUNK_BYTES {
            missing
        } else {
            READ_CHUNK_BYTES
        }
    }

    /// Takes the next bytes; says what the response is once it is whole.
    pub fn accept(&mut self, chunk: &[u8]) -> (result: Option<Result<Response, ReadError>>)
        ensures
            final(self)@ == old(self)@ + chunk@,
            match arrived(final(self)@) {
                None => result is None,
                Some(Ok(response)) => result matches Some(Ok(found)) && found@ == response,
                Some(Err(error)) => result matches Some(Err(found)) && found == error,
            },
    {
        put_slice(&mut self.bytes, chunk);
        if self.bytes.len() < 4 {
            return None;
        }
        let prefix = [self.bytes[0], self.bytes[1], self.bytes[2], self.bytes[3]];
        proof {
            assert(prefix@ =~= self.bytes@.take(4));
        }
        match expected_frame_len(&prefix) {
            Err(error) => Some(Err(ReadError::Wire(error))),
            Ok(length) => {
                if self.bytes.len() == length {
                    match decode_response(self.bytes.as_slice()) {
                        Ok(response) => Some(Ok(response)),
                        Err(error) => Some(Err(ReadError::Wire(error))),
                    }
                } else if self.bytes.len() > length {
                    Some(Err(ReadError::Trailing))
                } else {
                    None
                }
            },
        }
    }

    /// Takes the end of the stream: before a response it is none, inside one
    /// it is an error.
    pub fn accept_end(&self) -> (result: Result<(), ReadError>)
        ensures
            match result {
                Ok(()) => self@.len() == 0,
                Err(error) => self@.len() > 0 && error == ReadError::Disconnected,
            },
    {
        if self.bytes.len() == 0 {
            Ok(())
        } else {
            Err(ReadError::Disconnected)
        }
    }
}

/// In whatever pieces a response arrives, it is known when its last byte is
/// there and not before.
pub proof fn law_pieces_make_the_response(response: ResponseView, count: nat)
    requires
        framed::<Response>(response) is Ok,
        Response::readable(response),
        count <= framed::<Response>(response)->Ok_0.len(),
    ensures
        ({
            let frame = framed::<Response>(response)->Ok_0;
            if count < frame.len() {
                arrived(frame.take(count as int)) is None
            } else {
                arrived(frame) == Some(
                    Ok::<ResponseView, ReadError>(Response::received(response)),
                )
            }
        }),
{
    let frame = framed::<Response>(response)->Ok_0;
    let payload = Response::form(response);
    lemma_byte_ranges();
    lemma_le_bytes_len(payload.len(), 4);
    law_le_round_trip(payload.len(), 4);
    assert(frame.take(4) =~= le_bytes(payload.len(), 4));
    super::wire::frame::law_responses_arrive(response);
    if 4 <= count < frame.len() {
        assert(frame.take(count as int).take(4) =~= frame.take(4));
    }
}

} // verus!
