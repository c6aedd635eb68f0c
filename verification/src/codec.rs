//! The wire codec: one frame is an eight-byte little-endian length followed
//! by that many bytes of UTF-8 text. Requests and replies use the same frame.

use vstd::prelude::*;
use vstd::bytes::*;
use vstd::slice::*;
use vstd::utf8::*;

verus! {

/// The error of `bincode`, carried from the serializer's calls to the point
/// where it is mapped; nothing is read out of it.
#[verifier::external_type_specification]
#[verifier::external_body]
pub struct ExErrorKind(bincode::ErrorKind);

/// The bytes of the frame that carries `text`.
pub open spec fn frame_of(text: Seq<char>) -> Seq<u8> {
    let payload = encode_utf8(text);
    spec_u64_to_le_bytes(payload.len() as u64) + payload
}

/// The payload length announced by the header at the front of `bytes`.
pub open spec fn announced_len(bytes: Seq<u8>) -> int
    recommends
        bytes.len() >= 8,
{
    spec_u64_from_le_bytes(bytes.subrange(0, 8)) as int
}

/// The payload of the frame at the front of `bytes`.
pub open spec fn payload_at_front(bytes: Seq<u8>) -> Seq<u8>
    recommends
        bytes.len() >= 8 + announced_len(bytes),
{
    bytes.subrange(8, 8 + announced_len(bytes))
}

/// Whether `bytes` begins with a whole, well-formed frame.
pub open spec fn frame_at_front(bytes: Seq<u8>) -> bool {
    &&& bytes.len() >= 8
    &&& bytes.len() >= 8 + announced_len(bytes)
    &&& valid_utf8(payload_at_front(bytes))
}

/// Calls `bincode::serialize` on a string. With bincode's default
/// configuration (fixed-width integers, little endian, no size limit) the
/// result is the length of the string in bytes as a `u64`, then the bytes.
/// Nothing on that path can fail: the limit is infinite and the sink is a
/// `Vec`.
#[verifier::external_body]
fn bincode_serialize(text: &String) -> (r: Result<Vec<u8>, Box<bincode::ErrorKind>>)
    ensures
        r is Ok,
        r matches Ok(bytes) ==> bytes@ == frame_of(text@),
{
    bincode::serialize(text)
}

/// Calls `bincode::deserialize` for a `String`. It reads a `u64` length from
/// the first eight bytes, takes that many bytes after them and checks that
/// they are UTF-8; bytes behind the frame are ignored. It fails when the
/// slice is shorter than the header or the announced payload, and when the
/// payload is not UTF-8.
#[verifier::external_body]
fn bincode_deserialize(bytes: &[u8]) -> (r: Result<String, Box<bincode::ErrorKind>>)
    ensures
        r is Ok <==> frame_at_front(bytes@),
        r matches Ok(text) ==> text@ == decode_utf8(payload_at_front(bytes@)),
{
    bincode::deserialize(bytes)
}

/// What the front of a receive buffer holds.
#[derive(Debug, PartialEq, Eq)]
pub enum Decoded {
    /// Not yet a whole frame: more bytes are needed.
    Incomplete,
    /// A whole frame: its text, and the number of bytes it occupies.
    Frame { text: String, consumed: usize },
    /// Bytes that can never become a frame.
    Malformed,
}

/// The mathematical content of a [`Decoded`].
pub enum Decoding {
    Incomplete,
    Frame { text: Seq<char>, consumed: int },
    Malformed,
}

impl View for Decoded {
    type V = Decoding;

    open spec fn view(&self) -> Decoding {
        match self {
            Decoded::Incomplete => Decoding::Incomplete,
            Decoded::Frame { text, consumed } => Decoding::Frame {
                text: text@,
                consumed: *consumed as int,
            },
            Decoded::Malformed => Decoding::Malformed,
        }
    }
}

/// What a receive buffer holding `bytes` decodes to. A header is awaited in
/// full, then the payload it announces. A payload that is not UTF-8, or too
/// long to ever be held in memory, makes the buffer malformed.
pub open spec fn decoding_of(bytes: Seq<u8>) -> Decoding {
    if bytes.len() < 8 {
        Decoding::Incomplete
    } else if 8 + announced_len(bytes) > usize::MAX {
        Decoding::Malformed
    } else if bytes.len() < 8 + announced_len(bytes) {
        Decoding::Incomplete
    } else if !valid_utf8(payload_at_front(bytes)) {
        Decoding::Malformed
    } else {
        Decoding::Frame {
            text: decode_utf8(payload_at_front(bytes)),
            consumed: 8 + announced_len(bytes),
        }
    }
}

/// Encodes one text payload as a frame.
pub fn encode_frame(text: &String) -> (bytes: Vec<u8>)
    ensures
        bytes@ == frame_of(text@),
{
    match bincode_serialize(text) {
        Ok(bytes) => bytes,
        Err(_) => {
            // Serializing a string into memory does not fail.
            assert(false);
            Vec::new()
        },
    }
}

/// Decodes the frame at the front of a receive buffer, if a whole one is
/// there. Bytes behind the frame are left for the next call.
pub fn decode_frame(bytes: &[u8]) -> (decoded: Decoded)
    ensures
        decoded@ == decoding_of(bytes@),
{
    if bytes.len() < 8 {
        return Decoded::Incomplete;
    }
    let announced: u64 = u64_from_le_bytes(slice_subrange(bytes, 0, 8));
    if announced > (usize::MAX - 8) as u64 {
        return Decoded::Malformed;
    }
    let payload_len: usize = announced as usize;
    if bytes.len() - 8 < payload_len {
        return Decoded::Incomplete;
    }
    match bincode_deserialize(bytes) {
        Ok(text) => Decoded::Frame { text, consumed: 8 + payload_len },
        Err(_) => Decoded::Malformed,
    }
}

/// A frame decodes to the text it was made from, whatever follows it in the
/// buffer, and occupies exactly its own bytes.
pub proof fn lemma_frame_round_trip(text: Seq<char>, rest: Seq<u8>)
    requires
        8 + encode_utf8(text).len() <= usize::MAX,
    ensures
        decoding_of(frame_of(text) + rest) == (Decoding::Frame {
            text,
            consumed: frame_of(text).len() as int,
        }),
{
    let payload = encode_utf8(text);
    let header = spec_u64_to_le_bytes(payload.len() as u64);
    let bytes = frame_of(text) + rest;
    lemma_auto_spec_u64_to_from_le_bytes();
    assert(bytes.subrange(0, 8) =~= header);
    assert(payload_at_front(bytes) =~= payload);
    encode_utf8_valid_utf8(text);
    encode_utf8_decode_utf8(text);
}

/// A frame that has arrived only in part is never taken for a frame, nor
/// for garbage: the buffer stays incomplete until the last byte is there.
pub proof fn lemma_partial_frame_is_incomplete(text: Seq<char>, received: int)
    requires
        8 + encode_utf8(text).len() <= usize::MAX,
        0 <= received < frame_of(text).len(),
    ensures
        decoding_of(frame_of(text).subrange(0, received)) == Decoding::Incomplete,
{
    let payload = encode_utf8(text);
    let header = spec_u64_to_le_bytes(payload.len() as u64);
    let bytes = frame_of(text).subrange(0, received);
    lemma_auto_spec_u64_to_from_le_bytes();
    if received >= 8 {
        assert(bytes.subrange(0, 8) =~= header);
    }
}

} // verus!
