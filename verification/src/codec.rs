//! The frame codec: frames in, frames out, with the message catalog asked
//! for the checksum seed and for the meaning of each payload.
//!
//! Decoding is defined on the bytes that wait in the buffer. [`scan`] says
//! what stands at their head, [`outcome`] what the decoder reports for it and
//! [`remainder`] which bytes are left. [`MavMessageCodec::decode`] does
//! exactly that, one frame at a time.

use crate::buffer::DecodeBuffer;
use crate::catalog;
use crate::catalog::{catalog_message, extra_crc_seed, wire_id, wire_payload};
use crate::error::{EncodeError, RejectReason};
use crate::frame::{
    announced_len, checksum_matches, compute_frame_crc, encode_frame, first_marker, frame_bytes,
    frame_header, frame_len, frame_message_id, frame_payload, holds_frame, lemma_first_marker,
    locate_marker, Header, MAX_PAYLOAD,
};
use vstd::prelude::*;

verus! {

/// What the decoder reports for one frame.
#[derive(Debug, PartialEq)]
pub enum Outcome {
    /// The frame is intact and the catalog decoded its payload.
    Accepted(Header, mavlink::common::MavMessage),
    /// The frame was refused.
    Rejected(RejectReason),
}

/// What stands at the head of the waiting bytes.
pub enum Scan {
    /// No marker: no frame can start in these bytes.
    Idle,
    /// A marker after `skip` bytes, and not yet all of the frame behind it.
    Partial { skip: int },
    /// A marker after `skip` bytes and a whole frame behind it whose checksum
    /// does not match.
    Corrupt { skip: int },
    /// A marker after `skip` bytes and behind it a whole frame of `len` bytes
    /// with a matching checksum.
    Frame { skip: int, len: int },
}

/// Looks for the first marker in `s` and judges the frame that starts there.
/// The checksum is seeded by the catalog's byte for the frame's message id.
pub open spec fn scan(s: Seq<u8>) -> Scan {
    let skip = first_marker(s);
    let t = s.skip(skip);
    if skip >= s.len() {
        Scan::Idle
    } else if !holds_frame(t) {
        Scan::Partial { skip }
    } else if checksum_matches(t, extra_crc_seed(frame_message_id(t))) {
        Scan::Frame { skip, len: frame_len(t) }
    } else {
        Scan::Corrupt { skip }
    }
}

/// How many of the waiting bytes one step of the decoder consumes: nothing
/// where there is no marker, the noise before a marker, and behind it the
/// marker alone of a corrupt frame or all of an intact one.
pub open spec fn consumed(s: Seq<u8>) -> int {
    match scan(s) {
        Scan::Idle => 0,
        Scan::Partial { skip } => skip,
        Scan::Corrupt { skip } => skip + 1,
        Scan::Frame { skip, len } => skip + len,
    }
}

/// The bytes that wait after one step of the decoder.
pub open spec fn remainder(s: Seq<u8>) -> Seq<u8> {
    s.skip(consumed(s))
}

/// What is reported for an intact frame with this header, once the catalog
/// has decoded its payload or refused it.
pub open spec fn delivered(header: Header, parsed: Option<mavlink::common::MavMessage>) -> Outcome {
    match parsed {
        Some(message) => Outcome::Accepted(header, message),
        None => Outcome::Rejected(RejectReason::PayloadDecodeError),
    }
}

/// What one step of the decoder reports: nothing while no whole frame waits,
/// a rejection for a checksum that does not match, and for an intact frame
/// what the catalog makes of its payload.
pub open spec fn outcome(s: Seq<u8>) -> Option<Outcome> {
    match scan(s) {
        Scan::Idle => None,
        Scan::Partial { skip } => None,
        Scan::Corrupt { skip } => Some(Outcome::Rejected(RejectReason::ChecksumMismatch)),
        Scan::Frame { skip, len } => {
            let t = s.skip(skip);
            Some(
                delivered(frame_header(t), catalog_message(frame_message_id(t), frame_payload(t))),
            )
        },
    }
}

/// Every step of the decoder stays within the waiting bytes, and a step that
/// reports something consumes at least one byte: the decoder never looks at
/// the same marker twice.
pub proof fn lemma_progress(s: Seq<u8>)
    ensures
        0 <= consumed(s) <= s.len(),
        remainder(s).len() == s.len() - consumed(s),
        outcome(s) is Some ==> consumed(s) >= 1,
        outcome(s) is Some ==> remainder(s).len() < s.len(),
{
    lemma_first_marker(s);
}

/// All that the decoder reports, step after step, until it has to wait for
/// more bytes; and the bytes that wait then.
pub open spec fn drained(s: Seq<u8>) -> (Seq<Outcome>, Seq<u8>)
    decreases s.len(),
{
    if outcome(s) is Some && remainder(s).len() < s.len() {
        let later = drained(remainder(s));
        (seq![outcome(s)->Some_0] + later.0, later.1)
    } else {
        (Seq::empty(), remainder(s))
    }
}

/// What becomes of a payload that the catalog serialised, or failed to:
/// the frame, or the reason why there is none.
pub open spec fn framed(header: Header, message_id: u32, serialized: Option<Seq<u8>>, seed: u8)
    -> Result<Seq<u8>, EncodeError> {
    match serialized {
        None => Err(EncodeError::SerializationFailed),
        Some(payload) => if payload.len() > MAX_PAYLOAD {
            Err(EncodeError::PayloadTooLarge)
        } else {
            Ok(frame_bytes(header, message_id, payload, seed))
        },
    }
}

/// The frame for a message of the catalog under `header`: its id, its
/// serialised payload and the seed of its id, all three as the catalog gives
/// them.
pub open spec fn encoded(header: Header, message: mavlink::common::MavMessage) -> Result<
    Seq<u8>,
    EncodeError,
> {
    framed(header, wire_id(message), wire_payload(message), extra_crc_seed(wire_id(message)))
}

/// What is reported for an intact frame with this header, once the catalog
/// has decoded its payload or refused it.
pub fn deliver(
    header: Header,
    parsed: Result<mavlink::common::MavMessage, mavlink::error::ParserError>,
) -> (out: Outcome)
    ensures
        parsed is Ok ==> out == Outcome::Accepted(header, parsed->Ok_0),
        parsed is Err ==> out == Outcome::Rejected(RejectReason::PayloadDecodeError),
{
    match parsed {
        Ok(message) => Outcome::Accepted(header, message),
        Err(_) => Outcome::Rejected(RejectReason::PayloadDecodeError),
    }
}

/// The bytes of a serialised payload, where there is one.
pub open spec fn payload_bytes(serialized: Option<Vec<u8>>) -> Option<Seq<u8>> {
    match serialized {
        Some(payload) => Some(payload@),
        None => None,
    }
}

/// Frames what the catalog serialised for a message: an error where it gave
/// nothing, an error where the payload is longer than 255 bytes, else the
/// frame.
pub fn frame_message(header: Header, message_id: u32, serialized: Option<Vec<u8>>, seed: u8) -> (r:
    Result<Vec<u8>, EncodeError>)
    ensures
        match framed(header, message_id, payload_bytes(serialized), seed) {
            Ok(frame) => r is Ok && r->Ok_0@ == frame,
            Err(e) => r == Err::<Vec<u8>, EncodeError>(e),
        },
{
    match serialized {
        None => Err(EncodeError::SerializationFailed),
        Some(payload) => encode_frame(header, message_id, payload.as_slice(), seed),
    }
}

/// The MAVLink v2 codec for messages of the catalog. It keeps no state: the
/// bytes that wait between calls live in the caller's [`DecodeBuffer`].
pub struct MavMessageCodec {}

impl Default for MavMessageCodec {
    fn default() -> (codec: Self) {
        Self::new()
    }
}

impl MavMessageCodec {
    /// A codec.
    pub fn new() -> (codec: MavMessageCodec) {
        MavMessageCodec {  }
    }

    /// Appends to `dst` the frame for `message` under `header`.
    ///
    /// The catalog gives the message's id, its serialised payload and the
    /// seed of its id. Where it gives no payload, or one of more than 255
    /// bytes, the message is refused and `dst` stays as it was.
    pub fn encode(
        &mut self,
        header: Header,
        message: &mavlink::common::MavMessage,
        dst: &mut Vec<u8>,
    ) -> (r: Result<(), EncodeError>)
        ensures
            match encoded(header, *message) {
                Ok(frame) => r is Ok && final(dst)@ == old(dst)@ + frame,
                Err(e) => r == Err::<(), EncodeError>(e) && final(dst)@ == old(dst)@,
            },
    {
        let message_id = catalog::message_id(message);
        let serialized = catalog::serialize(message);
        let seed = catalog::extra_crc(message_id);
        match frame_message(header, message_id, serialized, seed) {
            Ok(frame) => {
                dst.extend_from_slice(frame.as_slice());
                Ok(())
            },
            Err(e) => Err(e),
        }
    }

    /// Takes at most one frame from the head of `src`.
    ///
    /// Noise before the first marker is dropped. While the frame behind the
    /// marker is not all there, nothing is reported and the marker stays. A
    /// frame whose checksum does not match is rejected and only its marker
    /// is consumed, so that a frame which starts inside it is still found.
    /// An intact frame is consumed whole, signature trailer included, and
    /// reported as the catalog decodes its payload.
    pub fn decode(&mut self, src: &mut DecodeBuffer) -> (out: Option<Outcome>)
        ensures
            out == outcome(old(src)@),
            final(src)@ == remainder(old(src)@),
    {
        let ghost s = src@;
        let skip = locate_marker(src.as_slice());
        if skip >= src.len() {
            return None;
        }
        src.consume(skip);
        let t = src.as_slice();
        if t.len() < 4 {
            return None;
        }
        let need = announced_len(t[1], t[2]);
        if t.len() < need {
            return None;
        }
        let payload_len = t[1] as usize;
        let header = Header { sequence: t[4], system_id: t[5], component_id: t[6] };
        let message_id: u32 = (t[7] as u32) | ((t[8] as u32) << 8) | ((t[9] as u32) << 16);
        let seed = catalog::extra_crc(message_id);
        let computed = compute_frame_crc(&t[1..10 + payload_len], seed);
        let carried: u16 = (t[10 + payload_len] as u16) | ((t[11 + payload_len] as u16) << 8);
        proof {
            lemma_first_marker(s);
        }
        if computed != carried {
            src.consume(1);
            return Some(Outcome::Rejected(RejectReason::ChecksumMismatch));
        }
        let parsed = catalog::parse(message_id, &t[10..10 + payload_len]);
        src.consume(need);
        Some(deliver(header, parsed))
    }

    /// Takes every frame that is all there from the head of `src`, in order,
    /// and leaves what has to wait for more bytes.
    pub fn decode_all(&mut self, src: &mut DecodeBuffer) -> (out: Vec<Outcome>)
        ensures
            (out@, final(src)@) == drained(old(src)@),
    {
        let ghost start = src@;
        let mut out: Vec<Outcome> = Vec::new();
        loop
            invariant_except_break
                drained(start) == (out@ + drained(src@).0, drained(src@).1),
            ensures
                drained(start) == (out@, src@),
            decreases src@.len(),
        {
            proof {
                lemma_progress(src@);
            }
            match self.decode(src) {
                None => {
                    break ;
                },
                Some(found) => {
                    out.push(found);
                },
            }
        }
        out
    }
}

} // verus!
