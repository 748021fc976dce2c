//! The MAVLink v2 wire format.
//!
//! | Offset | Field                                   | Size |
//! |--------|-----------------------------------------|------|
//! | 0      | marker `0xFD`                           | 1    |
//! | 1      | payload length                          | 1    |
//! | 2      | incompatible flags (bit 0: signed)      | 1    |
//! | 3      | compatible flags                        | 1    |
//! | 4      | sequence                                | 1    |
//! | 5      | system id                               | 1    |
//! | 6      | component id                            | 1    |
//! | 7..10  | message id, little endian, 24 bits      | 3    |
//! | 10..   | payload                                 | len  |
//! | then   | CRC-16/MCRF4XX, little endian           | 2    |
//! | then   | link id, timestamp, signature if signed | 13   |
//!
//! The checksum covers the bytes from the payload length to the end of the
//! payload, followed by one seed byte that belongs to the message id. The
//! signature trailer is neither covered nor examined.
//!
//! This module knows nothing of message bodies: the seed is an argument.

use crate::crc::{absorb_byte, crc16, lemma_fold_push, update, INIT};
use crate::error::EncodeError;
use vstd::prelude::*;

verus! {

/// The byte that starts a frame.
pub const MARKER: u8 = 0xFD;

/// Marker and fixed fields before the payload.
pub const HEADER_LEN: usize = 10;

/// The checksum behind the payload.
pub const CHECKSUM_LEN: usize = 2;

/// The trailer of a signed frame.
pub const SIGNATURE_LEN: usize = 13;

/// The longest payload a frame can carry.
pub const MAX_PAYLOAD: usize = 255;

/// The bit of the incompatible flags that announces a signature trailer.
pub const SIGNED_FLAG: u8 = 0x01;

/// Who sent a frame, and its place in the sender's sequence.
#[derive(Clone, Copy, Debug, PartialEq, Eq, Structural)]
pub struct Header {
    pub sequence: u8,
    pub system_id: u8,
    pub component_id: u8,
}

/// The three bytes that carry a message id.
pub open spec fn id_bytes(message_id: u32) -> Seq<u8> {
    seq![
        (message_id & 0xff) as u8,
        ((message_id >> 8) & 0xff) as u8,
        ((message_id >> 16) & 0xff) as u8,
    ]
}

/// The message id that three bytes carry.
pub open spec fn id_from_bytes(b0: u8, b1: u8, b2: u8) -> u32 {
    (b0 as u32) | ((b1 as u32) << 8) | ((b2 as u32) << 16)
}

/// The two bytes that carry a checksum.
pub open spec fn checksum_bytes(crc: u16) -> Seq<u8> {
    seq![(crc & 0xff) as u8, (crc >> 8) as u8]
}

/// The checksum that two bytes carry.
pub open spec fn checksum_from_bytes(b0: u8, b1: u8) -> u16 {
    (b0 as u16) | ((b1 as u16) << 8)
}

/// The part of a frame that the checksum covers.
pub open spec fn covered_bytes(
    incompat_flags: u8,
    compat_flags: u8,
    header: Header,
    message_id: u32,
    payload: Seq<u8>,
) -> Seq<u8> {
    seq![
        payload.len() as u8,
        incompat_flags,
        compat_flags,
        header.sequence,
        header.system_id,
        header.component_id,
    ] + id_bytes(message_id) + payload
}

/// The checksum of a frame: over what it covers, then the seed.
pub open spec fn frame_crc(covered: Seq<u8>, seed: u8) -> u16 {
    crc16(covered.push(seed))
}

/// A frame as it stands on the wire, with any flags and with whatever
/// follows the checksum.
pub open spec fn wire_bytes(
    incompat_flags: u8,
    compat_flags: u8,
    header: Header,
    message_id: u32,
    payload: Seq<u8>,
    seed: u8,
    trailer: Seq<u8>,
) -> Seq<u8> {
    let covered = covered_bytes(incompat_flags, compat_flags, header, message_id, payload);
    seq![MARKER] + covered + checksum_bytes(frame_crc(covered, seed)) + trailer
}

/// A frame as the encoder writes it: no flags, no signature.
pub open spec fn frame_bytes(header: Header, message_id: u32, payload: Seq<u8>, seed: u8) -> Seq<
    u8,
> {
    wire_bytes(0, 0, header, message_id, payload, seed, Seq::empty())
}

/// Whether the bytes `t`, which start at a marker, announce a signature.
pub open spec fn is_signed(t: Seq<u8>) -> bool {
    t[2] & SIGNED_FLAG == SIGNED_FLAG
}

/// The length that the bytes `t`, which start at a marker, announce for their
/// frame: header, payload, checksum, and the trailer if the frame is signed.
pub open spec fn frame_len(t: Seq<u8>) -> int {
    HEADER_LEN + t[1] + CHECKSUM_LEN + if is_signed(t) {
        SIGNATURE_LEN as int
    } else {
        0
    }
}

/// Whether `t` starts at a marker and holds all of the frame it announces.
pub open spec fn holds_frame(t: Seq<u8>) -> bool {
    &&& t.len() >= 4
    &&& t[0] == MARKER
    &&& t.len() >= frame_len(t)
}

/// The header of the frame at the start of `t`.
pub open spec fn frame_header(t: Seq<u8>) -> Header {
    Header { sequence: t[4], system_id: t[5], component_id: t[6] }
}

/// The message id of the frame at the start of `t`.
pub open spec fn frame_message_id(t: Seq<u8>) -> u32 {
    id_from_bytes(t[7], t[8], t[9])
}

/// The payload of the frame at the start of `t`.
pub open spec fn frame_payload(t: Seq<u8>) -> Seq<u8> {
    t.subrange(HEADER_LEN as int, HEADER_LEN + t[1])
}

/// The part of the frame at the start of `t` that its checksum covers.
pub open spec fn frame_covered(t: Seq<u8>) -> Seq<u8> {
    t.subrange(1, HEADER_LEN + t[1])
}

/// The checksum that the frame at the start of `t` carries.
pub open spec fn frame_checksum(t: Seq<u8>) -> u16 {
    checksum_from_bytes(t[HEADER_LEN + t[1]], t[HEADER_LEN + t[1] + 1])
}

/// Whether the frame at the start of `t` carries the checksum that its
/// content and `seed` give.
pub open spec fn checksum_matches(t: Seq<u8>, seed: u8) -> bool {
    frame_crc(frame_covered(t), seed) == frame_checksum(t)
}

/// The index of the first marker in `s`, or the length of `s` where it holds
/// none.
pub open spec fn first_marker(s: Seq<u8>) -> int
    decreases s.len(),
{
    if s.len() == 0 {
        0
    } else if s[0] == MARKER {
        0
    } else {
        1 + first_marker(s.skip(1))
    }
}

/// `first_marker` lies within `s`, nothing before it is a marker, and it is
/// one unless it is the end.
pub proof fn lemma_first_marker(s: Seq<u8>)
    ensures
        0 <= first_marker(s) <= s.len(),
        forall|i: int| 0 <= i < first_marker(s) ==> s[i] != MARKER,
        first_marker(s) < s.len() ==> s[first_marker(s)] == MARKER,
    decreases s.len(),
{
    if s.len() > 0 && s[0] != MARKER {
        let rest = s.skip(1);
        lemma_first_marker(rest);
        assert forall|i: int| 0 <= i < first_marker(s) implies s[i] != MARKER by {
            if i > 0 {
                assert(s[i] == rest[i - 1]);
            }
        }
    }
}

/// The first marker is the only index with no marker before it that is a
/// marker or the end.
pub proof fn lemma_first_marker_is(s: Seq<u8>, p: int)
    requires
        0 <= p <= s.len(),
        forall|i: int| 0 <= i < p ==> s[i] != MARKER,
        p < s.len() ==> s[p] == MARKER,
    ensures
        first_marker(s) == p,
{
    lemma_first_marker(s);
}

/// The message id survives its three bytes where it fits in 24 bits, and
/// loses its top byte where it does not.
pub proof fn lemma_id_round_trip(message_id: u32)
    ensures
        id_from_bytes(id_bytes(message_id)[0], id_bytes(message_id)[1], id_bytes(message_id)[2])
            == message_id & 0xff_ffff,
        message_id < 0x100_0000 ==> message_id & 0xff_ffff == message_id,
{
    let b0 = (message_id & 0xff) as u8;
    let b1 = ((message_id >> 8) & 0xff) as u8;
    let b2 = ((message_id >> 16) & 0xff) as u8;
    assert((b0 as u32) | ((b1 as u32) << 8) | ((b2 as u32) << 16) == message_id & 0xff_ffff) by (bit_vector)
        requires
            b0 == (message_id & 0xff) as u8,
            b1 == ((message_id >> 8) & 0xff) as u8,
            b2 == ((message_id >> 16) & 0xff) as u8,
    ;
    assert(message_id < 0x100_0000 ==> message_id & 0xff_ffff == message_id) by (bit_vector);
}

/// The checksum survives its two bytes.
pub proof fn lemma_checksum_round_trip(crc: u16)
    ensures
        checksum_from_bytes(checksum_bytes(crc)[0], checksum_bytes(crc)[1]) == crc,
{
    let b0 = (crc & 0xff) as u8;
    let b1 = (crc >> 8) as u8;
    assert((b0 as u16) | ((b1 as u16) << 8) == crc) by (bit_vector)
        requires
            b0 == (crc & 0xff) as u8,
            b1 == (crc >> 8) as u8,
    ;
}

/// What a frame on the wire says of itself: the decoder reads back exactly
/// what went into `wire_bytes`, whatever follows the frame in `rest`, provided
/// that the trailer has the length that the signed flag announces.
pub proof fn lemma_wire_round_trip(
    incompat_flags: u8,
    compat_flags: u8,
    header: Header,
    message_id: u32,
    payload: Seq<u8>,
    seed: u8,
    trailer: Seq<u8>,
    rest: Seq<u8>,
)
    requires
        payload.len() <= MAX_PAYLOAD,
        trailer.len() == if incompat_flags & SIGNED_FLAG == SIGNED_FLAG {
            SIGNATURE_LEN as int
        } else {
            0
        },
    ensures
        ({
            let frame = wire_bytes(
                incompat_flags,
                compat_flags,
                header,
                message_id,
                payload,
                seed,
                trailer,
            );
            let t = frame + rest;
            &&& frame.len() == HEADER_LEN + payload.len() + CHECKSUM_LEN + trailer.len()
            &&& holds_frame(t)
            &&& first_marker(t) == 0
            &&& frame_len(t) == frame.len()
            &&& is_signed(t) == (incompat_flags & SIGNED_FLAG == SIGNED_FLAG)
            &&& frame_header(t) == header
            &&& frame_message_id(t) == message_id & 0xff_ffff
            &&& frame_payload(t) == payload
            &&& frame_covered(t) == covered_bytes(
                incompat_flags,
                compat_flags,
                header,
                message_id,
                payload,
            )
            &&& frame_checksum(t) == frame_crc(frame_covered(t), seed)
            &&& checksum_matches(t, seed)
        }),
{
    let covered = covered_bytes(incompat_flags, compat_flags, header, message_id, payload);
    let crc = frame_crc(covered, seed);
    let frame = wire_bytes(incompat_flags, compat_flags, header, message_id, payload, seed, trailer);
    let t = frame + rest;
    lemma_id_round_trip(message_id);
    lemma_checksum_round_trip(crc);
    assert(frame_covered(t) =~= covered);
}

/// The index of the first marker in `bytes`, or their length where they hold
/// none.
pub fn locate_marker(bytes: &[u8]) -> (p: usize)
    ensures
        p == first_marker(bytes@),
        p <= bytes@.len(),
{
    let mut i: usize = 0;
    while i < bytes.len() && bytes[i] != MARKER
        invariant
            i <= bytes@.len(),
            forall|j: int| 0 <= j < i ==> bytes@[j] != MARKER,
        decreases bytes@.len() - i,
    {
        i = i + 1;
    }
    proof {
        lemma_first_marker_is(bytes@, i as int);
    }
    i
}

/// The length of a frame with this payload length and these incompatible
/// flags.
pub fn announced_len(payload_len: u8, incompat_flags: u8) -> (n: usize)
    ensures
        n == HEADER_LEN + payload_len + CHECKSUM_LEN + if incompat_flags & SIGNED_FLAG
            == SIGNED_FLAG {
            SIGNATURE_LEN as int
        } else {
            0
        },
        12 <= n <= 280,
{
    let base: usize = HEADER_LEN + payload_len as usize + CHECKSUM_LEN;
    if incompat_flags & SIGNED_FLAG == SIGNED_FLAG {
        base + SIGNATURE_LEN
    } else {
        base
    }
}

/// The checksum of a frame whose covered part is `covered`, for a message
/// with this seed.
pub fn compute_frame_crc(covered: &[u8], seed: u8) -> (crc: u16)
    ensures
        crc == frame_crc(covered@, seed),
{
    let body = update(INIT, covered);
    proof {
        lemma_fold_push(INIT, covered@, seed);
    }
    absorb_byte(body, seed)
}

/// Builds the frame for a payload: marker, length, zero flags, the header's
/// three fields, the low 24 bits of the message id, the payload, and the
/// checksum over all but the marker, seeded with `seed`.
///
/// A payload of more than 255 bytes does not fit the length byte and is
/// refused.
pub fn encode_frame(header: Header, message_id: u32, payload: &[u8], seed: u8) -> (r: Result<
    Vec<u8>,
    EncodeError,
>)
    ensures
        payload@.len() <= MAX_PAYLOAD ==> r is Ok && r->Ok_0@ == frame_bytes(
            header,
            message_id,
            payload@,
            seed,
        ),
        payload@.len() > MAX_PAYLOAD ==> r == Err::<Vec<u8>, EncodeError>(
            EncodeError::PayloadTooLarge,
        ),
{
    if payload.len() > MAX_PAYLOAD {
        return Err(EncodeError::PayloadTooLarge);
    }
    let b0: u8 = (message_id & 0xff) as u8;
    let b1: u8 = ((message_id >> 8) & 0xff) as u8;
    let b2: u8 = ((message_id >> 16) & 0xff) as u8;
    let mut out: Vec<u8> = Vec::new();
    out.push(MARKER);
    out.push(payload.len() as u8);
    out.push(0);
    out.push(0);
    out.push(header.sequence);
    out.push(header.system_id);
    out.push(header.component_id);
    out.push(b0);
    out.push(b1);
    out.push(b2);
    out.extend_from_slice(payload);
    let ghost covered = covered_bytes(0, 0, header, message_id, payload@);
    let crc = compute_frame_crc(&out.as_slice()[1..out.len()], seed);
    assert(out@.subrange(1, out@.len() as int) =~= covered);
    out.push((crc & 0xff) as u8);
    out.push((crc >> 8) as u8);
    Ok(out)
}

} // verus!
