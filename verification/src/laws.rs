//! What holds of the codec as a whole: theorems over the definition of
//! decoding in [`crate::codec`] and the wire format in [`crate::frame`].
//!
//! A frame is *valid* here when its payload has at most 255 bytes and its
//! message id fits the 24 bits that the wire gives it.

use crate::catalog::{catalog_message, extra_crc_seed, wire_id, wire_payload};
use crate::codec::{
    delivered, drained, encoded, lemma_progress, outcome, remainder, scan, Outcome, Scan,
};
use crate::crc::lemma_single_byte_change_detected;
use crate::error::RejectReason;
use crate::frame::{
    covered_bytes, frame_bytes, frame_covered, lemma_first_marker_is, lemma_id_round_trip,
    lemma_wire_round_trip, wire_bytes, Header, CHECKSUM_LEN, HEADER_LEN, MARKER, MAX_PAYLOAD,
    SIGNATURE_LEN, SIGNED_FLAG,
};
use vstd::prelude::*;

verus! {

/// Whether no byte of `s` is a marker.
pub open spec fn marker_free(s: Seq<u8>) -> bool {
    forall|i: int| 0 <= i < s.len() ==> s[i] != MARKER
}

/// The length of the trailer that these incompatible flags announce.
pub open spec fn trailer_len(incompat_flags: u8) -> int {
    if incompat_flags & SIGNED_FLAG == SIGNED_FLAG {
        SIGNATURE_LEN as int
    } else {
        0
    }
}

/// A valid frame with the catalog's seed, after noise without a marker and
/// before anything at all, is found, consumed whole together with the noise
/// and its trailer, and reported as the catalog decodes its payload.
pub proof fn lemma_decodes_frame(
    noise: Seq<u8>,
    incompat_flags: u8,
    compat_flags: u8,
    header: Header,
    message_id: u32,
    payload: Seq<u8>,
    trailer: Seq<u8>,
    rest: Seq<u8>,
)
    requires
        marker_free(noise),
        payload.len() <= MAX_PAYLOAD,
        message_id < 0x100_0000,
        trailer.len() == trailer_len(incompat_flags),
    ensures
        ({
            let frame = wire_bytes(
                incompat_flags,
                compat_flags,
                header,
                message_id,
                payload,
                extra_crc_seed(message_id),
                trailer,
            );
            let s = noise + frame + rest;
            &&& scan(s) == Scan::Frame { skip: noise.len() as int, len: frame.len() as int }
            &&& outcome(s) == Some(delivered(header, catalog_message(message_id, payload)))
            &&& remainder(s) == rest
        }),
{
    let seed = extra_crc_seed(message_id);
    let frame = wire_bytes(incompat_flags, compat_flags, header, message_id, payload, seed, trailer);
    let s = noise + frame + rest;
    let t = frame + rest;
    lemma_wire_round_trip(
        incompat_flags,
        compat_flags,
        header,
        message_id,
        payload,
        seed,
        trailer,
        rest,
    );
    lemma_id_round_trip(message_id);
    lemma_first_marker_is(s, noise.len() as int);
    assert(s.skip(noise.len() as int) =~= t);
}

/// Round trip: what the encoder writes for a valid frame, the decoder reads
/// back as the same header with the catalog's message for the same id and
/// payload, and consumes all of it.
pub proof fn lemma_round_trip(header: Header, message_id: u32, payload: Seq<u8>, rest: Seq<u8>)
    requires
        payload.len() <= MAX_PAYLOAD,
        message_id < 0x100_0000,
    ensures
        ({
            let frame = frame_bytes(header, message_id, payload, extra_crc_seed(message_id));
            &&& outcome(frame + rest) == Some(
                delivered(header, catalog_message(message_id, payload)),
            )
            &&& remainder(frame + rest) == rest
        }),
{
    assert(0u8 & SIGNED_FLAG != SIGNED_FLAG) by (bit_vector);
    lemma_decodes_frame(
        Seq::empty(),
        0,
        0,
        header,
        message_id,
        payload,
        Seq::empty(),
        rest,
    );
}

/// Whether the catalog reads its own serialisation of `message` back as
/// `message`.
pub open spec fn catalog_reads_back(message: mavlink::common::MavMessage) -> bool {
    wire_payload(message) is Some && catalog_message(
        wire_id(message),
        wire_payload(message)->Some_0,
    ) == Some(message)
}

/// Round trip of a message: what the encoder writes for a message whose id
/// fits the wire, the decoder hands to the catalog unchanged, id and
/// payload, under the same header. So the codec gives back every message
/// that the catalog reads back from its own serialisation.
pub proof fn lemma_message_round_trip(
    header: Header,
    message: mavlink::common::MavMessage,
    rest: Seq<u8>,
)
    requires
        encoded(header, message) is Ok,
        wire_id(message) < 0x100_0000,
    ensures
        ({
            let frame = encoded(header, message)->Ok_0;
            &&& outcome(frame + rest) == Some(
                delivered(
                    header,
                    catalog_message(wire_id(message), wire_payload(message)->Some_0),
                ),
            )
            &&& remainder(frame + rest) == rest
            &&& catalog_reads_back(message) ==> outcome(frame + rest) == Some(
                Outcome::Accepted(header, message),
            )
        }),
{
    lemma_round_trip(header, wire_id(message), wire_payload(message)->Some_0, rest);
}

/// Signed frames: the 13 bytes behind the checksum of a valid frame with the
/// signed flag are consumed with the frame and have no part in what is
/// reported, be it an accepted message or a payload that the catalog
/// refuses. (A frame whose checksum does not match loses its marker only.)
pub proof fn lemma_signed_trailer_discarded(
    incompat_flags: u8,
    compat_flags: u8,
    header: Header,
    message_id: u32,
    payload: Seq<u8>,
    trailer: Seq<u8>,
    rest: Seq<u8>,
)
    requires
        incompat_flags & SIGNED_FLAG == SIGNED_FLAG,
        payload.len() <= MAX_PAYLOAD,
        message_id < 0x100_0000,
        trailer.len() == SIGNATURE_LEN,
    ensures
        ({
            let frame = wire_bytes(
                incompat_flags,
                compat_flags,
                header,
                message_id,
                payload,
                extra_crc_seed(message_id),
                trailer,
            );
            &&& frame.len() == HEADER_LEN + payload.len() + CHECKSUM_LEN + SIGNATURE_LEN
            &&& outcome(frame + rest) == Some(
                delivered(header, catalog_message(message_id, payload)),
            )
            &&& remainder(frame + rest) == rest
        }),
{
    lemma_decodes_frame(
        Seq::empty(),
        incompat_flags,
        compat_flags,
        header,
        message_id,
        payload,
        trailer,
        rest,
    );
}

/// Resynchronisation: where a rejection leaves bytes without a marker in the
/// buffer, a valid frame that arrives next is reported as the catalog
/// decodes its payload, and nothing is left behind.
pub proof fn lemma_resynchronises(
    before: Seq<u8>,
    header: Header,
    message_id: u32,
    payload: Seq<u8>,
)
    requires
        outcome(before) is Some,
        outcome(before)->Some_0 is Rejected,
        marker_free(remainder(before)),
        payload.len() <= MAX_PAYLOAD,
        message_id < 0x100_0000,
    ensures
        ({
            let frame = frame_bytes(header, message_id, payload, extra_crc_seed(message_id));
            &&& outcome(remainder(before) + frame) == Some(
                delivered(header, catalog_message(message_id, payload)),
            )
            &&& remainder(remainder(before) + frame) == Seq::<u8>::empty()
        }),
{
    assert(0u8 & SIGNED_FLAG != SIGNED_FLAG) by (bit_vector);
    lemma_decodes_frame(
        remainder(before),
        0,
        0,
        header,
        message_id,
        payload,
        Seq::empty(),
        Seq::empty(),
    );
}

/// Corruption: a valid frame in which one bit of the payload is flipped is
/// rejected for its checksum, and loses its marker only.
pub proof fn lemma_payload_bit_flip_rejected(
    header: Header,
    message_id: u32,
    payload: Seq<u8>,
    index: int,
    bit: u8,
    rest: Seq<u8>,
)
    requires
        payload.len() <= MAX_PAYLOAD,
        message_id < 0x100_0000,
        0 <= index < payload.len(),
        bit < 8,
    ensures
        ({
            let frame = frame_bytes(header, message_id, payload, extra_crc_seed(message_id));
            let at = HEADER_LEN + index;
            let damaged = frame.update(at, frame[at] ^ (1u8 << bit));
            &&& frame[at] == payload[index]
            &&& outcome(damaged + rest) == Some(Outcome::Rejected(RejectReason::ChecksumMismatch))
            &&& remainder(damaged + rest) == (damaged + rest).skip(1)
        }),
{
    let seed = extra_crc_seed(message_id);
    let frame = frame_bytes(header, message_id, payload, seed);
    let at = HEADER_LEN + index;
    let old_byte = frame[at];
    let new_byte = old_byte ^ (1u8 << bit);
    let damaged = frame.update(at, new_byte);
    let u = damaged + rest;
    let covered = covered_bytes(0, 0, header, message_id, payload);
    assert(0u8 & SIGNED_FLAG != SIGNED_FLAG) by (bit_vector);
    lemma_wire_round_trip(0, 0, header, message_id, payload, seed, Seq::empty(), rest);
    lemma_id_round_trip(message_id);
    assert(new_byte != old_byte) by (bit_vector)
        requires
            new_byte == old_byte ^ (1u8 << bit),
            bit < 8,
    ;
    lemma_first_marker_is(u, 0);
    assert(u.skip(0) =~= u);
    assert(frame_covered(u) =~= covered.update(at - 1, new_byte));
    let data = covered.push(seed);
    assert(data.update(at - 1, new_byte) =~= covered.update(at - 1, new_byte).push(seed));
    lemma_single_byte_change_detected(data, at - 1, new_byte);
}

/// The chunks one after another.
pub open spec fn joined(chunks: Seq<Seq<u8>>) -> Seq<u8>
    decreases chunks.len(),
{
    if chunks.len() == 0 {
        Seq::empty()
    } else {
        chunks[0] + joined(chunks.skip(1))
    }
}

/// All that the decoder reports when the chunks arrive one by one behind the
/// bytes in `pending` and the buffer is drained after each; and the bytes
/// that wait in the end.
pub open spec fn fed(pending: Seq<u8>, chunks: Seq<Seq<u8>>) -> (Seq<Outcome>, Seq<u8>)
    decreases chunks.len(),
{
    if chunks.len() == 0 {
        (Seq::empty(), pending)
    } else {
        let now = drained(pending + chunks[0]);
        let later = fed(now.1, chunks.skip(1));
        (now.0 + later.0, later.1)
    }
}

/// While only a part of a valid frame has arrived, the decoder reports
/// nothing and keeps every byte.
pub proof fn lemma_waits_for_whole_frame(
    incompat_flags: u8,
    compat_flags: u8,
    header: Header,
    message_id: u32,
    payload: Seq<u8>,
    seed: u8,
    trailer: Seq<u8>,
    arrived: int,
)
    requires
        payload.len() <= MAX_PAYLOAD,
        trailer.len() == trailer_len(incompat_flags),
        0 <= arrived < wire_bytes(
            incompat_flags,
            compat_flags,
            header,
            message_id,
            payload,
            seed,
            trailer,
        ).len(),
    ensures
        ({
            let part = wire_bytes(
                incompat_flags,
                compat_flags,
                header,
                message_id,
                payload,
                seed,
                trailer,
            ).take(arrived);
            &&& outcome(part) is None
            &&& remainder(part) == part
            &&& drained(part) == (Seq::<Outcome>::empty(), part)
        }),
{
    let frame = wire_bytes(incompat_flags, compat_flags, header, message_id, payload, seed, trailer);
    let part = frame.take(arrived);
    lemma_wire_round_trip(
        incompat_flags,
        compat_flags,
        header,
        message_id,
        payload,
        seed,
        trailer,
        Seq::empty(),
    );
    if arrived > 0 {
        lemma_first_marker_is(part, 0);
    }
}

/// Once nothing waits and nothing but empty chunks arrive, nothing is
/// reported.
pub proof fn lemma_fed_nothing(chunks: Seq<Seq<u8>>)
    requires
        joined(chunks) == Seq::<u8>::empty(),
    ensures
        fed(Seq::empty(), chunks) == (Seq::<Outcome>::empty(), Seq::<u8>::empty()),
    decreases chunks.len(),
{
    if chunks.len() > 0 {
        let empty = Seq::<u8>::empty();
        assert(empty.skip(0) =~= empty);
        lemma_fed_nothing(chunks.skip(1));
    }
}

/// The step of [`lemma_chunking_invisible`]: the first `arrived` bytes of a
/// valid frame wait, and the chunks bring the others.
pub proof fn lemma_fed_rest_of_frame(
    header: Header,
    message_id: u32,
    payload: Seq<u8>,
    arrived: int,
    chunks: Seq<Seq<u8>>,
)
    requires
        payload.len() <= MAX_PAYLOAD,
        message_id < 0x100_0000,
        0 <= arrived < frame_bytes(
            header,
            message_id,
            payload,
            extra_crc_seed(message_id),
        ).len(),
        joined(chunks) == frame_bytes(
            header,
            message_id,
            payload,
            extra_crc_seed(message_id),
        ).skip(arrived),
    ensures
        fed(
            frame_bytes(header, message_id, payload, extra_crc_seed(message_id)).take(arrived),
            chunks,
        ) == (
            seq![delivered(header, catalog_message(message_id, payload))],
            Seq::<u8>::empty(),
        ),
    decreases chunks.len(),
{
    let seed = extra_crc_seed(message_id);
    let frame = frame_bytes(header, message_id, payload, seed);
    let part = frame.take(arrived);
    let empty = Seq::<u8>::empty();
    assert(0u8 & SIGNED_FLAG != SIGNED_FLAG) by (bit_vector);
    if chunks.len() > 0 {
        let chunk = chunks[0];
        let more = arrived + chunk.len();
        let others = joined(chunks.skip(1));
        assert(joined(chunks) == chunk + others);
        assert forall|j: int| 0 <= j < chunk.len() implies chunk[j] == frame[arrived + j] by {
            assert(chunk[j] == (chunk + others)[j]);
        }
        assert forall|j: int| 0 <= j < others.len() implies others[j] == frame[more + j] by {
            assert(others[j] == (chunk + others)[chunk.len() + j]);
        }
        assert(part + chunk =~= frame.take(more));
        assert(others =~= frame.skip(more));
        if more < frame.len() {
            lemma_waits_for_whole_frame(0, 0, header, message_id, payload, seed, empty, more);
            lemma_fed_rest_of_frame(header, message_id, payload, more, chunks.skip(1));
        } else {
            assert(frame.take(more) =~= frame);
            lemma_round_trip(header, message_id, payload, empty);
            lemma_progress(frame);
            assert(drained(empty) == (Seq::<Outcome>::empty(), empty));
            lemma_fed_nothing(chunks.skip(1));
        }
    }
}

/// Chunk boundaries are invisible: however the bytes of one valid frame are
/// cut into chunks, a decoder that starts empty and is drained after every
/// chunk reports exactly once, when the last byte is in: what the catalog
/// makes of the frame. Where the catalog knows the payload, that is one
/// accepted message.
pub proof fn lemma_chunking_invisible(
    header: Header,
    message_id: u32,
    payload: Seq<u8>,
    chunks: Seq<Seq<u8>>,
)
    requires
        payload.len() <= MAX_PAYLOAD,
        message_id < 0x100_0000,
        joined(chunks) == frame_bytes(header, message_id, payload, extra_crc_seed(message_id)),
    ensures
        fed(Seq::empty(), chunks) == (
            seq![delivered(header, catalog_message(message_id, payload))],
            Seq::<u8>::empty(),
        ),
        catalog_message(message_id, payload) is Some ==> fed(Seq::empty(), chunks).0 == seq![
            Outcome::Accepted(header, catalog_message(message_id, payload)->Some_0),
        ],
{
    let frame = frame_bytes(header, message_id, payload, extra_crc_seed(message_id));
    assert(0u8 & SIGNED_FLAG != SIGNED_FLAG) by (bit_vector);
    lemma_wire_round_trip(
        0,
        0,
        header,
        message_id,
        payload,
        extra_crc_seed(message_id),
        Seq::empty(),
        Seq::empty(),
    );
    assert(frame.skip(0) =~= frame);
    lemma_fed_rest_of_frame(header, message_id, payload, 0, chunks);
}

} // verus!
