//! Streaming MAVLink v2 frame codec and telemetry session.
//!
//! The crate parses MAVLink v2 frames out of an arbitrarily chunked byte
//! stream, checks each frame's CRC-16/MCRF4XX checksum, resynchronises after
//! corruption, and serialises outgoing frames with their sequence number and
//! checksum. Message bodies belong to the `mavlink` crate's message catalog.
//!
//! - [`crc`]: the checksum, defined bit by bit, computed, and shown to detect
//!   every change to a single byte.
//! - [`frame`]: the wire format and the frame encoder.
//! - [`buffer`]: the decoder's input buffer.
//! - [`catalog`]: the calls into the message catalog, with their contracts.
//! - [`codec`]: encoding of catalog messages, and the decoder.
//! - [`laws`]: round trip, chunk boundaries, corruption, resynchronisation,
//!   signed frames.
//! - [`telem`]: the session, with its sequence numbers.
//! - [`heartbeat`]: the heartbeat and its ticker.
//! - [`util`]: fixed-width fields.
//! - [`error`]: rejections and encoding errors.
//!
//! The crate does no input or output: it takes the bytes that were read and
//! hands out the bytes to write.

pub mod buffer;
pub mod catalog;
pub mod codec;
pub mod crc;
pub mod error;
pub mod frame;
pub mod heartbeat;
pub mod laws;
pub mod telem;
pub mod util;
