//! The telemetry session: one identity on the link, the sequence numbers of
//! what it sends, and the bytes that it has received and not yet decoded.
//!
//! The session does no input or output. [`Telem::send`] hands out the bytes
//! to write, [`Telem::feed`] takes the bytes that were read, and
//! [`Telem::recv`] decodes what has been fed.

use crate::buffer::DecodeBuffer;
use crate::codec::{encoded, lemma_progress, outcome, remainder, MavMessageCodec, Outcome};
use crate::error::EncodeError;
use crate::frame::Header;
use crate::catalog::catalog_heartbeat;
use crate::heartbeat::{onboard_heartbeat, Heartbeat};
use crate::util::{fixed_width, from_string_to_u8};
use vstd::prelude::*;
use vstd::string::StringSliceAdditionalSpecFns;

verus! {

/// The width of the name field of a named value.
pub const NAME_LEN: usize = 10;

/// The sequence number that follows `sequence`: one more, and 0 after 255.
pub open spec fn next_sequence(sequence: u8) -> u8 {
    if sequence == 255 {
        0
    } else {
        (sequence + 1) as u8
    }
}

/// The sequence number of a session that started at `start` and has sent
/// `sends` times since.
pub open spec fn sequence_after(start: u8, sends: nat) -> u8
    decreases sends,
{
    if sends == 0 {
        start
    } else {
        next_sequence(sequence_after(start, (sends - 1) as nat))
    }
}

/// The first accepted frame among those that the decoder reports, step
/// after step, with the rejected ones before it dropped; and the bytes that
/// wait after it, or once the decoder has to wait for more.
pub open spec fn received(s: Seq<u8>) -> (Option<(Header, mavlink::common::MavMessage)>, Seq<u8>)
    decreases s.len(),
{
    if outcome(s) is Some && remainder(s).len() < s.len() {
        match outcome(s)->Some_0 {
            Outcome::Accepted(header, message) => (Some((header, message)), remainder(s)),
            Outcome::Rejected(_) => received(remainder(s)),
        }
    } else {
        (None, remainder(s))
    }
}

/// What a named value carries beside the value itself.
#[derive(Clone, Copy, Debug, PartialEq, Eq)]
pub struct NamedValue {
    /// Milliseconds since boot, modulo 2^32.
    pub time_boot_ms: u32,
    /// The name, cut or padded with zeros to the width of the field.
    pub name: [u8; 10],
}

/// A telemetry session.
pub struct Telem {
    system_id: u8,
    component_id: u8,
    sequence: u8,
    codec: MavMessageCodec,
    inbound: DecodeBuffer,
}

impl Telem {
    /// The system id that the session sends under.
    pub closed spec fn system_id(&self) -> u8 {
        self.system_id
    }

    /// The component id that the session sends under.
    pub closed spec fn component_id(&self) -> u8 {
        self.component_id
    }

    /// The sequence number of the next frame.
    pub closed spec fn sequence(&self) -> u8 {
        self.sequence
    }

    /// The received bytes that wait to be decoded.
    pub closed spec fn pending(&self) -> Seq<u8> {
        self.inbound@
    }

    /// The header of the next frame.
    pub open spec fn next_header(&self) -> Header {
        Header {
            sequence: self.sequence(),
            system_id: self.system_id(),
            component_id: self.component_id(),
        }
    }

    /// A session under this identity. Its sequence starts at 0 and nothing
    /// waits to be decoded.
    pub fn new(system_id: u8, component_id: u8) -> (telem: Self)
        ensures
            telem.system_id() == system_id,
            telem.component_id() == component_id,
            telem.sequence() == 0,
            telem.pending() == Seq::<u8>::empty(),
    {
        Telem {
            system_id,
            component_id,
            sequence: 0,
            codec: MavMessageCodec::new(),
            inbound: DecodeBuffer::new(),
        }
    }

    /// The frame for `message` under the session's identity and its next
    /// sequence number.
    ///
    /// The sequence number is used up whether the message could be framed or
    /// not: a second attempt gets a fresh number.
    pub fn send(&mut self, message: &mavlink::common::MavMessage) -> (r: Result<
        Vec<u8>,
        EncodeError,
    >)
        ensures
            final(self).sequence() == next_sequence(old(self).sequence()),
            final(self).system_id() == old(self).system_id(),
            final(self).component_id() == old(self).component_id(),
            final(self).pending() == old(self).pending(),
            match encoded(old(self).next_header(), *message) {
                Ok(frame) => r is Ok && r->Ok_0@ == frame,
                Err(e) => r == Err::<Vec<u8>, EncodeError>(e),
            },
    {
        let header = Header {
            sequence: self.sequence,
            system_id: self.system_id,
            component_id: self.component_id,
        };
        self.sequence = if self.sequence == 255 {
            0
        } else {
            self.sequence + 1
        };
        let mut frame: Vec<u8> = Vec::new();
        match self.codec.encode(header, message, &mut frame) {
            Ok(()) => {
                Ok(frame)
            },
            Err(e) => Err(e),
        }
    }

    /// Takes in bytes that were read from the link.
    pub fn feed(&mut self, chunk: &[u8])
        ensures
            final(self).pending() == old(self).pending() + chunk@,
            final(self).sequence() == old(self).sequence(),
            final(self).system_id() == old(self).system_id(),
            final(self).component_id() == old(self).component_id(),
    {
        self.inbound.extend(chunk);
    }

    /// The next accepted frame among the bytes that were fed, or `None`
    /// where more bytes are needed. Frames that the decoder rejects on the
    /// way are dropped.
    pub fn recv(&mut self) -> (r: Option<(Header, mavlink::common::MavMessage)>)
        ensures
            (r, final(self).pending()) == received(old(self).pending()),
            final(self).sequence() == old(self).sequence(),
            final(self).system_id() == old(self).system_id(),
            final(self).component_id() == old(self).component_id(),
    {
        let ghost start = self.inbound@;
        loop
            invariant
                start == old(self).pending(),
                received(start) == received(self.inbound@),
                self.sequence() == old(self).sequence(),
                self.system_id() == old(self).system_id(),
                self.component_id() == old(self).component_id(),
            decreases self.inbound@.len(),
        {
            proof {
                lemma_progress(self.inbound@);
            }
            match self.codec.decode(&mut self.inbound) {
                None => {
                    return None;
                },
                Some(Outcome::Accepted(header, message)) => {
                    return Some((header, message));
                },
                Some(Outcome::Rejected(_)) => {},
            }
        }
    }

    /// One step of the decoder on the bytes that were fed, for a caller that
    /// wants to see the rejections too: the next outcome, accepted or
    /// rejected, or `None` where more bytes are needed.
    pub fn recv_outcome(&mut self) -> (out: Option<Outcome>)
        ensures
            out == outcome(old(self).pending()),
            final(self).pending() == remainder(old(self).pending()),
            final(self).sequence() == old(self).sequence(),
            final(self).system_id() == old(self).system_id(),
            final(self).component_id() == old(self).component_id(),
    {
        self.codec.decode(&mut self.inbound)
    }

    /// The heartbeat message of this component: an onboard controller
    /// without autopilot, no mode flags, in standby, protocol version 3,
    /// custom mode 0; `None` where the catalog has no such message.
    pub fn heartbeat_message(&self) -> (message: Option<mavlink::common::MavMessage>)
        ensures
            message == catalog_heartbeat(onboard_heartbeat()),
    {
        Heartbeat::onboard().to_message()
    }

    /// The name field and the time stamp of a named value: the name cut or
    /// padded with zeros to ten bytes, the time since boot in milliseconds
    /// as far as 32 bits hold it.
    pub fn named_value(&self, name: &str, elapsed_ms: u128) -> (value: NamedValue)
        ensures
            value.name@ == fixed_width(name.spec_bytes(), NAME_LEN as nat),
            value.time_boot_ms == elapsed_ms % 0x1_0000_0000,
    {
        NamedValue {
            time_boot_ms: (elapsed_ms % 0x1_0000_0000) as u32,
            name: from_string_to_u8::<10>(name),
        }
    }
}

/// Sequence numbers count up modulo 256: after `sends` sends a session that
/// started at `start` is at `start + sends` modulo 256.
pub proof fn lemma_sequence_after(start: u8, sends: nat)
    ensures
        sequence_after(start, sends) == (start + sends) % 256,
    decreases sends,
{
    if sends > 0 {
        lemma_sequence_after(start, (sends - 1) as nat);
    }
}

/// No sequence number comes twice among 256 sends in a row.
pub proof fn lemma_sequence_no_repeat(start: u8, earlier: nat, later: nat)
    requires
        earlier < later < earlier + 256,
    ensures
        sequence_after(start, earlier) != sequence_after(start, later),
{
    lemma_sequence_after(start, earlier);
    lemma_sequence_after(start, later);
    vstd::arithmetic::div_mod::lemma_fundamental_div_mod(start + earlier, 256);
    vstd::arithmetic::div_mod::lemma_fundamental_div_mod(start + later, 256);
}

} // verus!
