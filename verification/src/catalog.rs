//! The message catalog: the `common` dialect of the `mavlink` crate.
//!
//! The catalog owns the message kinds and their binary layouts. This module
//! is the only place where the crate calls into it. Nothing here is proved:
//! each contract states what the catalog's source shows, and the rest of the
//! crate is verified against these contracts.

use crate::frame::MAX_PAYLOAD;
use crate::heartbeat::Heartbeat;
use mavlink::Message;
use num_traits::FromPrimitive;
use vstd::prelude::*;

verus! {

/// A message of the catalog. The crate carries such a value through and
/// never looks inside.
#[verifier::external_type_specification]
#[verifier::external_body]
pub struct ExMavMessage(mavlink::common::MavMessage);

/// The catalog's reason for refusing a payload.
#[verifier::external_type_specification]
#[verifier::external_body]
pub struct ExParserError(mavlink::error::ParserError);

/// The seed byte that the catalog mixes into the checksum of frames with
/// this message id; what `mavlink::Message::extra_crc` returns for it.
pub uninterp spec fn extra_crc_seed(message_id: u32) -> u8;

/// The message that the catalog decodes from this id and payload under
/// protocol version 2, or `None` where it refuses them; what
/// `mavlink::Message::parse` returns for them.
pub uninterp spec fn catalog_message(message_id: u32, payload: Seq<u8>) -> Option<
    mavlink::common::MavMessage,
>;

/// The id under which the catalog puts this message on the wire; what
/// `mavlink::Message::message_id` returns for it.
pub uninterp spec fn wire_id(message: mavlink::common::MavMessage) -> u32;

/// The payload that the catalog serialises this message to under protocol
/// version 2, or `None` where it reports more bytes than a payload can have;
/// what `mavlink::Message::ser` writes for it.
pub uninterp spec fn wire_payload(message: mavlink::common::MavMessage) -> Option<Seq<u8>>;

/// The catalog's heartbeat message with these field numbers, or `None`
/// where one of them is no value of its field's type in the catalog.
pub uninterp spec fn catalog_heartbeat(fields: Heartbeat) -> Option<mavlink::common::MavMessage>;

/// Calls `mavlink::Message::extra_crc` of the `common` dialect: a table
/// lookup by message id. The contract only names the result.
#[verifier::external_body]
pub(crate) fn extra_crc(message_id: u32) -> (seed: u8)
    ensures
        seed == extra_crc_seed(message_id),
{
    mavlink::common::MavMessage::extra_crc(message_id)
}

/// Calls `mavlink::Message::parse` of the `common` dialect with protocol
/// version 2. The call reads only its arguments, so the contract names its
/// result: the message on success, nothing on refusal.
#[verifier::external_body]
pub(crate) fn parse(message_id: u32, payload: &[u8]) -> (parsed: Result<
    mavlink::common::MavMessage,
    mavlink::error::ParserError,
>)
    ensures
        parsed is Ok ==> catalog_message(message_id, payload@) == Some(parsed->Ok_0),
        parsed is Err ==> catalog_message(message_id, payload@) is None,
{
    mavlink::common::MavMessage::parse(mavlink::MavlinkVersion::V2, message_id, payload)
}

/// Calls `mavlink::Message::message_id`: the constant id of the message's
/// kind. The contract only names the result.
#[verifier::external_body]
pub(crate) fn message_id(message: &mavlink::common::MavMessage) -> (id: u32)
    ensures
        id == wire_id(*message),
{
    message.message_id()
}

/// Calls `mavlink::Message::ser` with protocol version 2 on a buffer of the
/// largest payload size, and hands out the bytes that it reports as written;
/// `None` where it reports more than the buffer holds. The call reads only
/// the message, so the contract names its result and claims nothing else.
#[verifier::external_body]
pub(crate) fn serialize(message: &mavlink::common::MavMessage) -> (serialized: Option<Vec<u8>>)
    ensures
        serialized is Some ==> wire_payload(*message) == Some(serialized->Some_0@),
        serialized is None ==> wire_payload(*message) is None,
{
    let mut buffer = [0u8; MAX_PAYLOAD];
    let written = message.ser(mavlink::MavlinkVersion::V2, &mut buffer);
    match buffer.get(..written) {
        Some(bytes) => Some(bytes.to_vec()),
        None => None,
    }
}

/// Builds `mavlink::common::MavMessage::HEARTBEAT` from field numbers. The
/// catalog's own conversions turn each number into the value of its field:
/// `from_u8` for the vehicle type, the autopilot and the system status,
/// `from_bits` for the mode flags. Where one of them knows no such value,
/// there is no message. The contract only names the result.
#[verifier::external_body]
pub(crate) fn heartbeat(fields: &Heartbeat) -> (message: Option<mavlink::common::MavMessage>)
    ensures
        message == catalog_heartbeat(*fields),
{
    Some(
        mavlink::common::MavMessage::HEARTBEAT(
            mavlink::common::HEARTBEAT_DATA {
                custom_mode: fields.custom_mode,
                mavtype: mavlink::common::MavType::from_u8(fields.mavtype)?,
                autopilot: mavlink::common::MavAutopilot::from_u8(fields.autopilot)?,
                base_mode: mavlink::common::MavModeFlag::from_bits(fields.base_mode)?,
                system_status: mavlink::common::MavState::from_u8(fields.system_status)?,
                mavlink_version: fields.mavlink_version,
            },
        ),
    )
}

} // verus!
