//! The closed set of control packet kinds and the bijection with the wire
//! codes 1 through 14.
use super::MqttParseError;
use vstd::prelude::*;

verus! {

/// One of the fourteen control packet kinds. Wire codes 0 and 15 are
/// reserved and invalid.
#[derive(Clone, Copy, Debug, PartialEq, Eq, Structural)]
pub enum ControlPacketType {
    Connect,
    ConnectAck,
    Publish,
    PublishAck,
    PublishReceived,
    PublishRelease,
    PublishComplete,
    Subscribe,
    SubscribeAck,
    Unsubscribe,
    UnsubscribeAck,
    PingRequest,
    PingResponse,
    Disconnect,
}

/// The packet kind denoted by a wire code, `None` for the invalid codes
/// 0 and 15..=255.
pub open spec fn spec_control_type(code: u8) -> Option<ControlPacketType> {
    match code {
        1u8 => Some(ControlPacketType::Connect),
        2u8 => Some(ControlPacketType::ConnectAck),
        3u8 => Some(ControlPacketType::Publish),
        4u8 => Some(ControlPacketType::PublishAck),
        5u8 => Some(ControlPacketType::PublishReceived),
        6u8 => Some(ControlPacketType::PublishRelease),
        7u8 => Some(ControlPacketType::PublishComplete),
        8u8 => Some(ControlPacketType::Subscribe),
        9u8 => Some(ControlPacketType::SubscribeAck),
        10u8 => Some(ControlPacketType::Unsubscribe),
        11u8 => Some(ControlPacketType::UnsubscribeAck),
        12u8 => Some(ControlPacketType::PingRequest),
        13u8 => Some(ControlPacketType::PingResponse),
        14u8 => Some(ControlPacketType::Disconnect),
        _ => None,
    }
}

impl ControlPacketType {
    /// Maps a wire code to its packet kind; codes 0 and 15..=255 are
    /// rejected with `InvalidControlType`.
    pub fn try_from(original: u8) -> (r: Result<ControlPacketType, MqttParseError>)
        ensures
            r matches Ok(t) ==> spec_control_type(original) == Some(t),
            r is Err <==> spec_control_type(original) is None,
            r matches Err(e) ==> e == MqttParseError::InvalidControlType,
    {
        match original {
            1u8 => Ok(ControlPacketType::Connect),
            2u8 => Ok(ControlPacketType::ConnectAck),
            3u8 => Ok(ControlPacketType::Publish),
            4u8 => Ok(ControlPacketType::PublishAck),
            5u8 => Ok(ControlPacketType::PublishReceived),
            6u8 => Ok(ControlPacketType::PublishRelease),
            7u8 => Ok(ControlPacketType::PublishComplete),
            8u8 => Ok(ControlPacketType::Subscribe),
            9u8 => Ok(ControlPacketType::SubscribeAck),
            10u8 => Ok(ControlPacketType::Unsubscribe),
            11u8 => Ok(ControlPacketType::UnsubscribeAck),
            12u8 => Ok(ControlPacketType::PingRequest),
            13u8 => Ok(ControlPacketType::PingResponse),
            14u8 => Ok(ControlPacketType::Disconnect),
            _ => Err(MqttParseError::InvalidControlType),
        }
    }
}

/// Law: the map from wire codes to packet kinds succeeds exactly on codes
/// 1 through 14 and is injective there.
pub proof fn lemma_control_type_bijective()
    ensures
        forall|code: u8| 1 <= code <= 14 <==> #[trigger] spec_control_type(code) is Some,
        forall|a: u8, b: u8|
            #[trigger] spec_control_type(a) is Some && spec_control_type(a)
                == #[trigger] spec_control_type(b) ==> a == b,
{
}

} // verus!
