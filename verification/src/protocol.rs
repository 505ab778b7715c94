//! Data model of the wire protocol: control packet kinds, fixed header,
//! variable header and payload variants, and the decode error taxonomy.
pub mod control_packet_type;
pub mod fixed_header;
pub mod payload;
pub mod variable_header;

pub use self::control_packet_type::ControlPacketType;
pub use self::fixed_header::{FirstByteData, FixedHeader};
pub use self::payload::{ConnectPayload, Payload};
pub use self::variable_header::{ConnectVariableHeader, VariableHeader};

use vstd::prelude::*;

verus! {

/// A decode error. Every variant is connection-fatal: the session is closed
/// and no resynchronization is attempted.
#[derive(Clone, Copy, Debug, PartialEq, Eq, Structural)]
pub enum MqttParseError {
    InvalidControlType,
    InvalidRemainingLength,
    InvalidUTF8Sequence,
}

/// Quality-of-service level carried in the Publish flag bits.
#[derive(Clone, Copy, Debug, PartialEq, Eq, Structural)]
pub enum MQTTQoS {
    AtMostOnce,
    AtLeastOnce,
    ExactlyOne,
}

/// A decoded packet: the result handed upstream once per completed frame.
/// `variable_header` stays `None` until (and unless) it has been resolved;
/// `payload` holds the raw bytes that follow the variable header.
#[derive(Debug, PartialEq)]
pub struct MQTTPacket {
    pub control_type: ControlPacketType,
    pub qos: Option<MQTTQoS>,
    pub remaining_length: u32,
    pub variable_header: Option<VariableHeader>,
    pub payload: Vec<u8>,
}

/// Mathematical view of a decoded packet.
#[verifier::ext_equal]
pub struct PacketView {
    pub control_type: ControlPacketType,
    pub qos: Option<MQTTQoS>,
    pub remaining_length: u32,
    pub variable_header: Option<variable_header::VariableHeaderView>,
    pub payload: Seq<u8>,
}

impl View for MQTTPacket {
    type V = PacketView;

    open spec fn view(&self) -> PacketView {
        PacketView {
            control_type: self.control_type,
            qos: self.qos,
            remaining_length: self.remaining_length,
            variable_header: match self.variable_header {
                Some(vh) => Some(vh@),
                None => None,
            },
            payload: self.payload@,
        }
    }
}

} // verus!
