//! Variable header variants, one per control type that carries structured
//! fields, together with their mathematical views.
use vstd::prelude::*;

verus! {

#[derive(Debug, PartialEq)]
pub struct ConnectVariableHeader {
    pub protocol_name: String,
    pub protocol_level: u8,
    pub connect_flags: u8,
    pub keep_alive: u16,
}

#[derive(Clone, Copy, Debug, PartialEq, Eq, Structural)]
pub struct ConnectAckVariableHeader {
    pub flags: u8,
    pub return_code: u8,
}

#[derive(Debug, PartialEq)]
pub struct PublishVariableHeader {
    pub topic_name: String,
    pub packet_id: Option<u16>,
}

#[derive(Clone, Copy, Debug, PartialEq, Eq, Structural)]
pub struct PublishAckVariableHeader {
    pub packet_id: u16,
}

#[derive(Clone, Copy, Debug, PartialEq, Eq, Structural)]
pub struct PublishReceivedVariableHeader {
    pub packet_id: u16,
}

#[derive(Clone, Copy, Debug, PartialEq, Eq, Structural)]
pub struct PublishReleaseVariableHeader {
    pub packet_id: u16,
}

#[derive(Clone, Copy, Debug, PartialEq, Eq, Structural)]
pub struct PublishCompleteVariableHeader {
    pub packet_id: u16,
}

#[derive(Clone, Copy, Debug, PartialEq, Eq, Structural)]
pub struct SubscribeVariableHeader {
    pub packet_id: u16,
}

/// The variable header of a packet; variants with no structured body at
/// this layer carry no data.
#[derive(Debug, PartialEq)]
pub enum VariableHeader {
    Connect(ConnectVariableHeader),
    ConnectAck(ConnectAckVariableHeader),
    Publish(PublishVariableHeader),
    PublishAck(PublishAckVariableHeader),
    PublishReceived(PublishReceivedVariableHeader),
    PublishRelease(PublishReleaseVariableHeader),
    PublishComplete(PublishCompleteVariableHeader),
    Subscribe(SubscribeVariableHeader),
    SubscribeAck,
    Unsubscribe,
    UnsubscribeAck,
    PingRequest,
    PingResponse,
    Disconnect,
}

/// Mathematical view of a `VariableHeader`: strings become character
/// sequences, everything else is carried as is.
#[verifier::ext_equal]
pub enum VariableHeaderView {
    Connect { protocol_name: Seq<char>, protocol_level: u8, connect_flags: u8, keep_alive: u16 },
    ConnectAck { flags: u8, return_code: u8 },
    Publish { topic_name: Seq<char>, packet_id: Option<u16> },
    PublishAck { packet_id: u16 },
    PublishReceived { packet_id: u16 },
    PublishRelease { packet_id: u16 },
    PublishComplete { packet_id: u16 },
    Subscribe { packet_id: u16 },
    SubscribeAck,
    Unsubscribe,
    UnsubscribeAck,
    PingRequest,
    PingResponse,
    Disconnect,
}

impl View for VariableHeader {
    type V = VariableHeaderView;

    open spec fn view(&self) -> VariableHeaderView {
        match *self {
            VariableHeader::Connect(h) => VariableHeaderView::Connect {
                protocol_name: h.protocol_name@,
                protocol_level: h.protocol_level,
                connect_flags: h.connect_flags,
                keep_alive: h.keep_alive,
            },
            VariableHeader::ConnectAck(h) => VariableHeaderView::ConnectAck {
                flags: h.flags,
                return_code: h.return_code,
            },
            VariableHeader::Publish(h) => VariableHeaderView::Publish {
                topic_name: h.topic_name@,
                packet_id: h.packet_id,
            },
            VariableHeader::PublishAck(h) => VariableHeaderView::PublishAck {
                packet_id: h.packet_id,
            },
            VariableHeader::PublishReceived(h) => VariableHeaderView::PublishReceived {
                packet_id: h.packet_id,
            },
            VariableHeader::PublishRelease(h) => VariableHeaderView::PublishRelease {
                packet_id: h.packet_id,
            },
            VariableHeader::PublishComplete(h) => VariableHeaderView::PublishComplete {
                packet_id: h.packet_id,
            },
            VariableHeader::Subscribe(h) => VariableHeaderView::Subscribe {
                packet_id: h.packet_id,
            },
            VariableHeader::SubscribeAck => VariableHeaderView::SubscribeAck,
            VariableHeader::Unsubscribe => VariableHeaderView::Unsubscribe,
            VariableHeader::UnsubscribeAck => VariableHeaderView::UnsubscribeAck,
            VariableHeader::PingRequest => VariableHeaderView::PingRequest,
            VariableHeader::PingResponse => VariableHeaderView::PingResponse,
            VariableHeader::Disconnect => VariableHeaderView::Disconnect,
        }
    }
}

} // verus!
