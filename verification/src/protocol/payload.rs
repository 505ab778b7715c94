//! Payload variants, one per control type. Only Connect carries a fully
//! specified payload; the other variants are placeholders pending the
//! extension point for their decoding.
use vstd::prelude::*;

verus! {

#[derive(Debug, PartialEq)]
pub struct ConnectPayload {
    pub client_id: String,
    pub will_topic: Option<String>,
    pub will_message: Option<Vec<u8>>,
    pub username: Option<String>,
    pub password: Option<Vec<u8>>,
}

#[derive(Debug, PartialEq)]
pub enum Payload {
    Connect(ConnectPayload),
    ConnectAck,
    Publish,
    PublishAck,
    PublishReceived,
    PublishRelease,
    PublishComplete,
    Subscribe,
    SubscribeAck,
    Unsubscribe,
    UnsubscribeAck,
    PingRequest,
    PingResponse,
    Disconnect,
}

/// Mathematical view of a `Payload`.
#[verifier::ext_equal]
pub enum PayloadView {
    Connect {
        client_id: Seq<char>,
        will_topic: Option<Seq<char>>,
        will_message: Option<Seq<u8>>,
        username: Option<Seq<char>>,
        password: Option<Seq<u8>>,
    },
    ConnectAck,
    Publish,
    PublishAck,
    PublishReceived,
    PublishRelease,
    PublishComplete,
    Subscribe,
    SubscribeAck,
    Unsubscribe,
    UnsubscribeAck,
    PingRequest,
    PingResponse,
    Disconnect,
}

pub open spec fn view_opt_string(s: Option<String>) -> Option<Seq<char>> {
    match s {
        Some(x) => Some(x@),
        None => None,
    }
}

pub open spec fn view_opt_bytes(b: Option<Vec<u8>>) -> Option<Seq<u8>> {
    match b {
        Some(x) => Some(x@),
        None => None,
    }
}

impl View for Payload {
    type V = PayloadView;

    open spec fn view(&self) -> PayloadView {
        match *self {
            Payload::Connect(p) => PayloadView::Connect {
                client_id: p.client_id@,
                will_topic: view_opt_string(p.will_topic),
                will_message: view_opt_bytes(p.will_message),
                username: view_opt_string(p.username),
                password: view_opt_bytes(p.password),
            },
            Payload::ConnectAck => PayloadView::ConnectAck,
            Payload::Publish => PayloadView::Publish,
            Payload::PublishAck => PayloadView::PublishAck,
            Payload::PublishReceived => PayloadView::PublishReceived,
            Payload::PublishRelease => PayloadView::PublishRelease,
            Payload::PublishComplete => PayloadView::PublishComplete,
            Payload::Subscribe => PayloadView::Subscribe,
            Payload::SubscribeAck => PayloadView::SubscribeAck,
            Payload::Unsubscribe => PayloadView::Unsubscribe,
            Payload::UnsubscribeAck => PayloadView::UnsubscribeAck,
            Payload::PingRequest => PayloadView::PingRequest,
            Payload::PingResponse => PayloadView::PingResponse,
            Payload::Disconnect => PayloadView::Disconnect,
        }
    }
}

} // verus!
