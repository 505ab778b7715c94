use mqtt_core::mqtt_handler::{MqttError, MqttHandler};
use mqtt_core::parser::{MqttReader, ReadState};
use mqtt_core::protocol::{
    ControlPacketType, MQTTQoS, VariableHeader,
};
use mqtt_core::session::Session;
use mqtt_core::session_state::State;

const CONNECT_FRAME: [u8; 17] = [
    0x10, 0x0F, // CONNECT, remaining length 15
    0x00, 0x04, b'M', b'Q', b'T', b'T', // protocol name
    0x04, // protocol level
    0x00, // connect flags
    0x00, 0x3C, // keep alive: 60 seconds
    0x00, 0x03, b'a', b'b', b'c', // payload bytes (client id), kept raw
];

#[test]
fn test_reader_decodes_connect_frame() {
    let mut reader = MqttReader::new();
    let st = reader.process(&CONNECT_FRAME);
    assert_eq!(st, ReadState::FixedHeader);
    assert_eq!(reader.completed.len(), 1);
    let pkt = &reader.completed[0];
    assert_eq!(pkt.control_type, ControlPacketType::Connect);
    assert_eq!(pkt.qos, None);
    assert_eq!(pkt.remaining_length, 15);
    match &pkt.variable_header {
        Some(VariableHeader::Connect(h)) => {
            assert_eq!(h.protocol_name, "MQTT");
            assert_eq!(h.protocol_level, 4);
            assert_eq!(h.connect_flags, 0);
            assert_eq!(h.keep_alive, 60);
        }
        other => panic!("{:?}", other),
    }
    assert_eq!(pkt.payload, vec![0x00, 0x03, b'a', b'b', b'c']);
    assert!(reader.buffer.is_empty());
}

#[test]
fn test_reader_partial_then_rest() {
    let mut reader = MqttReader::new();
    let st = reader.process(&CONNECT_FRAME[..5]);
    assert_eq!(st, ReadState::VariableHeader);
    assert!(reader.completed.is_empty());
    let st = reader.process(&CONNECT_FRAME[5..]);
    assert_eq!(st, ReadState::FixedHeader);
    assert_eq!(reader.completed.len(), 1);
}

#[test]
fn test_reader_pipelined_frames() {
    // Two PINGREQ frames and a QoS-1 PUBLISH arriving in a single read.
    let mut input = vec![0xC0, 0x00, 0xC0, 0x00];
    input.extend_from_slice(&[0x32, 0x02, 0xAA, 0xBB]);
    let mut reader = MqttReader::new();
    let st = reader.process(&input);
    assert_eq!(st, ReadState::FixedHeader);
    assert_eq!(reader.completed.len(), 3);
    assert_eq!(reader.completed[0].control_type, ControlPacketType::PingRequest);
    assert_eq!(reader.completed[0].remaining_length, 0);
    assert_eq!(reader.completed[1].control_type, ControlPacketType::PingRequest);
    let publish = &reader.completed[2];
    assert_eq!(publish.control_type, ControlPacketType::Publish);
    assert_eq!(publish.qos, Some(MQTTQoS::AtLeastOnce));
    assert_eq!(publish.remaining_length, 2);
    assert!(publish.variable_header.is_none());
    assert_eq!(publish.payload, vec![0xAA, 0xBB]);
}

#[test]
fn test_reader_fatal_on_invalid_control_type() {
    let mut reader = MqttReader::new();
    let st = reader.process(&[0x00, 0x00]);
    assert_eq!(st, ReadState::Disconnect);
    assert!(reader.completed.is_empty());
}

#[test]
fn test_reader_zero_read_with_empty_buffer_closes() {
    let mut reader = MqttReader::new();
    let st = reader.process(&[]);
    assert_eq!(st, ReadState::Disconnect);
}

#[test]
fn test_reader_zero_read_with_buffered_bytes_stays_open() {
    let mut reader = MqttReader::new();
    let st = reader.process(&[0x10]);
    assert_eq!(st, ReadState::FixedHeader);
    let st = reader.process(&[]);
    assert_eq!(st, ReadState::FixedHeader);
}

#[test]
fn test_session_lifecycle() {
    let mut session = Session::new(7);
    assert_eq!(session.token, 7);
    assert!(!session.is_closed());

    let (st, pkts) = session.handle_event(&[0xC0, 0x00], false);
    assert_eq!(st, State::Reading);
    assert_eq!(pkts.len(), 1);
    assert_eq!(pkts[0].control_type, ControlPacketType::PingRequest);

    let (st, pkts) = session.handle_event(&[], true);
    assert_eq!(st, State::Closed);
    assert!(pkts.is_empty());
    assert!(session.is_closed());
}

#[test]
fn test_registry_capacity_and_slot_reuse() {
    let mut handler = MqttHandler::new(2);

    let a = handler.accept_connection().unwrap();
    let b = handler.accept_connection().unwrap();
    assert_eq!(a, 0);
    assert_eq!(b, 1);

    // The table is full: the next accept is rejected, the registry stays up.
    match handler.accept_connection() {
        Err(MqttError::TooManyConnections) => {}
        other => panic!("{:?}", other),
    }

    // Existing sessions remain fully functional.
    let (removed, pkts) = handler.handle_session_event(b, &[0xC0, 0x00], false).unwrap();
    assert!(!removed);
    assert_eq!(pkts.len(), 1);
    assert_eq!(pkts[0].control_type, ControlPacketType::PingRequest);

    // A hang-up closes session 0 and removes it from the table.
    let (removed, pkts) = handler.handle_session_event(a, &[], true).unwrap();
    assert!(removed);
    assert!(pkts.is_empty());
    assert!(handler.handle_session_event(a, &[0xC0, 0x00], false).is_none());

    // A subsequent accept succeeds and reuses the freed slot.
    let c = handler.accept_connection().unwrap();
    assert_eq!(c, 0);
}

#[test]
fn test_registry_close_session_on_io_error() {
    let mut handler = MqttHandler::new(1);
    let tok = handler.accept_connection().unwrap();
    assert!(handler.close_session(tok));
    assert!(!handler.close_session(tok));
    assert_eq!(handler.accept_connection().unwrap(), tok);
}

#[test]
fn test_registry_unknown_token() {
    let mut handler = MqttHandler::new(1);
    assert!(handler.handle_session_event(5, &[], false).is_none());
    assert!(!handler.close_session(5));
}

#[test]
fn test_session_closes_on_malformed_frame() {
    let mut session = Session::new(0);
    let (st, pkts) = session.handle_event(&[0xF0, 0x00], false);
    assert_eq!(st, State::Closed);
    assert!(pkts.is_empty());
}

#[test]
fn test_reader_connect_with_bad_utf8_closes() {
    // CONNECT whose protocol name bytes are not valid UTF-8.
    let frame = [0x10, 0x08, 0x00, 0x02, 0xDF, 0xFF, 0x04, 0x00, 0x00, 0x3C];
    let mut reader = MqttReader::new();
    let st = reader.process(&frame);
    assert_eq!(st, ReadState::Disconnect);
    assert!(reader.completed.is_empty());
}
