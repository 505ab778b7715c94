use mqtt_core::parser::{
    connect_variable_header_parser, first_byte_parser, fixed_header_parser,
    length_prefixed_utf8_parser, new_first_byte_parser, remaining_length_parser, MqttParser,
    MqttReader, ParserState, ReadBuffer, ReadResult, ReadState,
};
use mqtt_core::protocol::{
    ConnectVariableHeader, ControlPacketType, FirstByteData, FixedHeader, MqttParseError,
    VariableHeader,
};

#[test]
fn test_stuff() {
    let mut reader = MqttReader::new();
    // 0xDFFF is an invalid UTF-8 sequence
    let test_input = vec![16, 127];
    {
        reader.process(&vec![16, 255]);
    }
    let _ = test_input;

    println!("{:?}", reader.buffer);
}

#[test]
fn test_first_byte_parser() {
    match first_byte_parser(&[16, 2, 143, 121, 110]) {
        ReadResult::Done(o, consumed) => {
            assert_eq!(consumed, 1);
            assert_eq!(
                o,
                FirstByteData {
                    control_type: ControlPacketType::Connect,
                    bit_0: false,
                    bit_1: false,
                    bit_2: false,
                    bit_3: false
                }
            )
        }
        _ => panic!(),
    }
}

#[test]
fn test_first_byte_parser_invalid_data() {
    match first_byte_parser(&[0]) {
        ReadResult::Done(_, _) => {
            panic!("Expected first_byte to be invalid, but it was found to be valid")
        }
        ReadResult::Failed(e) => assert_eq!(e, MqttParseError::InvalidControlType),
        _ => panic!(),
    }
}

#[test]
fn test_length() {
    match remaining_length_parser(&[193, 2, 143, 121, 110]) {
        ReadResult::Done(length, num_bytes) => {
            assert_eq!(length, 321);
            assert_eq!(num_bytes, 2);
        }
        _ => panic!("Unexpected remaining length result"),
    }
}

#[test]
fn test_remaining_length_needs_more() {
    match remaining_length_parser(&[193, 255, 255]) {
        ReadResult::Done(_, _) => {
            panic!("Expected to need at least one more byte, but it was found to be valid")
        }
        ReadResult::NeedMoreInput(_) => {}
        _ => panic!("Unexpected remaining length result"),
    }
}

#[test]
fn test_invalid_remaining_length() {
    match remaining_length_parser(&[193, 0xFF, 0xFF, 0xFF, 0xFF]) {
        ReadResult::Done(_, _) => {
            panic!("Expected remaining_length to be invalid, but it was found to be valid")
        }
        ReadResult::Failed(e) => assert_eq!(e, MqttParseError::InvalidRemainingLength),
        _ => panic!("Unexpected remaining length result"),
    }
}

#[test]
fn test_fixed_header_parser() {
    let test_input = vec![0x10, 0x1E];
    let output = fixed_header_parser(&test_input);

    match output {
        ReadResult::Done(o, _) => {
            assert_eq!(
                o,
                FixedHeader {
                    control_type: ControlPacketType::Connect,
                    bit_0: false,
                    bit_1: false,
                    bit_2: false,
                    bit_3: false,
                    remaining_length: 30
                }
            )
        }
        ReadResult::NeedMoreInput(e) => panic!("Input was incomplete: {:?}", e),
        ReadResult::Failed(e) => panic!("Error: {:?}", e),
    }
}

#[test]
fn test_utf8_parser_valid() {
    // The UTF-8 sequence "A"
    let test_input = vec![0x00, 0x01, 0x41];

    match length_prefixed_utf8_parser(&test_input) {
        ReadResult::Done(o, _) => {
            assert_eq!(o, "A");
        }
        e => panic!("{:?}", e),
    }
}

#[test]
fn test_utf8_parser_invalid() {
    // 0xDFFF is an invalid UTF-8 sequence
    let test_input = vec![0x00, 0x02, 0xDF, 0xFF];

    match length_prefixed_utf8_parser(&test_input) {
        ReadResult::Done(_, _) => {
            panic!("Expected invalid UTF8 but parser claims it's valid");
        }
        ReadResult::Failed(e) => assert_eq!(e, MqttParseError::InvalidUTF8Sequence),
        e => panic!("{:?}", e),
    }
}

#[test]
fn test_connect_variable_header_parser() {
    let test_input = vec![
        0x00, 0x04, b'M', b'Q', b'T', b'T', // Protocol Name
        0x04, // Protocol Level
        0x00, // Connect Flags
        0x00, 0x3C, // Keep alive time - 60 seconds
    ];

    match connect_variable_header_parser(&test_input) {
        ReadResult::Done(o, _) => {
            assert_eq!(
                o,
                VariableHeader::Connect(ConnectVariableHeader {
                    protocol_name: "MQTT".into(),
                    protocol_level: 4,
                    connect_flags: 0,
                    keep_alive: 60
                })
            );
        }
        e => panic!("{:?}", e),
    }
}

// The canonical encodings at the digit-count boundaries decode to the value
// encoded, consuming exactly the expected number of bytes.
#[test]
fn test_remaining_length_canonical_boundaries() {
    let cases: [(&[u8], u32, usize); 8] = [
        (&[0x00], 0, 1),
        (&[0x7F], 127, 1),
        (&[0x80, 0x01], 128, 2),
        (&[0xFF, 0x7F], 16383, 2),
        (&[0x80, 0x80, 0x01], 16384, 3),
        (&[0xFF, 0xFF, 0x7F], 2097151, 3),
        (&[0x80, 0x80, 0x80, 0x01], 2097152, 4),
        (&[0xFF, 0xFF, 0xFF, 0x7F], 268435455, 4),
    ];
    for (bytes, value, consumed) in cases {
        match remaining_length_parser(bytes) {
            ReadResult::Done(v, c) => {
                assert_eq!(v, value);
                assert_eq!(c, consumed);
            }
            e => panic!("{:?}", e),
        }
    }
}

// Five bytes that all carry the continuation bit are invalid.
#[test]
fn test_remaining_length_five_continuations() {
    match remaining_length_parser(&[0xFF, 0xFF, 0xFF, 0xFF, 0xFF]) {
        ReadResult::Failed(e) => assert_eq!(e, MqttParseError::InvalidRemainingLength),
        e => panic!("{:?}", e),
    }
}

// A decoded string differs from the raw prefixed bytes for non-ASCII
// input: 0xC3 0xA9 is the two-byte encoding of a single character.
#[test]
fn test_utf8_parser_two_byte_character() {
    match length_prefixed_utf8_parser(&[0x00, 0x02, 0xC3, 0xA9]) {
        ReadResult::Done(o, consumed) => {
            assert_eq!(consumed, 4);
            assert_eq!(o.chars().count(), 1);
            assert_eq!(o, "\u{e9}");
        }
        e => panic!("{:?}", e),
    }
}

#[test]
fn test_new_first_byte_parser_publish_flags() {
    // 0x3B: Publish with DUP (bit 3), QoS 1 (bit 1), RETAIN (bit 0).
    match new_first_byte_parser(&[0x3B]) {
        ReadResult::Done(t, c) => {
            assert_eq!(t, ControlPacketType::Publish);
            assert_eq!(c, 1);
        }
        e => panic!("{:?}", e),
    }
    match first_byte_parser(&[0x3B]) {
        ReadResult::Done(o, _) => {
            assert!(o.bit_0 && o.bit_1 && !o.bit_2 && o.bit_3);
        }
        e => panic!("{:?}", e),
    }
}

#[test]
fn test_read_buffer_advance() {
    let mut rb = ReadBuffer::new(vec![1, 2, 3]);
    assert_eq!(rb.count, 0);
    rb.advance(2);
    rb.advance(1);
    assert_eq!(rb.count, 3);
    assert_eq!(rb.buf, vec![1, 2, 3]);
}

#[test]
fn test_mqtt_parser_new() {
    let p = MqttParser::new();
    assert_eq!(p.state, ParserState::ReadingFixedHeader);
    assert!(p.fixed_header.is_none());
}

#[test]
fn test_reader_keeps_partial_header() {
    let mut reader = MqttReader::new();
    let st = reader.process(&[16, 255]);
    assert_eq!(st, ReadState::FixedHeader);
    assert_eq!(reader.buffer, vec![16, 255]);
    assert!(reader.completed.is_empty());
}
