use mqtt_core::protocol::{ControlPacketType, MqttParseError};

#[test]
fn test_from_u8() {
    match ControlPacketType::try_from(0) {
        Err(MqttParseError::InvalidControlType) => assert!(true),
        _ => assert!(false),
    }

    assert_eq!(ControlPacketType::try_from(1).unwrap(), ControlPacketType::Connect);
    assert_eq!(ControlPacketType::try_from(2).unwrap(), ControlPacketType::ConnectAck);
    assert_eq!(ControlPacketType::try_from(3).unwrap(), ControlPacketType::Publish);
    assert_eq!(ControlPacketType::try_from(4).unwrap(), ControlPacketType::PublishAck);
    assert_eq!(ControlPacketType::try_from(5).unwrap(), ControlPacketType::PublishReceived);
    assert_eq!(ControlPacketType::try_from(6).unwrap(), ControlPacketType::PublishRelease);
    assert_eq!(ControlPacketType::try_from(7).unwrap(), ControlPacketType::PublishComplete);
    assert_eq!(ControlPacketType::try_from(8).unwrap(), ControlPacketType::Subscribe);
    assert_eq!(ControlPacketType::try_from(9).unwrap(), ControlPacketType::SubscribeAck);
    assert_eq!(ControlPacketType::try_from(10).unwrap(), ControlPacketType::Unsubscribe);
    assert_eq!(ControlPacketType::try_from(11).unwrap(), ControlPacketType::UnsubscribeAck);
    assert_eq!(ControlPacketType::try_from(12).unwrap(), ControlPacketType::PingRequest);
    assert_eq!(ControlPacketType::try_from(13).unwrap(), ControlPacketType::PingResponse);
    assert_eq!(ControlPacketType::try_from(14).unwrap(), ControlPacketType::Disconnect);

    for n in 15..256 {
        match ControlPacketType::try_from(n as u8) {
            Err(MqttParseError::InvalidControlType) => assert!(true),
            _ => assert!(false),
        }
    }
}

// The map from wire codes is injective on 1..=14.
#[test]
fn test_control_type_injective() {
    let mut kinds = Vec::new();
    for code in 1u8..=14 {
        kinds.push(ControlPacketType::try_from(code).unwrap());
    }
    for i in 0..kinds.len() {
        for j in 0..kinds.len() {
            if i != j {
                assert_ne!(kinds[i], kinds[j]);
            }
        }
    }
}
