use sage_mqtt::codec::Reader;
use sage_mqtt::{
    Auth, Authentication, ControlPacketType, Error, Property, PubAck, Publish, QoS, ReasonCode,
    SubAck,
};

fn auth_encoded() -> Vec<u8> {
    vec![
        24, 38, 21, 0, 6, 87, 105, 108, 108, 111, 119, 22, 0, 4, 13, 21, 234, 94, 31, 0, 4, 66,
        105, 119, 105, 38, 0, 7, 77, 111, 103, 119, 97, 195, 175, 0, 3, 67, 97, 116,
    ]
}

fn auth_decoded() -> Auth {
    Auth {
        reason_code: ReasonCode::ContinueAuthentication,
        authentication: Authentication {
            method: "Willow".into(),
            data: vec![0x0D, 0x15, 0xEA, 0x5E],
        },
        reason_string: Some("Biwi".into()),
        user_properties: vec![("Mogwaï".into(), "Cat".into())],
    }
}

#[test]
fn auth_encode() {
    let test_data = auth_decoded();
    let mut tested_result = Vec::new();
    let n_bytes = test_data.write(&mut tested_result).unwrap();
    assert_eq!(tested_result, auth_encoded());
    assert_eq!(n_bytes, 40);
}

#[test]
fn auth_decode() {
    let mut test_data = Reader::new(auth_encoded());
    let tested_result = Auth::read(&mut test_data).unwrap();
    assert_eq!(tested_result, auth_decoded());
}

#[test]
fn auth_missing_method() {
    // a region carrying only a reason string: the method is required
    let bytes = vec![24, 7, 31, 0, 4, 66, 105, 119, 105];
    let mut reader = Reader::new(bytes);
    assert_eq!(Auth::read(&mut reader), Err(Error::ProtocolError));
}

#[test]
fn auth_duplicate_property_rejected() {
    // two reason strings in one region: a duplicate non-repeatable property
    let bytes = vec![24, 8, 31, 0, 1, 97, 31, 0, 1, 98];
    let mut reader = Reader::new(bytes);
    assert_eq!(Auth::read(&mut reader), Err(Error::ProtocolError));
}

#[test]
fn auth_repeated_user_properties_kept_in_order() {
    let packet = Auth {
        reason_code: ReasonCode::Success,
        authentication: Authentication {
            method: "plain".into(),
            data: Vec::new(),
        },
        reason_string: None,
        user_properties: vec![
            ("a".into(), "1".into()),
            ("a".into(), "2".into()),
            ("b".into(), "3".into()),
        ],
    };
    let mut buffer = Vec::new();
    packet.clone().write(&mut buffer).unwrap();
    let mut reader = Reader::new(buffer);
    let decoded = Auth::read(&mut reader).unwrap();
    assert_eq!(decoded.user_properties.len(), 3);
    assert_eq!(decoded, packet);
}

#[test]
fn auth_empty_data_elided() {
    // empty authentication data writes no property and decodes back empty
    let packet = Auth {
        reason_code: ReasonCode::Success,
        authentication: Authentication {
            method: "plain".into(),
            data: Vec::new(),
        },
        reason_string: None,
        user_properties: Vec::new(),
    };
    let mut buffer = Vec::new();
    packet.clone().write(&mut buffer).unwrap();
    assert_eq!(buffer, vec![0, 8, 21, 0, 5, 112, 108, 97, 105, 110]);
    let mut reader = Reader::new(buffer);
    assert_eq!(Auth::read(&mut reader).unwrap(), packet);
}

fn puback_encoded() -> Vec<u8> {
    vec![
        5, 57, 151, 29, 31, 0, 11, 66, 108, 97, 99, 107, 32, 66, 101, 116, 116, 121, 38, 0, 7, 77,
        111, 103, 119, 97, 195, 175, 0, 3, 67, 97, 116,
    ]
}

fn puback_decoded() -> PubAck {
    PubAck {
        packet_identifier: 1337,
        reason_code: ReasonCode::QuotaExceeded,
        reason_string: Some("Black Betty".into()),
        user_properties: vec![("Mogwaï".into(), "Cat".into())],
    }
}

#[test]
fn encode() {
    let test_data = puback_decoded();
    let mut tested_result = Vec::new();
    let n_bytes = test_data.write(&mut tested_result).unwrap();
    assert_eq!(tested_result, puback_encoded());
    assert_eq!(n_bytes, 33);
}

#[test]
fn decode() {
    let mut test_data = Reader::new(puback_encoded());
    let tested_result = PubAck::read(&mut test_data, false).unwrap();
    assert_eq!(tested_result, puback_decoded());
}

#[test]
fn puback_shortened_encode() {
    // a success outcome with nothing else to say is just the identifier
    let packet = PubAck {
        packet_identifier: 1337,
        reason_code: ReasonCode::Success,
        reason_string: None,
        user_properties: Vec::new(),
    };
    let mut buffer = Vec::new();
    let n_bytes = packet.write(&mut buffer).unwrap();
    assert_eq!(n_bytes, 2);
    assert_eq!(buffer, vec![5, 57]);
}

#[test]
fn puback_shortened_decode() {
    let mut reader = Reader::new(vec![5, 57]);
    let decoded = PubAck::read(&mut reader, true).unwrap();
    assert_eq!(decoded.packet_identifier, 1337);
    assert_eq!(decoded.reason_code, ReasonCode::Success);
    assert_eq!(decoded.reason_string, None);
    assert!(decoded.user_properties.is_empty());
}

#[test]
fn puback_non_success_not_shortened() {
    // a bare failure code still writes the code and an empty region
    let packet = PubAck {
        packet_identifier: 7,
        reason_code: ReasonCode::QuotaExceeded,
        reason_string: None,
        user_properties: Vec::new(),
    };
    let mut buffer = Vec::new();
    let n_bytes = packet.clone().write(&mut buffer).unwrap();
    assert_eq!(n_bytes, 4);
    assert_eq!(buffer, vec![0, 7, 151, 0]);
    let mut reader = Reader::new(buffer);
    assert_eq!(PubAck::read(&mut reader, false).unwrap(), packet);
}

fn publish_encoded() -> Vec<u8> {
    vec![
        0, 13, 79, 110, 101, 32, 77, 111, 114, 101, 32, 84, 105, 109, 101, 5, 57, 76, 1, 1, 2, 0,
        0, 0, 17, 35, 1, 195, 8, 0, 23, 83, 109, 101, 108, 108, 115, 32, 76, 105, 107, 101, 32, 84,
        101, 101, 110, 32, 83, 112, 105, 114, 105, 116, 9, 0, 4, 13, 21, 234, 94, 38, 0, 7, 77,
        111, 103, 119, 97, 195, 175, 0, 3, 67, 97, 116, 11, 34, 11, 32, 11, 10, 11, 11, 3, 0, 7,
        78, 105, 114, 118, 97, 110, 97, 97, 108, 108, 32, 116, 104, 101, 32, 98, 97, 115, 101, 115,
        32, 97, 114, 101, 32, 98, 101, 108, 111, 110, 103, 32, 116, 111, 32, 117, 115,
    ]
}

fn publish_decoded() -> Publish {
    Publish {
        duplicate: false,
        qos: QoS::AtLeastOnce,
        retain: true,
        topic_name: "One More Time".into(),
        packet_identifier: Some(1337),
        payload_format_indicator: true,
        message_expiry_interval: Some(17),
        topic_alias: Some(451),
        response_topic: Some("Smells Like Teen Spirit".into()),
        correlation_data: Some(vec![0x0D, 0x15, 0xEA, 0x5E]),
        user_properties: vec![("Mogwaï".into(), "Cat".into())],
        subscription_identifiers: vec![34, 32, 10, 11],
        content_type: "Nirvana".into(),
        message: "all the bases are belong to us".into(),
    }
}

#[test]
fn publish_encode() {
    let test_data = publish_decoded();
    let mut tested_result = Vec::new();
    let n_bytes = test_data.write(&mut tested_result).unwrap();
    assert_eq!(tested_result, publish_encoded());
    assert_eq!(n_bytes, 124);
}

#[test]
fn publish_decode() {
    let mut test_data = Reader::new(publish_encoded());
    let tested_result = Publish::read(&mut test_data, false, QoS::AtLeastOnce, true, 124).unwrap();
    assert_eq!(tested_result, publish_decoded());
}

#[test]
fn publish_missing_identifier_rejected() {
    let mut packet = publish_decoded();
    packet.packet_identifier = None;
    let mut buffer = Vec::new();
    assert_eq!(packet.write(&mut buffer), Err(Error::ProtocolError));
}

#[test]
fn publish_default_format_indicator_elided() {
    // at its default the indicator writes nothing, and decoding a region
    // without it substitutes the default back
    let mut packet = publish_decoded();
    packet.payload_format_indicator = false;
    let mut buffer = Vec::new();
    let n_bytes = packet.clone().write(&mut buffer).unwrap();
    assert_eq!(n_bytes, 122);
    let mut reader = Reader::new(buffer);
    let decoded = Publish::read(&mut reader, false, QoS::AtLeastOnce, true, 122).unwrap();
    assert_eq!(decoded.payload_format_indicator, false);
    assert_eq!(decoded, packet);
}

#[test]
fn publish_zero_subscription_identifier_rejected() {
    let mut packet = publish_decoded();
    packet.subscription_identifiers = vec![0];
    let mut buffer = Vec::new();
    assert_eq!(packet.write(&mut buffer), Err(Error::ProtocolError));
}

#[test]
fn property_zero_receive_maximum_is_malformed() {
    let mut buffer = Vec::new();
    assert_eq!(
        Property::ReceiveMaximum(0).encode(&mut buffer),
        Err(Error::MalformedPacket)
    );
}

#[test]
fn property_default_receive_maximum_elided() {
    let mut buffer = Vec::new();
    assert_eq!(Property::ReceiveMaximum(65535).encode(&mut buffer), Ok(0));
    assert!(buffer.is_empty());
}

#[test]
fn property_default_payload_format_indicator_elided() {
    let mut buffer = Vec::new();
    assert_eq!(
        Property::PayloadFormatIndicator(false).encode(&mut buffer),
        Ok(0)
    );
    assert!(buffer.is_empty());
}

#[test]
fn reason_code_legality_per_packet() {
    assert_eq!(
        ReasonCode::try_parse(0x19, ControlPacketType::AUTH),
        Ok(ReasonCode::ReAuthenticate)
    );
    assert_eq!(
        ReasonCode::try_parse(0x19, ControlPacketType::PUBACK),
        Err(Error::ProtocolError)
    );
    assert_eq!(
        ReasonCode::try_parse(0x97, ControlPacketType::PUBACK),
        Ok(ReasonCode::QuotaExceeded)
    );
    assert_eq!(
        ReasonCode::try_parse(0x42, ControlPacketType::AUTH),
        Err(Error::ProtocolError)
    );
}

#[test]
fn suback_round_trip() {
    let packet = SubAck {
        packet_identifier: 1337,
        user_properties: vec![("Mogwaï".into(), "Cat".into())],
        reason_codes: vec![
            ReasonCode::Success,
            ReasonCode::GrantedQoS1,
            ReasonCode::UnspecifiedError,
        ],
    };
    let mut buffer = Vec::new();
    let n_bytes = packet.clone().write(&mut buffer).unwrap();
    assert_eq!(
        buffer,
        vec![
            5, 57, 15, 38, 0, 7, 77, 111, 103, 119, 97, 195, 175, 0, 3, 67, 97, 116, 0, 1, 128,
        ]
    );
    assert_eq!(n_bytes, 21);
    let mut reader = Reader::new(buffer);
    let decoded = SubAck::read(&mut reader, n_bytes).unwrap();
    assert_eq!(decoded, packet);
}

#[test]
fn suback_illegal_reason_code_rejected() {
    // re-authenticate is never legal in a subscribe acknowledgment
    let bytes = vec![0, 7, 0, 0x19];
    let mut reader = Reader::new(bytes);
    assert_eq!(SubAck::read(&mut reader, 4), Err(Error::ProtocolError));
}
