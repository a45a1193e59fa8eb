use flowsdk::codec::decode::{decode_packet, Decoded};
use flowsdk::codec::packet::{
    encode_packet, MqttAck, MqttConnect, MqttPacket, MqttPublish, MqttReason, MqttSubscribe, TopicSubscription, Will,
};
use flowsdk::codec::property::Property;
use flowsdk::codec::stream::MqttParser;

fn fixtures(version: u8) -> Vec<Vec<u8>> {
    let mut packets = vec![
        vec![0x20, 2, 1, 0],
        vec![0x3b, 7, 0, 1, b't', 0, 42, 0, 255],
        vec![0x40, 2, 0, 42],
        vec![0x50, 2, 0, 42],
        vec![0x62, 2, 0, 42],
        vec![0x70, 2, 0, 42],
        vec![0x82, 6, 0, 42, 0, 1, b't', 2],
        vec![0x90, 4, 0, 42, 1, 0x80],
        vec![0xa2, 5, 0, 42, 0, 1, b't'],
        vec![0xb0, 2, 0, 42],
        vec![0xc0, 0],
        vec![0xd0, 0],
        vec![0xe0, 0],
    ];
    if version == 5 {
        for (index, offset) in [(0, 4), (1, 7), (6, 4), (7, 4), (8, 4), (9, 4)] {
            packets[index].insert(offset, 0);
            packets[index][1] += 1;
        }
        packets[9].push(0x11);
        packets[9][1] += 1;
        packets.push(vec![0xf0, 0]);
    }
    packets
}

#[test]
fn all_packet_kinds_decode_and_encode_back_to_the_same_bytes() {
    for version in [4u8, 5u8] {
        for bytes in fixtures(version) {
            match decode_packet(&bytes, version) {
                Decoded::Packet(packet, n) => {
                    assert_eq!(n, bytes.len(), "{bytes:?}");
                    assert_eq!(encode_packet(&packet, version), Some(bytes.clone()), "{packet:?}");
                }
                other => panic!("MQTT {version} fixture {bytes:?}: {other:?}"),
            }
        }
    }
}

#[test]
fn publish_flags_come_from_the_first_byte() {
    match decode_packet(&[0x3b, 7, 0, 1, b't', 0, 42, 0, 255], 4) {
        Decoded::Packet(MqttPacket::Publish(p), 9) => {
            assert_eq!(p.qos, 1);
            assert!(p.dup);
            assert!(p.retain);
            assert_eq!(p.topic_name, "t");
            assert_eq!(p.packet_id, Some(42));
            assert_eq!(p.payload, vec![0, 255]);
        }
        other => panic!("{other:?}"),
    }
}

#[test]
fn every_prefix_of_a_frame_is_incomplete() {
    let bytes = vec![0x3b, 7, 0, 1, b't', 0, 42, 0, 255];
    for k in 0..bytes.len() {
        assert_eq!(decode_packet(&bytes[..k], 4), Decoded::Incomplete, "prefix of length {k}");
    }
}

#[test]
fn bad_first_bytes_and_qos_three_are_malformed() {
    assert_eq!(decode_packet(&[0x36, 2, 0, 1], 4), Decoded::Malformed);
    assert_eq!(decode_packet(&[0x41, 2, 0, 42], 4), Decoded::Malformed);
    assert_eq!(decode_packet(&[0xf0, 0], 4), Decoded::Malformed);
    assert_eq!(decode_packet(&[0xc0, 1, 0], 4), Decoded::Malformed);
    assert_eq!(decode_packet(&[0x20, 0x80, 0x00], 4), Decoded::Malformed);
}

#[test]
fn ack_reason_code_forms_in_mqtt5() {
    let short = decode_packet(&[0x40, 3, 0, 42, 0x10], 5);
    let long = decode_packet(&[0x40, 4, 0, 42, 0x10, 0], 5);
    let expected = MqttPacket::PubAck(MqttAck { packet_id: 42, reason_code: 0x10, properties: vec![] });
    assert_eq!(short, Decoded::Packet(expected.clone(), 5));
    assert_eq!(long, Decoded::Packet(expected.clone(), 6));
    assert_eq!(encode_packet(&expected, 5), Some(vec![0x40, 3, 0, 42, 0x10]));
    assert_eq!(encode_packet(&expected, 4), Some(vec![0x40, 2, 0, 42]));
}

#[test]
fn connect_encodes_will_and_credentials() {
    let connect = MqttConnect {
        client_id: "c".to_string(),
        username: Some("u".to_string()),
        password: Some(vec![9]),
        will: Some(Will {
            topic: "w".to_string(),
            payload: vec![1],
            qos: 1,
            retain: true,
            properties: vec![],
        }),
        keep_alive: 30,
        clean_start: true,
        properties: vec![],
    };
    let packet = MqttPacket::Connect(connect);
    let bytes = encode_packet(&packet, 4).unwrap();
    assert_eq!(decode_packet(&bytes, 4), Decoded::Packet(packet.clone(), bytes.len()));
    assert_eq!(decode_packet(&bytes, 5), Decoded::Malformed);
    assert_eq!(
        bytes,
        vec![
            0x10, 25, 0, 4, b'M', b'Q', b'T', b'T', 4, 0b1110_1110, 0, 30, 0, 1, b'c', 0, 1, b'w', 0, 1, 1, 0, 1,
            b'u', 0, 1, 9
        ]
    );
}

#[test]
fn properties_are_written_with_their_identifiers() {
    let p = MqttPacket::Publish(MqttPublish {
        qos: 0,
        topic_name: "a".to_string(),
        packet_id: None,
        payload: vec![],
        retain: false,
        dup: false,
        properties: vec![Property::PayloadFormatIndicator(1), Property::TopicAlias(0x0102)],
    });
    let bytes = encode_packet(&p, 5).unwrap();
    assert_eq!(bytes, vec![0x30, 9, 0, 1, b'a', 5, 0x01, 1, 0x23, 1, 2]);
    assert_eq!(decode_packet(&bytes, 5), Decoded::Packet(p, 11));
}

#[test]
fn remaining_length_uses_several_bytes_for_long_bodies() {
    let p = MqttPacket::Publish(MqttPublish {
        qos: 0,
        topic_name: "t".to_string(),
        packet_id: None,
        payload: vec![7; 200],
        retain: false,
        dup: false,
        properties: vec![],
    });
    let bytes = encode_packet(&p, 4).unwrap();
    assert_eq!(&bytes[..3], &[0x30, 0xCB, 0x01]);
    assert_eq!(bytes.len(), 3 + 203);
    assert_eq!(decode_packet(&bytes, 4), Decoded::Packet(p, 206));
}

#[test]
fn parser_cuts_a_stream_into_packets() {
    let mut parser = MqttParser::new(64, 4);
    parser.feed(&[0xd0, 0, 0x40, 2]);
    assert_eq!(parser.next_packet(), Ok(Some(MqttPacket::PingResp)));
    assert_eq!(parser.next_packet(), Ok(None));
    parser.feed(&[0, 7]);
    assert_eq!(
        parser.next_packet(),
        Ok(Some(MqttPacket::PubAck(MqttAck { packet_id: 7, reason_code: 0, properties: vec![] })))
    );
    assert_eq!(parser.next_packet(), Ok(None));
    parser.feed(&[0x00, 0]);
    assert!(parser.next_packet().is_err());
}

#[test]
fn disconnect_reason_in_mqtt5() {
    let d = MqttPacket::Disconnect(MqttReason { reason_code: 0x8E, properties: vec![] });
    assert_eq!(encode_packet(&d, 5), Some(vec![0xe0, 1, 0x8E]));
    assert_eq!(encode_packet(&d, 4), Some(vec![0xe0, 0]));
}

#[test]
fn connect_without_will_must_leave_will_bits_clear() {
    let mut bytes = vec![0x10, 13, 0, 4, b'M', b'Q', b'T', b'T', 4, 0b0000_0010, 0, 30, 0, 1, b'c'];
    match decode_packet(&bytes, 4) {
        Decoded::Packet(MqttPacket::Connect(c), 15) => {
            assert_eq!(c.client_id, "c");
            assert!(c.clean_start);
            assert!(c.will.is_none());
        }
        other => panic!("{other:?}"),
    }
    bytes[9] = 0b0001_0010;
    assert_eq!(decode_packet(&bytes, 4), Decoded::Malformed);
    bytes[9] = 0b0000_0011;
    assert_eq!(decode_packet(&bytes, 4), Decoded::Malformed);
}

#[test]
fn subscribe_options_in_mqtt5() {
    let s = MqttPacket::Subscribe(MqttSubscribe {
        packet_id: 5,
        subscriptions: vec![TopicSubscription {
            topic_filter: "a/#".to_string(),
            qos: 2,
            no_local: true,
            retain_as_published: true,
            retain_handling: 1,
        }],
        properties: vec![],
    });
    let bytes = encode_packet(&s, 5).unwrap();
    assert_eq!(bytes, vec![0x82, 9, 0, 5, 0, 0, 3, b'a', b'/', b'#', 0b0001_1110]);
    assert_eq!(decode_packet(&bytes, 5), Decoded::Packet(s, 11));
    assert_eq!(decode_packet(&[0x82, 7, 0, 5, 0, 0, 1, b'a', 0b0011_0000], 5), Decoded::Malformed);
}

#[test]
fn parser_reads_fixtures_fed_one_byte_at_a_time() {
    for version in [4u8, 5] {
        for bytes in fixtures(version) {
            let expected = match decode_packet(&bytes, version) {
                Decoded::Packet(p, n) => {
                    assert_eq!(n, bytes.len());
                    p
                }
                other => panic!("fixture not accepted: {:?}", other),
            };
            let mut parser = MqttParser::new(8, version);
            for (i, b) in bytes.iter().enumerate() {
                parser.feed(&[*b]);
                if i + 1 < bytes.len() {
                    assert_eq!(parser.next_packet(), Ok(None));
                } else {
                    assert_eq!(parser.next_packet(), Ok(Some(expected.clone())));
                    assert_eq!(parser.next_packet(), Ok(None));
                }
            }
        }
    }
}
