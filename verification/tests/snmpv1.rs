use rust_snmp::endian::integer_width;
use rust_snmp::oid::pack_oid;
use rust_snmp::request::build_get_request;
use rust_snmp::snmpv1::{parse, Message, Request, DEFAULT_TIMEOUT};
use rust_snmp::types::{SnmpError, SnmpType};

const SYS_NAME: [u32; 9] = [1, 3, 6, 1, 2, 1, 1, 5, 0];

const SYS_NAME_UNIT: [u8; 10] = [0x06, 0x08, 0x2B, 6, 1, 2, 1, 1, 5, 0];

fn unit(tag: u8, content: &[u8]) -> Vec<u8> {
    let mut out = vec![tag, content.len() as u8];
    out.extend_from_slice(content);
    out
}

fn response(
    version: &[u8],
    community: &[u8],
    pdu_tag: u8,
    request_id: &[u8],
    status: &[u8],
    index: &[u8],
    name: &[u8],
    value: &[u8],
) -> Vec<u8> {
    let mut pair = name.to_vec();
    pair.extend_from_slice(value);
    let bindings = unit(0x30, &unit(0x30, &pair));
    let mut fields = request_id.to_vec();
    fields.extend_from_slice(status);
    fields.extend_from_slice(index);
    fields.extend_from_slice(&bindings);
    let mut content = version.to_vec();
    content.extend_from_slice(community);
    content.extend_from_slice(&unit(pdu_tag, &fields));
    unit(0x30, &content)
}

fn response_with(status: u8, index: u8, value: &[u8]) -> Vec<u8> {
    response(
        &[0x02, 0x01, 0x00],
        &unit(0x04, b"public"),
        0xA2,
        &[0x02, 0x01, 0x01],
        &[0x02, 0x01, status],
        &[0x02, 0x01, index],
        &SYS_NAME_UNIT,
        value,
    )
}

fn monkey() -> Vec<u8> {
    response_with(0, 0, &unit(0x04, b"monkey5000"))
}

#[test]
fn get_request_for_public_and_system_name() {
    let packet = build_get_request(b"public", &SYS_NAME, 1).unwrap();
    let expected: Vec<u8> = vec![
        0x30, 0x26, 0x02, 0x01, 0x00, 0x04, 0x06, b'p', b'u', b'b', b'l', b'i', b'c', 0xA0, 0x19,
        0x02, 0x01, 0x01, 0x02, 0x01, 0x00, 0x02, 0x01, 0x00, 0x30, 0x0E, 0x30, 0x0C, 0x06, 0x08,
        0x2B, 0x06, 0x01, 0x02, 0x01, 0x01, 0x05, 0x00, 0x05, 0x00,
    ];
    assert_eq!(packet, expected);
    assert_eq!(packet[0], 0x30);
    assert_eq!(packet[1] as usize, packet.len() - 2);
}

#[test]
fn get_request_lengths_grow_with_the_request_id() {
    let packet = build_get_request(b"public", &SYS_NAME, 0x9E5D19).unwrap();
    assert_eq!(packet.len(), 43);
    assert_eq!(packet[1], 41);
    assert_eq!(packet[13], 0xA0);
    assert_eq!(packet[14], 28);
    assert_eq!(&packet[15..21], &[0x02, 0x04, 0x00, 0x9E, 0x5D, 0x19]);
}

#[test]
fn get_request_with_wide_sub_identifier() {
    let packet = build_get_request(b"c", &[1, 3, 6, 1, 4, 1, 2680, 0], 5).unwrap();
    let expected: Vec<u8> = vec![
        0x30, 0x21, 0x02, 0x01, 0x00, 0x04, 0x01, b'c', 0xA0, 0x19, 0x02, 0x01, 0x05, 0x02, 0x01,
        0x00, 0x02, 0x01, 0x00, 0x30, 0x0E, 0x30, 0x0C, 0x06, 0x08, 0x2B, 0x06, 0x01, 0x04, 0x01,
        0x94, 0x78, 0x00, 0x05, 0x00,
    ];
    assert_eq!(packet, expected);
}

#[test]
fn get_request_refuses_a_message_above_127_bytes() {
    let community = vec![b'x'; 100];
    assert!(matches!(
        build_get_request(&community, &SYS_NAME, 1),
        Err(SnmpError::EncodingTooLarge)
    ));
    let community = vec![b'x'; 128];
    assert!(matches!(
        build_get_request(&community, &SYS_NAME, 1),
        Err(SnmpError::EncodingTooLarge)
    ));
    let mut subids = vec![1u32, 3];
    subids.extend(std::iter::repeat(7u32).take(130));
    assert!(matches!(
        build_get_request(b"public", &subids, 1),
        Err(SnmpError::EncodingTooLarge)
    ));
}

#[test]
fn get_request_of_exactly_127_content_bytes() {
    let community = vec![b'x'; 95];
    let packet = build_get_request(&community, &SYS_NAME, 1).unwrap();
    assert_eq!(packet.len(), 129);
    assert_eq!(packet[1], 127);
    let community = vec![b'x'; 96];
    assert!(matches!(
        build_get_request(&community, &SYS_NAME, 1),
        Err(SnmpError::EncodingTooLarge)
    ));
}

#[test]
fn get_request_refuses_an_object_identifier_that_does_not_pack() {
    assert!(matches!(
        build_get_request(b"public", &[1], 1),
        Err(SnmpError::ParsingError)
    ));
    assert!(matches!(
        build_get_request(b"public", &[7, 0, 1], 1),
        Err(SnmpError::EncodingTooLarge)
    ));
    let community = vec![b'x'; 200];
    assert!(matches!(
        build_get_request(&community, &[], 1),
        Err(SnmpError::ParsingError)
    ));
}

#[test]
fn request_new_keeps_its_arguments() {
    let request = Request::new(
        "demo.snmplabs.com:161".to_owned(),
        "public".to_owned(),
        SYS_NAME.to_vec(),
    );
    assert_eq!(request.address, "demo.snmplabs.com:161");
    assert_eq!(request.community, "public");
    assert_eq!(request.mibvals, SYS_NAME.to_vec());
    assert_eq!(request.timeout, 1000);
    assert_eq!(DEFAULT_TIMEOUT, 1000);
}

#[test]
fn request_with_request_id_keeps_the_id() {
    let request = Request::with_request_id(
        "127.0.0.1:161".to_owned(),
        "private".to_owned(),
        vec![1, 3],
        77,
    );
    assert_eq!(request.request_id, 77);
    assert_eq!(request.timeout, 1000);
    assert_eq!(request.address, "127.0.0.1:161");
    assert_eq!(request.community, "private");
    assert_eq!(request.mibvals, vec![1, 3]);
}

#[test]
fn request_createpacket_is_the_get_request() {
    let request = Request::with_request_id(
        "demo.snmplabs.com:161".to_owned(),
        "public".to_owned(),
        SYS_NAME.to_vec(),
        1,
    );
    let packet = request.createpacket().unwrap();
    assert_eq!(packet, build_get_request(b"public", &SYS_NAME, 1).unwrap());
    assert_eq!(packet[0], 0x30);
    assert_eq!(packet[1] as usize, packet.len() - 2);
}

#[test]
fn request_createpacket_writes_a_large_id_as_a_positive_integer() {
    let request = Request::with_request_id(
        "a:161".to_owned(),
        "public".to_owned(),
        SYS_NAME.to_vec(),
        u32::MAX,
    );
    let packet = request.createpacket().unwrap();
    assert_eq!(&packet[15..22], &[0x02, 0x05, 0x00, 0xFF, 0xFF, 0xFF, 0xFF]);
    assert_eq!(packet[1] as usize, packet.len() - 2);
}

#[test]
fn request_createpacket_with_a_random_id_declares_its_length() {
    let request = Request::new("a:161".to_owned(), "public".to_owned(), SYS_NAME.to_vec());
    let packet = request.createpacket().unwrap();
    assert_eq!(packet[0], 0x30);
    assert_eq!(packet[1] as usize, packet.len() - 2);
}

#[test]
fn response_with_string_value() {
    let packet = monkey();
    assert_eq!(packet.len(), 50);
    let message = Message::from_packet(&packet).unwrap();
    assert_eq!(message.to_string().unwrap(), "monkey5000");
    assert!(matches!(message.to_int(), Err(SnmpError::InvalidType)));
    assert_eq!(message.packet(), &packet[..]);
    assert_eq!(message.community(), "public");
    assert_eq!(message.request_id(), 1);
    assert_eq!(message.oid(), &SYS_NAME[..]);
    assert_eq!(message.value(), &SnmpType::SnmpString("monkey5000".to_owned()));
}

#[test]
fn response_with_integer_value() {
    let packet = response_with(0, 0, &[0x02, 0x02, 0xFC, 0x18]);
    let message = Message::from_packet(&packet).unwrap();
    assert_eq!(message.to_int().unwrap(), -1000);
    assert_eq!(message.to_string().unwrap(), "-1000");
}

#[test]
fn response_with_null_value() {
    let packet = response_with(0, 0, &[0x05, 0x00]);
    let message = Message::from_packet(&packet).unwrap();
    assert!(matches!(message.to_string(), Err(SnmpError::InvalidType)));
    assert!(matches!(message.to_int(), Err(SnmpError::InvalidType)));
    assert_eq!(message.value(), &SnmpType::SnmpNull);
}

#[test]
fn response_keeps_a_wide_request_id() {
    let packet = response(
        &[0x02, 0x01, 0x00],
        &unit(0x04, b"public"),
        0xA2,
        &[0x02, 0x05, 0x00, 0xFF, 0xFF, 0xFF, 0xFF],
        &[0x02, 0x01, 0x00],
        &[0x02, 0x01, 0x00],
        &SYS_NAME_UNIT,
        &[0x02, 0x01, 0x2A],
    );
    let message = Message::from_packet(&packet).unwrap();
    assert_eq!(message.request_id(), 4294967295);
    assert_eq!(message.to_int().unwrap(), 42);
}

#[test]
fn response_with_error_status_two() {
    let packet = response_with(2, 0, &unit(0x04, b"monkey5000"));
    assert!(matches!(
        Message::from_packet(&packet),
        Err(SnmpError::ResponseError(2))
    ));
    let packet = response_with(2, 0, &[0x77, 0x00]);
    assert!(matches!(
        Message::from_packet(&packet),
        Err(SnmpError::ResponseError(2))
    ));
    let mut packet = vec![
        0x30, 0x00, 0x02, 0x01, 0x00, 0x04, 0x01, b'c', 0xA2, 0x00, 0x02, 0x01, 0x09, 0x02, 0x01,
        0x02,
    ];
    packet[1] = (packet.len() - 2) as u8;
    assert!(matches!(
        Message::from_packet(&packet),
        Err(SnmpError::ResponseError(2))
    ));
}

#[test]
fn response_with_error_index() {
    let packet = response_with(0, 1, &unit(0x04, b"monkey5000"));
    assert!(matches!(
        Message::from_packet(&packet),
        Err(SnmpError::ResponseError(1))
    ));
    let packet = response_with(5, 1, &unit(0x04, b"monkey5000"));
    assert!(matches!(
        Message::from_packet(&packet),
        Err(SnmpError::ResponseError(5))
    ));
}

#[test]
fn response_with_negative_error_status() {
    let packet = response_with(0xFF, 0, &[0x05, 0x00]);
    assert!(matches!(
        Message::from_packet(&packet),
        Err(SnmpError::ResponseError(-1))
    ));
}

#[test]
fn response_that_does_not_start_with_a_sequence() {
    let mut packet = monkey();
    packet[0] = 0x31;
    assert!(matches!(Message::from_packet(&packet), Err(SnmpError::ParsingError)));
    assert!(matches!(Message::from_packet(&[0x00]), Err(SnmpError::ParsingError)));
    assert!(matches!(
        Message::from_packet(&[0xA2, 0x05, 0x00]),
        Err(SnmpError::ParsingError)
    ));
}

#[test]
fn response_with_wrong_envelope_length() {
    assert!(matches!(Message::from_packet(&[]), Err(SnmpError::PacketTooShort)));
    assert!(matches!(Message::from_packet(&[0x30]), Err(SnmpError::PacketTooShort)));
    let mut packet = monkey();
    packet.pop();
    assert!(matches!(Message::from_packet(&packet), Err(SnmpError::PacketTooShort)));
    let mut packet = monkey();
    packet.push(0);
    assert!(matches!(Message::from_packet(&packet), Err(SnmpError::PacketTooShort)));
}

#[test]
fn response_with_wrong_version() {
    let packet = response(
        &[0x02, 0x01, 0x01],
        &unit(0x04, b"public"),
        0xA2,
        &[0x02, 0x01, 0x01],
        &[0x02, 0x01, 0x00],
        &[0x02, 0x01, 0x00],
        &SYS_NAME_UNIT,
        &[0x05, 0x00],
    );
    assert!(matches!(Message::from_packet(&packet), Err(SnmpError::ParsingError)));
    let packet = response(
        &[0x04, 0x01, 0x00],
        &unit(0x04, b"public"),
        0xA2,
        &[0x02, 0x01, 0x01],
        &[0x02, 0x01, 0x00],
        &[0x02, 0x01, 0x00],
        &SYS_NAME_UNIT,
        &[0x05, 0x00],
    );
    assert!(matches!(Message::from_packet(&packet), Err(SnmpError::ParsingError)));
}

#[test]
fn response_with_community_that_is_no_string() {
    let packet = response(
        &[0x02, 0x01, 0x00],
        &[0x02, 0x01, 0x07],
        0xA2,
        &[0x02, 0x01, 0x01],
        &[0x02, 0x01, 0x00],
        &[0x02, 0x01, 0x00],
        &SYS_NAME_UNIT,
        &[0x05, 0x00],
    );
    assert!(matches!(Message::from_packet(&packet), Err(SnmpError::ParsingError)));
    let packet = response(
        &[0x02, 0x01, 0x00],
        &[0x04, 0x02, 0xC3, 0x28],
        0xA2,
        &[0x02, 0x01, 0x01],
        &[0x02, 0x01, 0x00],
        &[0x02, 0x01, 0x00],
        &SYS_NAME_UNIT,
        &[0x05, 0x00],
    );
    assert!(matches!(Message::from_packet(&packet), Err(SnmpError::ParsingError)));
}

#[test]
fn response_with_wrong_pdu_tag() {
    let packet = response(
        &[0x02, 0x01, 0x00],
        &unit(0x04, b"public"),
        0xA0,
        &[0x02, 0x01, 0x01],
        &[0x02, 0x01, 0x00],
        &[0x02, 0x01, 0x00],
        &SYS_NAME_UNIT,
        &[0x05, 0x00],
    );
    assert!(matches!(Message::from_packet(&packet), Err(SnmpError::ParsingError)));
}

#[test]
fn response_that_ends_early() {
    let whole = monkey();
    for keep in 2..whole.len() - 1 {
        let mut packet = whole[..keep].to_vec();
        packet[1] = (keep - 2) as u8;
        assert!(Message::from_packet(&packet).is_err());
    }
    let packet = vec![0x30, 0x03, 0x02, 0x01, 0x00];
    assert!(matches!(Message::from_packet(&packet), Err(SnmpError::PacketTooShort)));
    let packet = vec![0x30, 0x06, 0x02, 0x01, 0x00, 0x04, 0x01, b'c'];
    assert!(matches!(Message::from_packet(&packet), Err(SnmpError::ParsingError)));
    let packet = vec![0x30, 0x07, 0x02, 0x01, 0x00, 0x04, 0x01, b'c', 0xA2];
    assert!(matches!(Message::from_packet(&packet), Err(SnmpError::ParsingError)));
    let packet = vec![0x30, 0x08, 0x02, 0x01, 0x00, 0x04, 0x01, b'c', 0xA2, 0x00];
    assert!(matches!(Message::from_packet(&packet), Err(SnmpError::PacketTooShort)));
}

#[test]
fn response_with_unknown_value_tag() {
    let packet = response_with(0, 0, &[0x41, 0x01, 0x05]);
    assert!(matches!(Message::from_packet(&packet), Err(SnmpError::InvalidType)));
}

#[test]
fn response_with_object_identifier_as_value() {
    let packet = response_with(0, 0, &SYS_NAME_UNIT);
    assert!(matches!(Message::from_packet(&packet), Err(SnmpError::InvalidType)));
    let packet = response_with(0, 0, &[0x06, 0x00]);
    assert!(matches!(Message::from_packet(&packet), Err(SnmpError::InvalidType)));
    let packet = response_with(0, 0, &[0x06, 0x02, 0x2B, 0x81]);
    assert!(matches!(Message::from_packet(&packet), Err(SnmpError::InvalidType)));
}

#[test]
fn response_with_value_that_ends_early() {
    let mut packet = response_with(0, 0, &[0x06, 0x03, 0x2B, 0x06]);
    let last = packet.len() - 1;
    packet.truncate(last);
    packet[1] = (packet.len() - 2) as u8;
    assert!(matches!(Message::from_packet(&packet), Err(SnmpError::PacketTooShort)));
    let mut packet = response_with(0, 0, &[0x04, 0x03, b'a', b'b']);
    packet[1] = (packet.len() - 2) as u8;
    assert!(matches!(Message::from_packet(&packet), Err(SnmpError::PacketTooShort)));
}

#[test]
fn response_with_name_that_is_no_object_identifier() {
    let packet = response(
        &[0x02, 0x01, 0x00],
        &unit(0x04, b"public"),
        0xA2,
        &[0x02, 0x01, 0x01],
        &[0x02, 0x01, 0x00],
        &[0x02, 0x01, 0x00],
        &[0x02, 0x01, 0x05],
        &[0x05, 0x00],
    );
    assert!(matches!(Message::from_packet(&packet), Err(SnmpError::ParsingError)));
}

#[test]
fn response_with_bindings_that_are_no_sequence() {
    let mut packet = monkey();
    assert_eq!(packet[24], 0x30);
    packet[24] = 0x31;
    assert!(matches!(Message::from_packet(&packet), Err(SnmpError::ParsingError)));
    let mut packet = monkey();
    assert_eq!(packet[26], 0x30);
    packet[26] = 0x04;
    assert!(matches!(Message::from_packet(&packet), Err(SnmpError::ParsingError)));
}

#[test]
fn response_inner_lengths_are_not_held_against_the_buffer() {
    let mut packet = monkey();
    packet[14] = 0x7F;
    packet[25] = 0x00;
    packet[27] = 0x55;
    let message = Message::from_packet(&packet).unwrap();
    assert_eq!(message.to_string().unwrap(), "monkey5000");
}

#[test]
fn response_is_parsed_again_from_its_own_packet() {
    let message = Message::from_packet(&monkey()).unwrap();
    let again = Message::from_packet(message.packet()).unwrap();
    assert_eq!(again.to_string().unwrap(), "monkey5000");
    assert_eq!(again.community(), message.community());
    assert_eq!(again.request_id(), message.request_id());
    assert_eq!(again.oid(), message.oid());
    assert_eq!(again.value(), message.value());
}

#[test]
fn parse_gives_the_value_as_text() {
    assert_eq!(parse(&monkey()).unwrap(), "monkey5000");
    assert_eq!(parse(&response_with(0, 0, &[0x02, 0x01, 0x2A])).unwrap(), "42");
    assert!(matches!(
        parse(&response_with(0, 0, &[0x05, 0x00])),
        Err(SnmpError::InvalidType)
    ));
    assert!(matches!(
        parse(&response_with(3, 0, &[0x05, 0x00])),
        Err(SnmpError::ResponseError(3))
    ));
    assert!(matches!(parse(&[0x31, 0x00]), Err(SnmpError::ParsingError)));
    assert!(matches!(parse(&[]), Err(SnmpError::PacketTooShort)));
}

#[test]
fn transport_error_keeps_the_io_error() {
    let error = SnmpError::from(std::io::Error::new(std::io::ErrorKind::TimedOut, "late"));
    match error {
        SnmpError::TransportError(inner) => {
            assert_eq!(inner.kind(), std::io::ErrorKind::TimedOut)
        }
        other => panic!("{:?}", other),
    }
}

#[test]
fn utf8_error_becomes_a_parsing_error() {
    let inner = String::from_utf8(vec![0xFF]).unwrap_err();
    assert!(matches!(SnmpError::from(inner), SnmpError::ParsingError));
}

#[test]
fn reply_that_the_transport_failed_to_bring() {
    let failure = std::io::Error::new(std::io::ErrorKind::WouldBlock, "no answer");
    match Message::from_reply(Err(failure)) {
        Err(SnmpError::TransportError(inner)) => {
            assert_eq!(inner.kind(), std::io::ErrorKind::WouldBlock)
        }
        other => panic!("{:?}", other),
    }
}

#[test]
fn reply_that_the_transport_brought() {
    let message = Message::from_reply(Ok(monkey())).unwrap();
    assert_eq!(message.to_string().unwrap(), "monkey5000");
    assert!(matches!(
        Message::from_reply(Ok(response_with(2, 0, &[0x05, 0x00]))),
        Err(SnmpError::ResponseError(2))
    ));
    assert!(matches!(
        Message::from_reply(Ok(vec![0x31, 0x00])),
        Err(SnmpError::ParsingError)
    ));
}

#[test]
fn request_echoed_as_a_response_is_accepted() {
    let mut packet = build_get_request(b"public", &SYS_NAME, 0x1234_5678).unwrap();
    assert_eq!(packet[13], 0xA0);
    packet[13] = 0xA2;
    let message = Message::from_packet(&packet).unwrap();
    assert_eq!(message.community(), "public");
    assert_eq!(message.request_id(), 0x1234_5678);
    assert_eq!(message.oid(), &SYS_NAME[..]);
    assert_eq!(message.value(), &SnmpType::SnmpNull);
}

#[test]
fn get_request_size_follows_from_its_parts() {
    let communities: Vec<Vec<u8>> = vec![vec![], b"public".to_vec(), vec![b'x'; 60]];
    let oids: Vec<Vec<u32>> = vec![
        vec![1, 3],
        SYS_NAME.to_vec(),
        vec![1, 3, 6, 1, 4, 1, 2680, 1, 2, 7, 3, 2, 0],
        vec![2, 5, u32::MAX, u32::MAX],
    ];
    let ids: Vec<i64> = vec![0, 1, 255, -1, 0x9E5D19, u32::MAX as i64, i64::MIN];
    for community in &communities {
        for oid in &oids {
            for id in &ids {
                let packed = pack_oid(oid).unwrap();
                let content = community.len() + packed.len() + integer_width(*id) + 23;
                match build_get_request(community, oid, *id) {
                    Ok(packet) => {
                        assert!(content <= 127);
                        assert_eq!(packet.len(), content + 2);
                        assert_eq!(packet[0], 0x30);
                        assert_eq!(packet[1] as usize, content);
                    }
                    Err(SnmpError::EncodingTooLarge) => assert!(content > 127),
                    Err(other) => panic!("{:?}", other),
                }
            }
        }
    }
    let packet = build_get_request(b"public", &SYS_NAME, 1).unwrap();
    assert_eq!(packet.len(), 6 + 8 + 1 + 23 + 2);
}
