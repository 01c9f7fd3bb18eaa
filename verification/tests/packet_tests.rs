use mcclient::builder::PacketBytesBuilder;
use mcclient::mcstring::MCString;
use mcclient::mctypes::{MCType, McUuid};
use mcclient::packet::serialize_packet;
use mcclient::serverbound::handshake::{Handshake, NextState};
use mcclient::serverbound::login_start::LoginStart;
use mcclient::serverbound::status_request::StatusRequest;
use mcclient::varint::{from_varint_bytes, VarInt};
use mcclient::PROTOCOL_VERSION;

#[test]
fn outbound_packet_serialization() {
    let handshake = Handshake {
        protocol_version: VarInt::from_i32(PROTOCOL_VERSION),
        server_addr: MCString::from_text("localhost").unwrap(),
        port: 25565,
        next_state: NextState::STATUS,
    };

    let actual_data_size = VarInt::from_i32(PROTOCOL_VERSION).len() + 10 + 2 + 1;
    let actual_packet_size = actual_data_size + 1;
    let packet_id: u8 = 0x00;

    let mut fake_packet_bytes = Vec::<u8>::new();
    fake_packet_bytes.append(&mut VarInt::from_i32(actual_packet_size).to_bytes());
    fake_packet_bytes.push(packet_id);
    fake_packet_bytes.append(&mut VarInt::from_i32(PROTOCOL_VERSION).to_bytes());
    fake_packet_bytes.append(&mut VarInt::from_i32("localhost".len() as i32).to_bytes());
    fake_packet_bytes.append(&mut "localhost".as_bytes().to_vec());
    fake_packet_bytes.append(&mut 25565_u16.to_be_bytes().to_vec());
    fake_packet_bytes.append(&mut VarInt::from_i32(NextState::STATUS.value()).to_bytes());

    assert_eq!(serialize_packet(&handshake), fake_packet_bytes);
}

#[test]
fn status_request_packet_serialization() {
    let status_request = StatusRequest;

    assert_eq!(serialize_packet(&status_request), vec![0x01, 0x00]);
}

#[test]
fn handshake_frame_length_field() {
    let handshake = Handshake {
        protocol_version: VarInt::from_i32(PROTOCOL_VERSION),
        server_addr: MCString::from_text("localhost").unwrap(),
        port: 25565,
        next_state: NextState::STATUS,
    };
    let frame = serialize_packet(&handshake);
    let (declared, _) = from_varint_bytes(&frame).unwrap();
    let protocol_version_varint_len = VarInt::from_i32(PROTOCOL_VERSION).len();
    assert_eq!(
        declared,
        1 + protocol_version_varint_len + (1 + "localhost".len() as i32) + 2 + 1
    );
}

#[test]
fn handshake_end_to_end_bytes() {
    let handshake = Handshake {
        protocol_version: VarInt::from_i32(760),
        server_addr: MCString::from_text("localhost").unwrap(),
        port: 25565,
        next_state: NextState::STATUS,
    };
    let frame = serialize_packet(&handshake);
    let expected: Vec<u8> = vec![
        0x10, // length: 1 id byte + 15 payload bytes
        0x00, // packet id
        0xF8, 0x05, // VarInt(760)
        0x09, b'l', b'o', b'c', b'a', b'l', b'h', b'o', b's', b't', // String("localhost")
        0x63, 0xDD, // 25565 big-endian
        0x01, // next state: status
    ];
    assert_eq!(frame, expected);
}

#[test]
fn login_start_serialization_without_uuid() {
    let login = LoginStart {
        username: MCString::from_text("Makoto").unwrap(),
        uuid: None,
    };
    let frame = serialize_packet(&login);
    let mut expected: Vec<u8> = vec![0x09, 0x00, 0x06];
    expected.extend_from_slice(b"Makoto");
    expected.push(0x00);
    assert_eq!(frame, expected);
}

#[test]
fn login_start_serialization_with_uuid() {
    let source = uuid::Uuid::from_u128(0x0123_4567_89AB_CDEF_0123_4567_89AB_CDEF);
    let pair = source.as_u64_pair();
    let login = LoginStart {
        username: MCString::from_text("Makoto").unwrap(),
        uuid: Some(McUuid { high: pair.0, low: pair.1 }),
    };
    let frame = serialize_packet(&login);
    let mut expected: Vec<u8> = vec![0x19, 0x00, 0x06];
    expected.extend_from_slice(b"Makoto");
    expected.push(0x01);
    expected.extend_from_slice(&source.as_bytes()[..]);
    assert_eq!(frame, expected);
}

#[test]
fn builder_appends_each_primitive_in_wire_form() {
    let mut builder = PacketBytesBuilder::new()
        .append_u16(25565)
        .append_bool(true)
        .append_bool(false)
        .append_varint(&VarInt::from_i32(128))
        .append_bytes(&[0xAA, 0xBB]);
    let built = builder.build();
    assert_eq!(built, vec![0x63, 0xDD, 1, 0, 128, 1, 0xAA, 0xBB]);
    assert_eq!(builder.build(), Vec::<u8>::new());
}

#[test]
fn builder_uuid_big_endian_high_half_first() {
    let source = uuid::Uuid::from_u128(0x0011_2233_4455_6677_8899_AABB_CCDD_EEFF);
    let pair = source.as_u64_pair();
    let mut builder =
        PacketBytesBuilder::new().append_uuid(&McUuid { high: pair.0, low: pair.1 });
    let built = builder.build();
    assert_eq!(built.as_slice(), &source.as_bytes()[..]);
    assert_eq!(
        built,
        vec![
            0x00, 0x11, 0x22, 0x33, 0x44, 0x55, 0x66, 0x77, 0x88, 0x99, 0xAA, 0xBB, 0xCC, 0xDD,
            0xEE, 0xFF
        ]
    );
}

#[test]
fn mcstring_size_counts_descriptor_and_content() {
    let string = MCString::from_text("Hello!").unwrap();
    assert_eq!(MCType::size(&string), 7);
    assert_eq!(string.size().value(), 6);
    assert_eq!(string.bytes().as_slice(), b"Hello!");
    assert_eq!(MCType::to_bytes(&string), vec![6, b'H', b'e', b'l', b'l', b'o', b'!']);
}

#[test]
fn mcstring_non_ascii_content_is_utf8_bytes() {
    let string = MCString::from_text("\u{00DF}").unwrap();
    assert_eq!(string.bytes().as_slice(), &[0xC3, 0x9F]);
    assert_eq!(MCType::size(&string), 3);
}
