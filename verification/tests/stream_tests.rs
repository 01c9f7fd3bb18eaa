use mcclient::errors::McError;
use mcclient::mcstring::MCString;
use mcclient::packet::{serialize_packet, ClientboundRawPacket, InboundPacket, MCPacketHeader};
use mcclient::serverbound::handshake::{Handshake, NextState};
use mcclient::serverbound::status_request::StatusRequest;
use mcclient::stream::FrameAccumulator;
use mcclient::clientbound::status_response::StatusResponse;
use mcclient::varint::VarInt;
use mcclient::PROTOCOL_VERSION;

fn sample_handshake_frame() -> Vec<u8> {
    let handshake = Handshake {
        protocol_version: VarInt::from_i32(PROTOCOL_VERSION),
        server_addr: MCString::from_text("localhost").unwrap(),
        port: 25565,
        next_state: NextState::STATUS,
    };
    serialize_packet(&handshake)
}

#[test]
fn whole_frame_in_one_read() {
    let frame = sample_handshake_frame();
    let mut acc = FrameAccumulator::new();
    acc.push_chunk(&frame);
    let packet = acc.try_take_frame().unwrap().unwrap();
    assert_eq!(packet.header.size as usize, frame.len() - 1);
    assert_eq!(packet.header.id, 0);
    assert_eq!(packet.data, frame[2..].to_vec());
    assert_eq!(acc.len(), 0);
    assert!(matches!(acc.try_take_frame(), Ok(None)));
}

#[test]
fn partial_reads_yield_the_identical_frame() {
    let frame = sample_handshake_frame();

    let mut single = FrameAccumulator::new();
    single.push_chunk(&frame);
    let expected = single.try_take_frame().unwrap().unwrap();

    for chunk_len in 1..frame.len() {
        let mut acc = FrameAccumulator::new();
        let mut fed = 0;
        let mut parsed: Option<ClientboundRawPacket> = None;
        while fed < frame.len() {
            let end = usize::min(fed + chunk_len, frame.len());
            acc.push_chunk(&frame[fed..end]);
            fed = end;
            match acc.try_take_frame().unwrap() {
                Some(p) => {
                    assert!(fed == frame.len(), "a frame appeared before all bytes arrived");
                    parsed = Some(p);
                }
                None => {
                    assert!(fed < frame.len(), "all bytes arrived yet no frame appeared");
                }
            }
        }
        let got = parsed.expect("no frame was produced");
        assert_eq!(got.header, expected.header);
        assert_eq!(got.data, expected.data);
        assert_eq!(acc.len(), 0);
    }
}

#[test]
fn pipelined_frames_come_out_in_order() {
    let first = serialize_packet(&StatusRequest);
    let second = sample_handshake_frame();
    let mut both = first.clone();
    both.extend_from_slice(&second);

    let mut acc = FrameAccumulator::new();
    acc.push_chunk(&both);

    let one = acc.try_take_frame().unwrap().unwrap();
    assert_eq!(one.header.size, 1);
    assert_eq!(one.header.id, 0);
    assert_eq!(one.data, Vec::<u8>::new());
    assert_eq!(acc.len(), second.len());

    let two = acc.try_take_frame().unwrap().unwrap();
    assert_eq!(two.header.size as usize, second.len() - 1);
    assert_eq!(two.header.id, 0);
    assert_eq!(two.data, second[2..].to_vec());
    assert_eq!(acc.len(), 0);
    assert!(matches!(acc.try_take_frame(), Ok(None)));
}

#[test]
fn malformed_length_descriptor_fails_the_stream() {
    let mut acc = FrameAccumulator::new();
    acc.push_chunk(&[0x80, 0x80, 0x80, 0x80, 0x80, 0x80]);
    assert!(matches!(acc.try_take_frame(), Err(McError::MalformedVarInt)));
}

#[test]
fn incomplete_frame_asks_for_more_bytes() {
    let frame = sample_handshake_frame();
    let mut acc = FrameAccumulator::new();
    acc.push_chunk(&frame[..frame.len() - 1]);
    assert!(matches!(acc.try_take_frame(), Ok(None)));
    assert_eq!(acc.len(), frame.len() - 1);
}

#[test]
fn header_parse_consumes_its_descriptors() {
    let mut bytes = vec![0x10, 0x00, 0xAA, 0xBB];
    let header = MCPacketHeader::from_bytes(&mut bytes).unwrap();
    assert_eq!(header.size, 16);
    assert_eq!(header.id, 0);
    assert_eq!(bytes, vec![0xAA, 0xBB]);
}

#[test]
fn raw_packet_parse_retains_bytes_past_the_frame() {
    let mut bytes = vec![0x03, 0x00, 0x07, 0x08, 0xFF, 0xFE];
    let packet = ClientboundRawPacket::from_bytes(&mut bytes).unwrap();
    assert_eq!(packet.header.size, 3);
    assert_eq!(packet.header.id, 0);
    assert_eq!(packet.data, vec![0x07, 0x08]);
    assert_eq!(bytes, vec![0xFF, 0xFE]);
}

#[test]
fn raw_packet_parse_rejects_short_buffers() {
    let mut bytes = vec![0x05, 0x00, 0x07];
    assert!(matches!(
        ClientboundRawPacket::from_bytes(&mut bytes),
        Err(McError::TruncatedFrame)
    ));
    assert_eq!(bytes, vec![0x05, 0x00, 0x07]);
}

#[test]
fn status_response_exposes_the_json_text_unchanged() {
    let text = "{\"ok\":true}";
    let mut payload: Vec<u8> = vec![text.len() as u8];
    payload.extend_from_slice(text.as_bytes());
    let packet = ClientboundRawPacket {
        header: MCPacketHeader { size: 1 + payload.len() as i32, id: 0 },
        data: payload,
    };
    let response = StatusResponse::from_data(&packet).unwrap();
    assert_eq!(response.json_string.bytes().as_slice(), text.as_bytes());
    assert_eq!(response.packet_id(), 0);
}
