use lazyproxy::codec::write_var_int;
use lazyproxy::error::Error;
use lazyproxy::framer::{PacketDecoder, PacketEncoder};
use lazyproxy::handshake::{HandshakePacket, NextState};
use lazyproxy::status;

fn example_handshake() -> HandshakePacket {
    HandshakePacket {
        version: 772,
        address: String::from("example"),
        port: 25565,
        next_state: NextState::Status,
    }
}

fn encode_handshake_frame(packet: &HandshakePacket) -> Vec<u8> {
    let encoder: PacketEncoder<HandshakePacket> = PacketEncoder::new();
    let mut frame: Vec<u8> = Vec::new();
    encoder.encode(packet, &mut frame);
    frame
}

#[test]
fn framer_round_trip_keeps_raw_frame_bytes() {
    let frame = encode_handshake_frame(&example_handshake());
    let mut buffer = frame.clone();
    let mut decoder: PacketDecoder<HandshakePacket> = PacketDecoder::new();
    let packet = decoder
        .decode(&mut buffer)
        .expect("a whole frame must decode")
        .expect("a whole frame must yield a packet");
    assert_eq!(packet.data.version, 772);
    assert_eq!(packet.data.address, "example");
    assert_eq!(packet.data.port, 25565);
    assert_eq!(packet.data.next_state, NextState::Status);
    // The raw frame is kept verbatim so the forwarding path can replay it.
    assert_eq!(packet.buffer(), &frame);
    assert!(buffer.is_empty(), "the whole frame must be consumed");
}

#[test]
fn framer_fed_one_byte_at_a_time_decodes_exactly_once() {
    let frame = encode_handshake_frame(&example_handshake());
    let mut decoder: PacketDecoder<HandshakePacket> = PacketDecoder::new();
    let mut buffer: Vec<u8> = Vec::new();
    let mut decoded = 0usize;
    for (i, byte) in frame.iter().enumerate() {
        buffer.push(*byte);
        match decoder.decode(&mut buffer).expect("prefixes must not be errors") {
            Some(packet) => {
                decoded += 1;
                assert_eq!(i, frame.len() - 1, "no packet before the last byte");
                assert_eq!(packet.buffer(), &frame);
            }
            None => {
                assert!(i < frame.len() - 1, "the full frame must decode");
            }
        }
    }
    assert_eq!(decoded, 1, "exactly one packet, no spurious frames");
}

#[test]
fn framer_length_prefix_without_payload_needs_more() {
    let mut buffer = vec![0x05u8];
    let mut decoder: PacketDecoder<status::ServerBound> = PacketDecoder::new();
    assert!(decoder.decode(&mut buffer).expect("not an error").is_none());
    assert_eq!(decoder.needed, Some(5));
    assert_eq!(buffer, vec![0x05], "nothing may be consumed");
}

#[test]
fn framer_length_beyond_available_does_not_consume() {
    let mut buffer = vec![0x05u8, 0x01, 0x02];
    let mut decoder: PacketDecoder<status::ServerBound> = PacketDecoder::new();
    assert!(decoder.decode(&mut buffer).expect("not an error").is_none());
    assert_eq!(buffer, vec![0x05, 0x01, 0x02], "the consumed pointer must not advance");
}

#[test]
fn framer_negative_length_is_invalid_data() {
    let mut buffer: Vec<u8> = Vec::new();
    write_var_int(-1, &mut buffer);
    let mut decoder: PacketDecoder<status::ServerBound> = PacketDecoder::new();
    assert_eq!(decoder.decode(&mut buffer).unwrap_err(), Error::InvalidData);
}

#[test]
fn framer_leaves_following_frame_intact() {
    let encoder: PacketEncoder<status::ServerBound> = PacketEncoder::new();
    let mut buffer: Vec<u8> = Vec::new();
    encoder.encode(&status::ServerBound::StatusRequest, &mut buffer);
    let mut second: Vec<u8> = Vec::new();
    encoder.encode(&status::ServerBound::PingRequest(7), &mut second);
    buffer.extend_from_slice(&second);

    let mut decoder: PacketDecoder<status::ServerBound> = PacketDecoder::new();
    let first = decoder.decode(&mut buffer).unwrap().unwrap();
    assert_eq!(first.data, status::ServerBound::StatusRequest);
    assert_eq!(buffer, second, "the second frame must stay in the buffer");
    let second_packet = decoder.decode(&mut buffer).unwrap().unwrap();
    assert_eq!(second_packet.data, status::ServerBound::PingRequest(7));
    assert!(buffer.is_empty());
}

#[test]
fn framer_bad_packet_id_is_fatal() {
    // A frame declaring packet id 7 in the status phase: length 1, id 7.
    let mut buffer = vec![0x01u8, 0x07];
    let mut decoder: PacketDecoder<status::ServerBound> = PacketDecoder::new();
    assert_eq!(decoder.decode(&mut buffer).unwrap_err(), Error::InvalidData);
}
