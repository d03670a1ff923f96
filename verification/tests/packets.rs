use lazyproxy::codec::DecoderState;
use lazyproxy::error::Error;
use lazyproxy::handshake::{HandshakePacket, NextState};
use lazyproxy::login;
use lazyproxy::protocol::Protocol;
use lazyproxy::status;

/// Encodes a payload, checks its declared size, and decodes it back.
fn payload_round_trip<T: Protocol>(packet: &T) -> T {
    let mut payload: Vec<u8> = Vec::new();
    packet.encode_packet(&mut payload);
    assert_eq!(payload.len(), packet.encoded_size(), "declared size must be exact");
    let mut state = DecoderState::new(payload.as_slice());
    let decoded = T::decode_packet(packet.packet_number(), &mut state)
        .expect("an encoded packet must decode");
    assert_eq!(state.offset, payload.len(), "decode must consume the whole payload");
    decoded
}

#[test]
fn handshake_round_trip() {
    for next_state in [NextState::Status, NextState::Login, NextState::Transfer] {
        let packet = HandshakePacket {
            version: 772,
            address: String::from("example"),
            port: 25565,
            next_state,
        };
        let decoded = payload_round_trip(&packet);
        assert_eq!(decoded.version, 772);
        assert_eq!(decoded.address, "example");
        assert_eq!(decoded.port, 25565);
        assert_eq!(decoded.next_state, next_state);
    }
}

#[test]
fn handshake_rejects_other_packet_ids() {
    let bytes: [u8; 0] = [];
    let mut state = DecoderState::new(&bytes);
    assert!(matches!(
        HandshakePacket::decode_packet(1, &mut state),
        Err(Error::InvalidData)
    ));
}

#[test]
fn handshake_rejects_unknown_next_state() {
    let packet = HandshakePacket {
        version: 772,
        address: String::from("example"),
        port: 25565,
        next_state: NextState::Status,
    };
    let mut payload: Vec<u8> = Vec::new();
    packet.encode_packet(&mut payload);
    // The next-state VarInt is the last byte; replace it with 42.
    *payload.last_mut().unwrap() = 42;
    let mut state = DecoderState::new(payload.as_slice());
    assert!(matches!(
        HandshakePacket::decode_packet(0, &mut state),
        Err(Error::InvalidData)
    ));
}

#[test]
fn status_server_bound_round_trip() {
    let decoded = payload_round_trip(&status::ServerBound::StatusRequest);
    assert_eq!(decoded, status::ServerBound::StatusRequest);
    let decoded = payload_round_trip(&status::ServerBound::PingRequest(0x0123456789abcdef_i64));
    assert_eq!(decoded, status::ServerBound::PingRequest(0x0123456789abcdef));
    let decoded = payload_round_trip(&status::ServerBound::PingRequest(-7));
    assert_eq!(decoded, status::ServerBound::PingRequest(-7));
}

#[test]
fn status_server_bound_rejects_other_ids() {
    let bytes: [u8; 0] = [];
    let mut state = DecoderState::new(&bytes);
    assert!(matches!(
        status::ServerBound::decode_packet(2, &mut state),
        Err(Error::InvalidData)
    ));
}

#[test]
fn status_client_bound_round_trip() {
    let packet = status::ClientBound::StatusResponse {
        json_response: String::from("{\"description\":\"hi\"}"),
    };
    match payload_round_trip(&packet) {
        status::ClientBound::StatusResponse { json_response } => {
            assert_eq!(json_response, "{\"description\":\"hi\"}");
        }
        other => panic!("wrong variant decoded: {:?}", other),
    }
    match payload_round_trip(&status::ClientBound::PingResponse(-1)) {
        status::ClientBound::PingResponse(ts) => assert_eq!(ts, -1),
        other => panic!("wrong variant decoded: {:?}", other),
    }
}

#[test]
fn login_start_round_trip() {
    let packet = login::ServerBound::LoginStart(login::LoginStart {
        name: String::from("Steve"),
        uuid: 1,
    });
    match payload_round_trip(&packet) {
        login::ServerBound::LoginStart(ls) => {
            assert_eq!(ls.name, "Steve");
            assert_eq!(ls.uuid, 1);
        }
    }
}

#[test]
fn login_server_bound_id_policy() {
    for id in [1, 2, 3] {
        let bytes: [u8; 0] = [];
        let mut state = DecoderState::new(&bytes);
        assert!(
            matches!(
                login::ServerBound::decode_packet(id, &mut state),
                Err(Error::Unsupported)
            ),
            "id {} must be unsupported",
            id
        );
    }
    for id in [4, 5, -1] {
        let bytes: [u8; 0] = [];
        let mut state = DecoderState::new(&bytes);
        assert!(
            matches!(
                login::ServerBound::decode_packet(id, &mut state),
                Err(Error::InvalidData)
            ),
            "id {} must be invalid data",
            id
        );
    }
}

#[test]
fn login_client_bound_round_trip_and_id_policy() {
    let packet = login::ClientBound::Disconnect(String::from("\"be right back\""));
    match payload_round_trip(&packet) {
        login::ClientBound::Disconnect(reason) => assert_eq!(reason, "\"be right back\""),
    }
    for id in [1, 2, 3, 4] {
        let bytes: [u8; 0] = [];
        let mut state = DecoderState::new(&bytes);
        assert!(matches!(
            login::ClientBound::decode_packet(id, &mut state),
            Err(Error::Unsupported)
        ));
    }
    let bytes: [u8; 0] = [];
    let mut state = DecoderState::new(&bytes);
    assert!(matches!(
        login::ClientBound::decode_packet(5, &mut state),
        Err(Error::InvalidData)
    ));
}

#[test]
fn packet_numbers() {
    assert_eq!(
        HandshakePacket {
            version: 0,
            address: String::new(),
            port: 0,
            next_state: NextState::Status,
        }
        .packet_number(),
        0
    );
    assert_eq!(status::ServerBound::StatusRequest.packet_number(), 0);
    assert_eq!(status::ServerBound::PingRequest(0).packet_number(), 1);
    assert_eq!(
        status::ClientBound::StatusResponse { json_response: String::new() }.packet_number(),
        0
    );
    assert_eq!(status::ClientBound::PingResponse(0).packet_number(), 1);
    assert_eq!(
        login::ServerBound::LoginStart(login::LoginStart { name: String::new(), uuid: 0 })
            .packet_number(),
        0
    );
    assert_eq!(login::ClientBound::Disconnect(String::new()).packet_number(), 0);
}
