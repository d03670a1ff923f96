use lazyproxy::connection::{
    starting_reason, status_json, Connection, ConnectionPhase, LoginSession, StatusSession,
};
use lazyproxy::error::Error;
use lazyproxy::framer::{PacketDecoder, PacketEncoder};
use lazyproxy::handshake::{HandshakePacket, NextState};
use lazyproxy::login;
use lazyproxy::status;
use lazyproxy::supervisor::Supervisor;

const CANONICAL_JSON: &str = "{\"version\":{\"name\":\"1.21.7\",\"protocol\":772},\"players\":{\"max\":0,\"online\":0},\"description\":\"Not a Minecraft server\",\"enforceSecureProfile\":false}";

fn handshake_frame(next_state: NextState) -> Vec<u8> {
    let encoder: PacketEncoder<HandshakePacket> = PacketEncoder::new();
    let mut frame: Vec<u8> = Vec::new();
    encoder.encode(
        &HandshakePacket {
            version: 772,
            address: String::from("example"),
            port: 25565,
            next_state,
        },
        &mut frame,
    );
    frame
}

#[test]
fn status_path_backend_down() {
    // The client's handshake arrives and the backend dial fails.
    let mut buffer = handshake_frame(NextState::Status);
    let mut decoder: PacketDecoder<HandshakePacket> = PacketDecoder::new();
    let handshake = decoder.decode(&mut buffer).unwrap().unwrap();

    let mut connection = Connection::new();
    connection.on_handshake(handshake.data.next_state, false);
    assert_eq!(connection.phase, ConnectionPhase::LocalStatus);

    // The idle supervisor spawns the start command.
    let mut supervisor = Supervisor::new();
    assert!(supervisor.should_spawn(true));
    supervisor.record_spawn(true);

    // One status request is answered with the canonical JSON.
    let mut session = StatusSession::new();
    match session.handle(&status::ServerBound::StatusRequest) {
        Some(status::ClientBound::StatusResponse { json_response }) => {
            assert_eq!(json_response, CANONICAL_JSON);
        }
        other => panic!("expected a status response, got {:?}", other),
    }
    assert!(!session.done);

    // The ping is echoed back and the loop ends.
    match session.handle(&status::ServerBound::PingRequest(0x0123456789abcdef_i64)) {
        Some(status::ClientBound::PingResponse(ts)) => assert_eq!(ts, 0x0123456789abcdef),
        other => panic!("expected a ping response, got {:?}", other),
    }
    assert!(session.done);

    connection.close();
    assert_eq!(connection.phase, ConnectionPhase::Closed);
}

#[test]
fn second_status_request_ends_the_loop_silently() {
    let mut session = StatusSession::new();
    assert!(session.handle(&status::ServerBound::StatusRequest).is_some());
    let reply = session.handle(&status::ServerBound::StatusRequest);
    assert!(reply.is_none());
    assert!(session.done);
}

#[test]
fn login_path_backend_down() {
    let mut buffer = handshake_frame(NextState::Login);
    let mut decoder: PacketDecoder<HandshakePacket> = PacketDecoder::new();
    let handshake = decoder.decode(&mut buffer).unwrap().unwrap();

    let mut connection = Connection::new();
    connection.on_handshake(handshake.data.next_state, false);
    assert_eq!(connection.phase, ConnectionPhase::LocalLogin);

    let mut supervisor = Supervisor::new();
    assert!(supervisor.should_spawn(true));
    supervisor.record_spawn(true);

    let mut session = LoginSession::new();
    let reply = session.handle(&login::ServerBound::LoginStart(login::LoginStart {
        name: String::from("Steve"),
        uuid: 1,
    }));
    match reply {
        login::ClientBound::Disconnect(reason) => {
            assert_eq!(reason, "\"Server is starting, please try again later\"");
        }
    }
    assert!(session.done);
}

#[test]
fn transfer_is_handled_like_login() {
    let mut connection = Connection::new();
    connection.on_handshake(NextState::Transfer, false);
    assert_eq!(connection.phase, ConnectionPhase::LocalLogin);
}

#[test]
fn forwarding_path_replays_exact_handshake_bytes() {
    let frame = handshake_frame(NextState::Login);
    let mut buffer = frame.clone();
    let mut decoder: PacketDecoder<HandshakePacket> = PacketDecoder::new();
    let handshake = decoder.decode(&mut buffer).unwrap().unwrap();

    let mut connection = Connection::new();
    connection.on_handshake(handshake.data.next_state, true);
    assert_eq!(connection.phase, ConnectionPhase::Forwarding);

    // What the backend receives first is the frame exactly as it came in.
    assert_eq!(handshake.buffer(), &frame);
}

#[test]
fn single_flight_ten_simultaneous_requests_spawn_once() {
    let mut supervisor = Supervisor::new();
    let mut spawned = 0usize;
    let mut declined = 0usize;
    for _ in 0..10 {
        // Under the lock: the child spawned by the first request is still
        // running when the other nine requests are serialized after it.
        let child_finished = false;
        if supervisor.should_spawn(child_finished) {
            supervisor.record_spawn(true);
            spawned += 1;
        } else {
            declined += 1;
        }
    }
    assert_eq!(spawned, 1, "exactly one child may be spawned");
    assert_eq!(declined, 9);
}

#[test]
fn restart_after_child_exit() {
    let mut supervisor = Supervisor::new();
    assert!(supervisor.should_spawn(true));
    supervisor.record_spawn(true);
    assert!(!supervisor.should_spawn(false), "no second spawn while running");
    // The child exits; a later failing connection asks again.
    assert!(supervisor.should_spawn(true), "a finished child is replaced");
    supervisor.record_spawn(true);
}

#[test]
fn failed_spawn_leaves_the_supervisor_idle() {
    let mut supervisor = Supervisor::new();
    assert!(supervisor.should_spawn(true));
    supervisor.record_spawn(false);
    assert!(supervisor.should_spawn(false), "a failed spawn may be retried");
}

#[test]
fn malformed_handshake_closes_without_response() {
    // A handshake frame whose next-state field is 42.
    let mut frame = handshake_frame(NextState::Status);
    *frame.last_mut().unwrap() = 42;
    let mut decoder: PacketDecoder<HandshakePacket> = PacketDecoder::new();
    assert_eq!(decoder.decode(&mut frame).unwrap_err(), Error::InvalidData);
    // The connection never leaves the handshake phase and is closed; the
    // supervisor is never consulted.
    let mut connection = Connection::new();
    assert_eq!(connection.phase, ConnectionPhase::AwaitingHandshake);
    connection.close();
    assert_eq!(connection.phase, ConnectionPhase::Closed);
}

#[test]
fn status_json_is_the_canonical_document() {
    assert_eq!(status_json(), CANONICAL_JSON);
    assert_eq!(
        starting_reason(),
        "\"Server is starting, please try again later\""
    );
}
