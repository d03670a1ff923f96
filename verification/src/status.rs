//! The status (server-list ping) phase packets.
use vstd::prelude::*;
use vstd::string::StringExecFns;
use vstd::string::StringSliceAdditionalSpecFns;

use crate::codec::{
    be_bytes, i64_of_u64, lemma_be_round_trip, lemma_be_val_bound, lemma_string_round_trip,
    lemma_varint_size, parse_be, parse_string, read_be, read_string, string_bytes, string_size,
    u64_of_i64, write_be, write_string, DecoderState,
};
use crate::error::Error;
use crate::protocol::Protocol;

verus! {

/// Server-bound status packets: a status request (id 0, empty) or a ping
/// (id 1, a big-endian timestamp).
#[derive(Debug, Clone, Copy, PartialEq, Eq, Structural)]
pub enum ServerBound {
    StatusRequest,
    PingRequest(i64),
}

impl View for ServerBound {
    type V = ServerBound;

    open spec fn view(&self) -> ServerBound {
        *self
    }
}

impl Protocol for ServerBound {
    open spec fn wf_of(v: ServerBound) -> bool {
        true
    }

    open spec fn id_of(v: ServerBound) -> int {
        match v {
            ServerBound::StatusRequest => 0,
            ServerBound::PingRequest(_) => 1,
        }
    }

    open spec fn payload_of(v: ServerBound) -> Seq<u8> {
        match v {
            ServerBound::StatusRequest => Seq::empty(),
            ServerBound::PingRequest(ts) => be_bytes(u64_of_i64(ts) as int, 8),
        }
    }

    open spec fn parse_spec(number: int, s: Seq<u8>) -> Result<(ServerBound, nat), Error> {
        if number == 0 {
            Ok((ServerBound::StatusRequest, 0))
        } else if number == 1 {
            match parse_be(s, 8) {
                Ok((v, k)) => Ok((ServerBound::PingRequest(i64_of_u64(v as u64)), k)),
                Err(e) => Err(e),
            }
        } else {
            Err(Error::InvalidData)
        }
    }

    proof fn lemma_parse_consumed(number: int, s: Seq<u8>) {
    }

    proof fn lemma_round_trip(v: ServerBound) {
        match v {
            ServerBound::StatusRequest => {},
            ServerBound::PingRequest(ts) => {
                crate::codec::lemma_pow256_values();
                crate::codec::lemma_be_bytes_len(u64_of_i64(ts) as int, 8);
                lemma_be_round_trip(u64_of_i64(ts) as int, 8);
                assert(be_bytes(u64_of_i64(ts) as int, 8).take(8) =~= be_bytes(
                    u64_of_i64(ts) as int,
                    8,
                ));
            },
        }
    }

    fn decode_packet(number: i32, src: &mut DecoderState<'_>) -> (r: Result<Self, Error>) {
        if number == 0 {
            Ok(ServerBound::StatusRequest)
        } else if number == 1 {
            let ghost win0 = old(src).window();
            let wide = match read_be(src, 8) {
                Ok(v) => v,
                Err(e) => {
                    return Err(e);
                },
            };
            proof {
                lemma_be_val_bound(win0.take(8));
                crate::codec::lemma_pow256_values();
            }
            Ok(ServerBound::PingRequest(crate::codec::i64_from_u64(wide as u64)))
        } else {
            Err(Error::InvalidData)
        }
    }

    fn packet_number(&self) -> (r: i32) {
        match self {
            ServerBound::StatusRequest => 0,
            ServerBound::PingRequest(_) => 1,
        }
    }

    fn encoded_size(&self) -> (r: usize) {
        match self {
            ServerBound::StatusRequest => 0,
            ServerBound::PingRequest(ts) => {
                proof {
                    crate::codec::lemma_be_bytes_len(u64_of_i64(*ts) as int, 8);
                }
                8
            },
        }
    }

    fn encode_packet(&self, dest: &mut Vec<u8>) {
        match self {
            ServerBound::StatusRequest => {
                proof {
                    assert(dest@ =~= old(dest)@ + Self::payload_of(self@));
                }
            },
            ServerBound::PingRequest(ts) => {
                write_be(crate::codec::u64_from_i64(*ts) as u128, 8, dest);
            },
        }
    }
}

/// The mathematical model of a client-bound status packet.
pub enum ClientBoundView {
    StatusResponse { json_response: Seq<char> },
    PingResponse(i64),
}

/// Client-bound status packets: the status JSON document (id 0) or the
/// ping echo (id 1).
#[derive(Debug)]
pub enum ClientBound {
    StatusResponse { json_response: String },
    PingResponse(i64),
}

impl View for ClientBound {
    type V = ClientBoundView;

    open spec fn view(&self) -> ClientBoundView {
        match self {
            ClientBound::StatusResponse { json_response } => ClientBoundView::StatusResponse {
                json_response: json_response@,
            },
            ClientBound::PingResponse(ts) => ClientBoundView::PingResponse(*ts),
        }
    }
}

impl Protocol for ClientBound {
    open spec fn wf_of(v: ClientBoundView) -> bool {
        match v {
            ClientBoundView::StatusResponse { json_response } => vstd::utf8::encode_utf8(
                json_response,
            ).len() < 0x7fff_ffff,
            ClientBoundView::PingResponse(_) => true,
        }
    }

    open spec fn id_of(v: ClientBoundView) -> int {
        match v {
            ClientBoundView::StatusResponse { .. } => 0,
            ClientBoundView::PingResponse(_) => 1,
        }
    }

    open spec fn payload_of(v: ClientBoundView) -> Seq<u8> {
        match v {
            ClientBoundView::StatusResponse { json_response } => string_bytes(json_response),
            ClientBoundView::PingResponse(ts) => be_bytes(u64_of_i64(ts) as int, 8),
        }
    }

    open spec fn parse_spec(number: int, s: Seq<u8>) -> Result<(ClientBoundView, nat), Error> {
        if number == 0 {
            match parse_string(s) {
                Ok((chars, k)) => Ok(
                    (ClientBoundView::StatusResponse { json_response: chars }, k),
                ),
                Err(e) => Err(e),
            }
        } else if number == 1 {
            match parse_be(s, 8) {
                Ok((v, k)) => Ok((ClientBoundView::PingResponse(i64_of_u64(v as u64)), k)),
                Err(e) => Err(e),
            }
        } else {
            Err(Error::InvalidData)
        }
    }

    proof fn lemma_parse_consumed(number: int, s: Seq<u8>) {
        if number == 0 {
            crate::codec::lemma_parse_string_consumed(s);
        }
    }

    proof fn lemma_round_trip(v: ClientBoundView) {
        match v {
            ClientBoundView::StatusResponse { json_response } => {
                lemma_string_round_trip(json_response, Seq::<u8>::empty());
                assert(string_bytes(json_response) + Seq::<u8>::empty() =~= string_bytes(
                    json_response,
                ));
            },
            ClientBoundView::PingResponse(ts) => {
                crate::codec::lemma_pow256_values();
                crate::codec::lemma_be_bytes_len(u64_of_i64(ts) as int, 8);
                lemma_be_round_trip(u64_of_i64(ts) as int, 8);
                assert(be_bytes(u64_of_i64(ts) as int, 8).take(8) =~= be_bytes(
                    u64_of_i64(ts) as int,
                    8,
                ));
            },
        }
    }

    fn decode_packet(number: i32, src: &mut DecoderState<'_>) -> (r: Result<Self, Error>) {
        if number == 0 {
            let json = match read_string(src) {
                Ok(st) => st,
                Err(e) => {
                    return Err(e);
                },
            };
            Ok(ClientBound::StatusResponse { json_response: json.to_owned() })
        } else if number == 1 {
            let ghost win0 = old(src).window();
            let wide = match read_be(src, 8) {
                Ok(v) => v,
                Err(e) => {
                    return Err(e);
                },
            };
            proof {
                lemma_be_val_bound(win0.take(8));
                crate::codec::lemma_pow256_values();
            }
            Ok(ClientBound::PingResponse(crate::codec::i64_from_u64(wide as u64)))
        } else {
            Err(Error::InvalidData)
        }
    }

    fn packet_number(&self) -> (r: i32) {
        match self {
            ClientBound::StatusResponse { .. } => 0,
            ClientBound::PingResponse(_) => 1,
        }
    }

    fn encoded_size(&self) -> (r: usize) {
        match self {
            ClientBound::StatusResponse { json_response } => string_size(json_response.as_str()),
            ClientBound::PingResponse(ts) => {
                proof {
                    crate::codec::lemma_be_bytes_len(u64_of_i64(*ts) as int, 8);
                }
                8
            },
        }
    }

    fn encode_packet(&self, dest: &mut Vec<u8>) {
        match self {
            ClientBound::StatusResponse { json_response } => {
                write_string(json_response.as_str(), dest);
            },
            ClientBound::PingResponse(ts) => {
                write_be(crate::codec::u64_from_i64(*ts) as u128, 8, dest);
            },
        }
    }
}

} // verus!
