//! The login phase packets. Only the login start is decoded; the packet
//! ids the protocol reserves for later login steps are recognized but
//! unsupported, and anything else is invalid data.
use vstd::prelude::*;
use vstd::string::StringExecFns;
use vstd::string::StringSliceAdditionalSpecFns;

use crate::codec::{
    be_bytes, lemma_be_round_trip, lemma_be_val_bound, lemma_string_round_trip, parse_be,
    parse_string, read_be, read_string, string_bytes, string_size, write_be, write_string,
    DecoderState,
};
use crate::error::Error;
use crate::protocol::Protocol;

verus! {

/// The mathematical model of a login start packet.
pub struct LoginStartView {
    pub name: Seq<char>,
    pub uuid: u128,
}

/// The first packet of the login phase: the player name and the player's
/// 128-bit UUID (big-endian on the wire).
#[derive(Debug)]
pub struct LoginStart {
    pub name: String,
    pub uuid: u128,
}

impl View for LoginStart {
    type V = LoginStartView;

    open spec fn view(&self) -> LoginStartView {
        LoginStartView { name: self.name@, uuid: self.uuid }
    }
}

/// The mathematical model of a server-bound login packet.
pub enum ServerBoundView {
    LoginStart(LoginStartView),
}

/// Server-bound login packets: only the login start (id 0) is decoded;
/// ids 1 to 3 are valid but unsupported.
#[derive(Debug)]
pub enum ServerBound {
    LoginStart(LoginStart),
}

impl View for ServerBound {
    type V = ServerBoundView;

    open spec fn view(&self) -> ServerBoundView {
        match self {
            ServerBound::LoginStart(ls) => ServerBoundView::LoginStart(ls@),
        }
    }
}

impl Protocol for ServerBound {
    open spec fn wf_of(v: ServerBoundView) -> bool {
        match v {
            ServerBoundView::LoginStart(ls) => vstd::utf8::encode_utf8(ls.name).len()
                < 0x7fff_ffff,
        }
    }

    open spec fn id_of(v: ServerBoundView) -> int {
        0
    }

    open spec fn payload_of(v: ServerBoundView) -> Seq<u8> {
        match v {
            ServerBoundView::LoginStart(ls) => string_bytes(ls.name) + be_bytes(
                ls.uuid as int,
                16,
            ),
        }
    }

    open spec fn parse_spec(number: int, s: Seq<u8>) -> Result<(ServerBoundView, nat), Error> {
        if number == 0 {
            match parse_string(s) {
                Ok((name, k1)) => match parse_be(s.skip(k1 as int), 16) {
                    Ok((uv, k2)) => Ok(
                        (
                            ServerBoundView::LoginStart(
                                LoginStartView { name, uuid: uv as u128 },
                            ),
                            (k1 + k2) as nat,
                        ),
                    ),
                    Err(e) => Err(e),
                },
                Err(e) => Err(e),
            }
        } else if 1 <= number < 4 {
            Err(Error::Unsupported)
        } else {
            Err(Error::InvalidData)
        }
    }

    proof fn lemma_parse_consumed(number: int, s: Seq<u8>) {
        if number == 0 {
            crate::codec::lemma_parse_string_consumed(s);
        }
    }

    proof fn lemma_round_trip(v: ServerBoundView) {
        match v {
            ServerBoundView::LoginStart(ls) => {
                let a = string_bytes(ls.name);
                let b = be_bytes(ls.uuid as int, 16);
                let s = Self::payload_of(v);
                crate::codec::lemma_pow256_values();
                crate::codec::lemma_be_bytes_len(ls.uuid as int, 16);
                lemma_be_round_trip(ls.uuid as int, 16);
                lemma_string_round_trip(ls.name, b);
                assert(s.skip(a.len() as int) =~= b);
                assert(b.take(16) =~= b);
            },
        }
    }

    fn decode_packet(number: i32, src: &mut DecoderState<'_>) -> (r: Result<Self, Error>) {
        if number == 0 {
            let ghost win0 = old(src).window();
            let name = match read_string(src) {
                Ok(st) => st,
                Err(e) => {
                    return Err(e);
                },
            };
            let ghost win1 = src.window();
            let ghost k1 = (win0.len() - win1.len()) as int;
            let wide = match read_be(src, 16) {
                Ok(v) => v,
                Err(e) => {
                    return Err(e);
                },
            };
            proof {
                assert(win0.skip(k1).skip(16) =~= win0.skip(k1 + 16));
            }
            Ok(ServerBound::LoginStart(LoginStart { name: name.to_owned(), uuid: wide }))
        } else if number >= 1 && number < 4 {
            Err(Error::Unsupported)
        } else {
            Err(Error::InvalidData)
        }
    }

    fn packet_number(&self) -> (r: i32) {
        match self {
            ServerBound::LoginStart(_) => 0,
        }
    }

    fn encoded_size(&self) -> (r: usize) {
        match self {
            ServerBound::LoginStart(ls) => {
                proof {
                    crate::codec::lemma_be_bytes_len(ls.uuid as int, 16);
                    crate::codec::lemma_varint_size(
                        vstd::utf8::encode_utf8(ls.name@).len() as u32,
                    );
                }
                string_size(ls.name.as_str()) + 16
            },
        }
    }

    fn encode_packet(&self, dest: &mut Vec<u8>) {
        match self {
            ServerBound::LoginStart(ls) => {
                write_string(ls.name.as_str(), dest);
                write_be(ls.uuid, 16, dest);
                proof {
                    assert(dest@ =~= old(dest)@ + Self::payload_of(self@));
                }
            },
        }
    }
}

/// The mathematical model of a client-bound login packet.
pub enum ClientBoundView {
    Disconnect(Seq<char>),
}

/// Client-bound login packets: only the disconnect notice (id 0, a
/// JSON-encoded reason) is handled; ids 1 to 4 are valid but unsupported.
#[derive(Debug)]
pub enum ClientBound {
    Disconnect(String),
}

impl View for ClientBound {
    type V = ClientBoundView;

    open spec fn view(&self) -> ClientBoundView {
        match self {
            ClientBound::Disconnect(reason) => ClientBoundView::Disconnect(reason@),
        }
    }
}

impl Protocol for ClientBound {
    open spec fn wf_of(v: ClientBoundView) -> bool {
        match v {
            ClientBoundView::Disconnect(reason) => vstd::utf8::encode_utf8(reason).len()
                < 0x7fff_ffff,
        }
    }

    open spec fn id_of(v: ClientBoundView) -> int {
        0
    }

    open spec fn payload_of(v: ClientBoundView) -> Seq<u8> {
        match v {
            ClientBoundView::Disconnect(reason) => string_bytes(reason),
        }
    }

    open spec fn parse_spec(number: int, s: Seq<u8>) -> Result<(ClientBoundView, nat), Error> {
        if number == 0 {
            match parse_string(s) {
                Ok((reason, k)) => Ok((ClientBoundView::Disconnect(reason), k)),
                Err(e) => Err(e),
            }
        } else if 1 <= number < 5 {
            Err(Error::Unsupported)
        } else {
            Err(Error::InvalidData)
        }
    }

    proof fn lemma_parse_consumed(number: int, s: Seq<u8>) {
        if number == 0 {
            crate::codec::lemma_parse_string_consumed(s);
        }
    }

    proof fn lemma_round_trip(v: ClientBoundView) {
        match v {
            ClientBoundView::Disconnect(reason) => {
                lemma_string_round_trip(reason, Seq::<u8>::empty());
                assert(string_bytes(reason) + Seq::<u8>::empty() =~= string_bytes(reason));
            },
        }
    }

    fn decode_packet(number: i32, src: &mut DecoderState<'_>) -> (r: Result<Self, Error>) {
        if number == 0 {
            let reason = match read_string(src) {
                Ok(st) => st,
                Err(e) => {
                    return Err(e);
                },
            };
            Ok(ClientBound::Disconnect(reason.to_owned()))
        } else if number >= 1 && number < 5 {
            Err(Error::Unsupported)
        } else {
            Err(Error::InvalidData)
        }
    }

    fn packet_number(&self) -> (r: i32) {
        match self {
            ClientBound::Disconnect(_) => 0,
        }
    }

    fn encoded_size(&self) -> (r: usize) {
        match self {
            ClientBound::Disconnect(reason) => string_size(reason.as_str()),
        }
    }

    fn encode_packet(&self, dest: &mut Vec<u8>) {
        match self {
            ClientBound::Disconnect(reason) => {
                write_string(reason.as_str(), dest);
            },
        }
    }
}

} // verus!
