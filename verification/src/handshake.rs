//! The handshake packet: the single mandatory first packet of a
//! connection, which selects the following protocol phase.
use vstd::prelude::*;
use vstd::string::StringSliceAdditionalSpecFns;
use vstd::string::StringExecFns;

use crate::codec::{
    be_bytes, be_val, i32_of_u32, lemma_be_round_trip, lemma_be_val_bound, lemma_string_round_trip,
    lemma_varint_round_trip, lemma_varint_size, parse_be, parse_string, parse_varint, read_be,
    read_string, read_var_int, string_bytes, string_size, u32_of_i32, var_int_size, varint_bytes,
    write_be, write_string, write_var_int, DecoderState,
};
use crate::error::Error;
use crate::protocol::Protocol;

verus! {

/// The protocol phase the client asks to enter after the handshake.
#[derive(Debug, Clone, Copy, PartialEq, Eq, Structural)]
pub enum NextState {
    Status,
    Login,
    Transfer,
}

impl NextState {
    /// The wire code of this next-state value.
    pub open spec fn code_spec(&self) -> u32 {
        match self {
            NextState::Status => 1,
            NextState::Login => 2,
            NextState::Transfer => 3,
        }
    }

    pub fn code(&self) -> (r: i32)
        ensures
            u32_of_i32(r) == self.code_spec(),
    {
        match self {
            NextState::Status => 1,
            NextState::Login => 2,
            NextState::Transfer => 3,
        }
    }

    /// A short name, for logs.
    pub fn name(&self) -> (r: &'static str)
        ensures
            r@ == self.name_spec(),
    {
        match self {
            NextState::Status => "status",
            NextState::Login => "login",
            NextState::Transfer => "transfer",
        }
    }

    pub open spec fn name_spec(&self) -> Seq<char> {
        match self {
            NextState::Status => "status"@,
            NextState::Login => "login"@,
            NextState::Transfer => "transfer"@,
        }
    }
}

/// The mathematical model of a handshake packet.
pub struct HandshakeView {
    pub version: i32,
    pub address: Seq<char>,
    pub port: u16,
    pub next_state: NextState,
}

/// The handshake packet (id 0, server-bound): protocol version, server
/// address, server port, and the requested next state.
#[derive(Debug)]
pub struct HandshakePacket {
    pub version: i32,
    pub address: String,
    pub port: u16,
    pub next_state: NextState,
}

impl View for HandshakePacket {
    type V = HandshakeView;

    open spec fn view(&self) -> HandshakeView {
        HandshakeView {
            version: self.version,
            address: self.address@,
            port: self.port,
            next_state: self.next_state,
        }
    }
}

impl Protocol for HandshakePacket {
    open spec fn wf_of(v: HandshakeView) -> bool {
        vstd::utf8::encode_utf8(v.address).len() < 0x7fff_ffff
    }

    open spec fn id_of(v: HandshakeView) -> int {
        0
    }

    open spec fn payload_of(v: HandshakeView) -> Seq<u8> {
        varint_bytes(u32_of_i32(v.version)) + string_bytes(v.address) + be_bytes(v.port as int, 2)
            + varint_bytes(v.next_state.code_spec())
    }

    open spec fn parse_spec(number: int, s: Seq<u8>) -> Result<(HandshakeView, nat), Error> {
        if number != 0 {
            Err(Error::InvalidData)
        } else {
            match parse_varint(s) {
                Ok((vu, k1)) => match parse_string(s.skip(k1 as int)) {
                    Ok((addr, k2)) => match parse_be(s.skip((k1 + k2) as int), 2) {
                        Ok((pv, k3)) => match parse_varint(s.skip((k1 + k2 + k3) as int)) {
                            Ok((ns, k4)) => if ns == 1 || ns == 2 || ns == 3 {
                                Ok(
                                    (
                                        HandshakeView {
                                            version: i32_of_u32(vu),
                                            address: addr,
                                            port: pv as u16,
                                            next_state: if ns == 1 {
                                                NextState::Status
                                            } else if ns == 2 {
                                                NextState::Login
                                            } else {
                                                NextState::Transfer
                                            },
                                        },
                                        (k1 + k2 + k3 + k4) as nat,
                                    ),
                                )
                            } else {
                                Err(Error::InvalidData)
                            },
                            Err(e) => Err(e),
                        },
                        Err(e) => Err(e),
                    },
                    Err(e) => Err(e),
                },
                Err(e) => Err(e),
            }
        }
    }

    proof fn lemma_parse_consumed(number: int, s: Seq<u8>) {
        if number == 0 {
            crate::codec::lemma_parse_varint_consumed(s);
            if parse_varint(s) is Ok {
                let k1 = parse_varint(s)->Ok_0.1 as int;
                crate::codec::lemma_parse_string_consumed(s.skip(k1));
                if parse_string(s.skip(k1)) is Ok {
                    let k2 = parse_string(s.skip(k1))->Ok_0.1 as int;
                    if parse_be(s.skip(k1 + k2), 2) is Ok {
                        crate::codec::lemma_parse_varint_consumed(s.skip(k1 + k2 + 2));
                    }
                }
            }
        }
    }

    proof fn lemma_round_trip(v: HandshakeView) {
        let a = varint_bytes(u32_of_i32(v.version));
        let b = string_bytes(v.address);
        let c = be_bytes(v.port as int, 2);
        let d = varint_bytes(v.next_state.code_spec());
        let s = Self::payload_of(v);
        crate::codec::lemma_pow256_values();
        lemma_be_round_trip(v.port as int, 2);
        assert(s =~= a + (b + (c + d)));
        lemma_varint_round_trip(u32_of_i32(v.version), b + (c + d));
        assert(s.skip(a.len() as int) =~= b + (c + d));
        lemma_string_round_trip(v.address, c + d);
        assert(s.skip(a.len() as int).skip(b.len() as int) =~= c + d);
        assert(s.skip((a.len() + b.len()) as int) =~= c + d);
        assert((c + d).take(2) =~= c);
        assert(s.skip((a.len() + b.len() + 2) as int) =~= d + Seq::<u8>::empty());
        lemma_varint_round_trip(v.next_state.code_spec(), Seq::<u8>::empty());
        assert(i32_of_u32(u32_of_i32(v.version)) == v.version);
    }

    fn decode_packet(number: i32, src: &mut DecoderState<'_>) -> (r: Result<Self, Error>) {
        if number != 0 {
            return Err(Error::InvalidData);
        }
        let ghost win0 = old(src).window();
        let version = match read_var_int(src) {
            Ok(value) => value,
            Err(e) => {
                return Err(e);
            },
        };
        let ghost win1 = src.window();
        let ghost k1 = (win0.len() - win1.len()) as int;
        let address = match read_string(src) {
            Ok(a) => a,
            Err(e) => {
                return Err(e);
            },
        };
        let ghost win2 = src.window();
        let ghost k2 = (win1.len() - win2.len()) as int;
        proof {
            assert(win0.skip(k1).skip(k2) =~= win0.skip(k1 + k2));
        }
        let port_wide = match read_be(src, 2) {
            Ok(p) => p,
            Err(e) => {
                return Err(e);
            },
        };
        proof {
            lemma_be_val_bound(win2.take(2));
            crate::codec::lemma_pow256_values();
        }
        let port = port_wide as u16;
        let ghost win3 = src.window();
        proof {
            assert(win0.skip(k1 + k2).skip(2) =~= win0.skip(k1 + k2 + 2));
        }
        let ns = match read_var_int(src) {
            Ok(n) => n,
            Err(e) => {
                return Err(e);
            },
        };
        let next_state = if ns == 1 {
            NextState::Status
        } else if ns == 2 {
            NextState::Login
        } else if ns == 3 {
            NextState::Transfer
        } else {
            return Err(Error::InvalidData);
        };
        proof {
            let k4 = parse_varint(win0.skip(k1 + k2 + 2))->Ok_0.1 as int;
            assert(src.window() == win0.skip(k1 + k2 + 2).skip(k4));
            assert(win0.skip(k1 + k2 + 2).skip(k4) =~= win0.skip(k1 + k2 + 2 + k4));
        }
        Ok(
            HandshakePacket {
                version,
                address: address.to_owned(),
                port,
                next_state,
            },
        )
    }

    fn packet_number(&self) -> (r: i32) {
        0
    }

    fn encoded_size(&self) -> (r: usize) {
        let vs = var_int_size(self.version);
        let ss = string_size(self.address.as_str());
        let ns = self.next_state.code();
        let nss = var_int_size(ns);
        proof {
            crate::codec::lemma_be_bytes_len(self@.port as int, 2);
            lemma_varint_size(u32_of_i32(self.version));
            lemma_varint_size(self@.next_state.code_spec());
            lemma_varint_size(vstd::utf8::encode_utf8(self@.address).len() as u32);
        }
        vs + ss + 2 + nss
    }

    fn encode_packet(&self, dest: &mut Vec<u8>) {
        write_var_int(self.version, dest);
        write_string(self.address.as_str(), dest);
        write_be(self.port as u128, 2, dest);
        write_var_int(self.next_state.code(), dest);
        proof {
            assert(dest@ =~= old(dest)@ + Self::payload_of(self@));
        }
    }
}

} // verus!
