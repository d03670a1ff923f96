//! The interface every typed packet implements: an abstract view, an exact
//! payload encoding, and an exact parse function that the executable
//! decoder and encoder are proved against.
use vstd::prelude::*;

use crate::codec::DecoderState;
use crate::error::Error;

verus! {

/// A typed packet of one protocol phase and direction.
///
/// `Self::V` (the view) is the mathematical model of the packet; all
/// contracts are stated over it. `payload_of` gives the exact payload bytes
/// (everything after the packet-id VarInt), and `parse_spec` gives the
/// exact outcome of decoding a given packet id and payload window.
pub trait Protocol: View + Sized {
    /// The packet can be encoded: its strings fit in an i32 byte length.
    spec fn wf_of(v: Self::V) -> bool;

    /// The packet id on the wire.
    spec fn id_of(v: Self::V) -> int;

    /// The exact payload bytes of the packet.
    spec fn payload_of(v: Self::V) -> Seq<u8>;

    /// What decoding packet id `number` against window `s` returns: the
    /// decoded packet and the bytes consumed, or the exact error.
    spec fn parse_spec(number: int, s: Seq<u8>) -> Result<(Self::V, nat), Error>;

    /// A successful parse never consumes more than the window holds.
    proof fn lemma_parse_consumed(number: int, s: Seq<u8>)
        ensures
            Self::parse_spec(number, s) matches Ok((v, k)) ==> k <= s.len(),
    ;

    /// Round trip: parsing an encoded packet yields the packet back and
    /// consumes the whole payload.
    proof fn lemma_round_trip(v: Self::V)
        requires
            Self::wf_of(v),
        ensures
            Self::parse_spec(Self::id_of(v), Self::payload_of(v)) == Ok::<(Self::V, nat), Error>(
                (v, Self::payload_of(v).len()),
            ),
    ;

    /// Decodes the payload of a packet with id `number` from the window.
    fn decode_packet(number: i32, src: &mut DecoderState<'_>) -> (r: Result<Self, Error>)
        requires
            old(src).wf(),
        ensures
            final(src).wf(),
            final(src).buffer@ == old(src).buffer@,
            match Self::parse_spec(number as int, old(src).window()) {
                Ok((v, k)) => r matches Ok(q) && q@ == v && final(src).offset == old(src).offset
                    + k && final(src).window() == old(src).window().skip(k as int),
                Err(e) => r == Err::<Self, Error>(e),
            },
    ;

    /// The packet id of this packet.
    fn packet_number(&self) -> (r: i32)
        ensures
            r as int == Self::id_of(self@),
    ;

    /// The exact byte count of the payload `encode_packet` writes.
    fn encoded_size(&self) -> (r: usize)
        requires
            Self::wf_of(self@),
        ensures
            r == Self::payload_of(self@).len(),
    ;

    /// Appends the payload bytes of this packet.
    fn encode_packet(&self, dest: &mut Vec<u8>)
        requires
            Self::wf_of(self@),
        ensures
            final(dest)@ == old(dest)@ + Self::payload_of(self@),
    ;
}

} // verus!
