//! The packet framer: length-prefix framing over an accumulating byte
//! buffer.
//!
//! On the wire a frame is `<VarInt total_length> <VarInt packet_id>
//! <payload>`, where `total_length` counts the packet-id VarInt plus the
//! payload but not itself. The decoder is re-entrant: fed the same buffer
//! prefix it returns the same answer until more bytes arrive, and it never
//! consumes anything until a whole packet is present.
use core::marker::PhantomData;

use vstd::prelude::*;

use crate::codec::{
    i32_of_u32, lemma_parse_varint_consumed, lemma_varint_prefix_eof, lemma_varint_round_trip,
    lemma_varint_size, parse_varint, u32_of_i32, var_int_size, varint_bytes, varint_size_of,
    write_var_int, DecoderState,
};
use crate::error::Error;
use crate::protocol::Protocol;

verus! {

broadcast use vstd::seq_lib::group_seq_lib_default, vstd::seq::group_seq_axioms;

/// A decoded packet together with the raw bytes of its frame, exactly as
/// they came off the wire (the forwarding path replays these bytes rather
/// than re-encoding the packet).
#[derive(Debug)]
pub struct Packet<T> {
    pub data: T,
    pub bytes: Vec<u8>,
}

impl<T> Packet<T> {
    /// The raw frame bytes this packet was decoded from.
    pub fn buffer(&self) -> (r: &Vec<u8>)
        ensures
            r == &self.bytes,
    {
        &self.bytes
    }
}

/// What feeding the decoder a buffer yields, at specification level.
pub enum FrameOutcome<V> {
    /// More bytes are needed: the length prefix itself is incomplete.
    AwaitPrefix,
    /// More bytes are needed: the declared payload length has not arrived.
    AwaitPayload(nat),
    /// The declared frame ends inside its packet-id VarInt.
    AwaitId,
    /// One decoded packet and the bytes consumed from the buffer's head.
    Frame(V, nat),
    /// A fatal protocol error.
    Fail(Error),
}

/// The exact outcome of one decoder call on buffer `s`.
pub open spec fn frame_outcome<T: Protocol>(s: Seq<u8>) -> FrameOutcome<T::V> {
    match parse_varint(s) {
        Err(Error::UnexpectedEof) => FrameOutcome::AwaitPrefix,
        Err(e) => FrameOutcome::Fail(e),
        Ok((lv, k)) => if lv >= 0x8000_0000 {
            FrameOutcome::Fail(Error::InvalidData)
        } else if s.len() < k + lv {
            FrameOutcome::AwaitPayload(lv as nat)
        } else {
            let w = s.subrange(k as int, (k + lv) as int);
            match parse_varint(w) {
                Err(Error::UnexpectedEof) => FrameOutcome::AwaitId,
                Err(e) => FrameOutcome::Fail(e),
                Ok((id, k2)) => match T::parse_spec(i32_of_u32(id) as int, w.skip(k2 as int)) {
                    Ok((v, n)) => FrameOutcome::Frame(v, (k + k2 + n) as nat),
                    Err(e) => FrameOutcome::Fail(e),
                },
            }
        },
    }
}

/// A streaming decoder for one direction of one connection. `needed` is
/// the hint left by a short read: until the buffer holds at least that
/// many bytes there is no point in parsing again.
#[derive(Debug)]
pub struct PacketDecoder<T> {
    pub needed: Option<usize>,
    pub _phantom: PhantomData<T>,
}

impl<T: Protocol> PacketDecoder<T> {
    pub fn new() -> (r: PacketDecoder<T>)
        ensures
            r.needed is None,
    {
        PacketDecoder { needed: None, _phantom: PhantomData }
    }

    /// Decodes one packet from the head of `src`, or asks for more bytes.
    ///
    /// Nothing is consumed from `src` unless a whole packet is decoded, in
    /// which case the frame's bytes move into the returned `Packet` and
    /// `src` keeps the rest.
    pub fn decode(&mut self, src: &mut Vec<u8>) -> (r: Result<Option<Packet<T>>, Error>)
        ensures
            ({
                let gated = old(self).needed matches Some(n) && old(src)@.len() < n;
                if gated {
                    &&& r matches Ok(ro) && ro is None
                    &&& final(src)@ == old(src)@
                    &&& *final(self) == *old(self)
                } else {
                    match frame_outcome::<T>(old(src)@) {
                        FrameOutcome::AwaitPrefix => {
                            &&& r matches Ok(ro) && ro is None
                            &&& final(src)@ == old(src)@
                            &&& final(self).needed is None
                        },
                        FrameOutcome::AwaitPayload(lv) => {
                            &&& r matches Ok(ro) && ro is None
                            &&& final(src)@ == old(src)@
                            &&& final(self).needed matches Some(n) && n == lv
                        },
                        FrameOutcome::AwaitId => {
                            &&& r matches Ok(ro) && ro is None
                            &&& final(src)@ == old(src)@
                            &&& final(self).needed == old(self).needed
                        },
                        FrameOutcome::Frame(v, c) => {
                            &&& r matches Ok(ro) && ro matches Some(p) && p.data@ == v
                                && p.bytes@ == old(src)@.take(c as int)
                            &&& final(src)@ == old(src)@.skip(c as int)
                            &&& final(self).needed is None
                        },
                        FrameOutcome::Fail(e) => {
                            &&& r == Err::<Option<Packet<T>>, Error>(e)
                            &&& final(src)@ == old(src)@
                            &&& final(self).needed == old(self).needed
                        },
                    }
                }
            }),
    {
        if let Some(n) = self.needed {
            if src.len() < n {
                return Ok(None);
            }
        }
        let ghost s0 = src@;
        let mut state = DecoderState::new(src.as_slice());
        let raw_len = match crate::codec::read_var_int(&mut state) {
            Ok(l) => l,
            Err(e) => {
                match e {
                    Error::UnexpectedEof => {
                        self.needed = None;
                        return Ok(None);
                    },
                    _ => {
                        return Err(e);
                    },
                }
            },
        };
        if raw_len < 0 {
            return Err(Error::InvalidData);
        }
        let len = raw_len as usize;
        proof {
            lemma_parse_varint_consumed(s0);
        }
        if len > src.len() - state.offset {
            self.needed = Some(len);
            return Ok(None);
        }
        let ghost k = state.offset as int;
        state.narrow(len);
        proof {
            assert(state.window() =~= s0.subrange(k, k + len));
        }
        let ghost w = state.window();
        let kind = match crate::codec::read_var_int(&mut state) {
            Ok(kk) => kk,
            Err(e) => {
                match e {
                    Error::UnexpectedEof => {
                        return Ok(None);
                    },
                    _ => {
                        return Err(e);
                    },
                }
            },
        };
        let ghost k2 = (w.len() - state.window().len()) as int;
        let packet = match T::decode_packet(kind, &mut state) {
            Ok(p) => p,
            Err(e) => {
                return Err(e);
            },
        };
        let consumed = state.offset;
        proof {
            lemma_parse_varint_consumed(w);
            T::lemma_parse_consumed(kind as int, w.skip(k2));
            assert(consumed == k + k2 + T::parse_spec(kind as int, w.skip(k2))->Ok_0.1);
            assert(consumed <= k + len);
        }
        let head = vstd::slice::slice_to_vec(
            vstd::slice::slice_subrange(src.as_slice(), 0, consumed),
        );
        let tail = vstd::slice::slice_to_vec(
            vstd::slice::slice_subrange(src.as_slice(), consumed, src.len()),
        );
        *src = tail;
        self.needed = None;
        proof {
            assert(head@ =~= s0.take(consumed as int));
            assert(src@ =~= s0.skip(consumed as int));
        }
        Ok(Some(Packet { data: packet, bytes: head }))
    }
}

/// The full wire bytes of one frame of packet `v`: the total length, the
/// packet id, then the payload.
pub open spec fn frame_bytes<T: Protocol>(v: T::V) -> Seq<u8> {
    let payload = T::payload_of(v);
    let idb = varint_bytes(u32_of_i32(T::id_of(v) as i32));
    varint_bytes((payload.len() + idb.len()) as u32) + idb + payload
}

/// A streaming encoder for one direction of one connection.
#[derive(Debug)]
pub struct PacketEncoder<T> {
    pub _phantom: PhantomData<T>,
}

impl<T: Protocol> PacketEncoder<T> {
    pub fn new() -> (r: PacketEncoder<T>) {
        PacketEncoder { _phantom: PhantomData }
    }

    /// Appends one whole frame of `item` to `dst`: the pre-computed total
    /// length, the packet id, then the payload, whose written length is
    /// proved (not merely checked) to match the pre-computed size.
    pub fn encode(&self, item: &T, dst: &mut Vec<u8>)
        requires
            T::wf_of(item@),
            T::payload_of(item@).len() + varint_size_of(u32_of_i32(T::id_of(item@) as i32))
                < 0x7fff_ffff,
            -0x8000_0000 <= T::id_of(item@) < 0x8000_0000,
        ensures
            final(dst)@ == old(dst)@ + frame_bytes::<T>(item@),
    {
        let id = item.packet_number();
        let size = item.encoded_size();
        let id_size = var_int_size(id);
        proof {
            lemma_varint_size(u32_of_i32(id));
        }
        let total_size = size + id_size;
        write_var_int(total_size as i32, dst);
        write_var_int(id, dst);
        item.encode_packet(dst);
        proof {
            assert(dst@ =~= old(dst)@ + frame_bytes::<T>(item@));
        }
    }
}

/// Round trip through the framer: a whole encoded frame decodes to the
/// packet it was made from and consumes exactly the frame.
pub proof fn lemma_frame_complete<T: Protocol>(v: T::V)
    requires
        T::wf_of(v),
        0 <= T::id_of(v) < 0x80,
        T::payload_of(v).len() + 1 < 0x7fff_ffff,
    ensures
        frame_outcome::<T>(frame_bytes::<T>(v)) == FrameOutcome::Frame(
            v,
            frame_bytes::<T>(v).len(),
        ),
{
    let payload = T::payload_of(v);
    let id = T::id_of(v);
    let idb = varint_bytes(u32_of_i32(id as i32));
    lemma_varint_size(u32_of_i32(id as i32));
    let total = (payload.len() + idb.len()) as u32;
    let enc = varint_bytes(total);
    let s = frame_bytes::<T>(v);
    assert(s =~= enc + (idb + payload));
    lemma_varint_round_trip(total, idb + payload);
    assert(s.len() == enc.len() + total);
    assert(s.subrange(enc.len() as int, enc.len() + total) =~= idb + payload);
    let w = s.subrange(enc.len() as int, enc.len() + total);
    lemma_varint_round_trip(u32_of_i32(id as i32), payload);
    assert(w =~= idb + payload);
    assert(i32_of_u32(u32_of_i32(id as i32)) == id as i32);
    assert(w.skip(idb.len() as int) =~= payload);
    T::lemma_round_trip(v);
}

/// Fed any proper prefix of a frame, the decoder only asks for more bytes:
/// it never yields a packet early and never errs on a short buffer.
pub proof fn lemma_frame_prefix_waits<T: Protocol>(v: T::V, j: int)
    requires
        T::wf_of(v),
        0 <= T::id_of(v) < 0x80,
        T::payload_of(v).len() + 1 < 0x7fff_ffff,
        0 <= j < frame_bytes::<T>(v).len(),
    ensures
        frame_outcome::<T>(frame_bytes::<T>(v).take(j)) is AwaitPrefix || frame_outcome::<T>(
            frame_bytes::<T>(v).take(j),
        ) is AwaitPayload,
{
    let payload = T::payload_of(v);
    let id = T::id_of(v);
    let idb = varint_bytes(u32_of_i32(id as i32));
    lemma_varint_size(u32_of_i32(id as i32));
    let total = (payload.len() + idb.len()) as u32;
    let enc = varint_bytes(total);
    let s = frame_bytes::<T>(v);
    let p = s.take(j);
    lemma_varint_size(total);
    if j < enc.len() {
        assert(p =~= enc.take(j));
        lemma_varint_prefix_eof(total, j, 5);
    } else {
        let rest = (idb + payload).take(j - enc.len());
        assert(p =~= enc + rest);
        lemma_varint_round_trip(total, rest);
        assert(p.len() < enc.len() + total);
    }
}

/// A buffer holding only a frame's length prefix makes the decoder wait
/// for the declared payload, with the hint set to that length; it is not
/// an error.
pub proof fn lemma_prefix_only_waits<T: Protocol>(lv: u32)
    requires
        0 < lv < 0x8000_0000,
    ensures
        frame_outcome::<T>(varint_bytes(lv)) == FrameOutcome::AwaitPayload::<T::V>(lv as nat),
{
    let enc = varint_bytes(lv);
    assert(enc + Seq::<u8>::empty() =~= enc);
    lemma_varint_round_trip(lv, Seq::<u8>::empty());
}

} // verus!
