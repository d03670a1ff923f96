//! The VarInt / string / fixed-width integer codec of the Minecraft wire
//! protocol, together with the specification-level parsers that every
//! decoding function is proved against.
//!
//! A VarInt is a signed 32-bit integer laid out as 1 to 5 bytes: each byte
//! carries 7 payload bits (little-endian groups) and uses the high bit as a
//! continuation flag. A string is a VarInt byte length followed by that many
//! UTF-8 bytes. Multi-byte integers are big-endian.
use vstd::prelude::*;

use vstd::string::StringSliceAdditionalSpecFns;

use crate::error::Error;

verus! {

broadcast use vstd::seq_lib::group_seq_lib_default, vstd::seq::group_seq_axioms;

// ---------------------------------------------------------------------------
// Signed/unsigned reinterpretation (two's complement), 32 and 64 bits wide.
// ---------------------------------------------------------------------------

pub open spec fn u32_of_i32(x: i32) -> u32 {
    if x >= 0 {
        x as u32
    } else {
        (x + 0x1_0000_0000) as u32
    }
}

pub open spec fn i32_of_u32(x: u32) -> i32 {
    if x < 0x8000_0000 {
        x as i32
    } else {
        (x - 0x1_0000_0000) as i32
    }
}

pub open spec fn u64_of_i64(x: i64) -> u64 {
    if x >= 0 {
        x as u64
    } else {
        (x + 0x1_0000_0000_0000_0000) as u64
    }
}

pub open spec fn i64_of_u64(x: u64) -> i64 {
    if x < 0x8000_0000_0000_0000 {
        x as i64
    } else {
        (x - 0x1_0000_0000_0000_0000) as i64
    }
}

/// Reinterprets an `i32` as the `u32` with the same bit pattern.
pub fn u32_from_i32(x: i32) -> (r: u32)
    ensures
        r == u32_of_i32(x),
{
    if x >= 0 {
        x as u32
    } else {
        (x as i64 + 0x1_0000_0000) as u32
    }
}

/// Reinterprets a `u32` as the `i32` with the same bit pattern.
pub fn i32_from_u32(x: u32) -> (r: i32)
    ensures
        r == i32_of_u32(x),
{
    if x < 0x8000_0000 {
        x as i32
    } else {
        (x as i64 - 0x1_0000_0000) as i32
    }
}

/// Reinterprets an `i64` as the `u64` with the same bit pattern.
pub fn u64_from_i64(x: i64) -> (r: u64)
    ensures
        r == u64_of_i64(x),
{
    if x >= 0 {
        x as u64
    } else {
        (x as i128 + 0x1_0000_0000_0000_0000) as u64
    }
}

/// Reinterprets a `u64` as the `i64` with the same bit pattern.
pub fn i64_from_u64(x: u64) -> (r: i64)
    ensures
        r == i64_of_u64(x),
{
    if x < 0x8000_0000_0000_0000 {
        x as i64
    } else {
        (x as i128 - 0x1_0000_0000_0000_0000) as i64
    }
}

// ---------------------------------------------------------------------------
// VarInt encoding: 7-bit groups, lowest first, continuation bit on all but
// the last group.
// ---------------------------------------------------------------------------

/// The wire bytes of the VarInt encoding of `n`.
pub open spec fn varint_bytes(n: u32) -> Seq<u8>
    decreases n,
{
    if n < 0x80 {
        seq![n as u8]
    } else {
        seq![(n % 0x80 + 0x80) as u8] + varint_bytes(n / 0x80)
    }
}

/// The number of bytes the VarInt encoding of `n` occupies.
pub open spec fn varint_size_of(n: u32) -> nat {
    if n < 0x80 {
        1
    } else if n < 0x4000 {
        2
    } else if n < 0x20_0000 {
        3
    } else if n < 0x1000_0000 {
        4
    } else {
        5
    }
}

pub proof fn lemma_varint_size(n: u32)
    ensures
        varint_bytes(n).len() == varint_size_of(n),
        1 <= varint_bytes(n).len() <= 5,
    decreases n,
{
    if n >= 0x80 {
        lemma_varint_size(n / 0x80);
        assert(varint_bytes(n).len() == 1 + varint_bytes(n / 0x80).len());
        assert(varint_size_of(n) == 1 + varint_size_of(n / 0x80));
    }
}

// ---------------------------------------------------------------------------
// VarInt parsing, exactly as the reader behaves: at most five bytes are
// examined; a continuation bit on the fifth byte is invalid data; running
// out of input first is an unexpected end of input.
// ---------------------------------------------------------------------------

/// Parses a VarInt from the head of `s` with `max` bytes of budget left,
/// returning the (untruncated) accumulated value and the bytes consumed.
pub open spec fn parse_varint_rec(s: Seq<u8>, max: nat) -> Result<(int, nat), Error>
    decreases max,
{
    if max == 0 {
        Err(Error::InvalidData)
    } else if s.len() == 0 {
        Err(Error::UnexpectedEof)
    } else if s[0] < 0x80 {
        Ok((s[0] as int, 1))
    } else {
        match parse_varint_rec(s.skip(1), (max - 1) as nat) {
            Ok((v, k)) => Ok(((s[0] - 0x80) + 0x80 * v, (k + 1) as nat)),
            Err(e) => Err(e),
        }
    }
}

/// Parses a VarInt from the head of `s`: the value (truncated to 32 bits,
/// as the reader truncates) and the number of bytes consumed.
pub open spec fn parse_varint(s: Seq<u8>) -> Result<(u32, nat), Error> {
    match parse_varint_rec(s, 5) {
        Ok((v, k)) => Ok(((v % 0x1_0000_0000) as u32, k)),
        Err(e) => Err(e),
    }
}

proof fn lemma_varint_rt_rec(n: u32, rest: Seq<u8>, max: nat)
    requires
        varint_bytes(n).len() <= max,
    ensures
        parse_varint_rec(varint_bytes(n) + rest, max) == Ok::<(int, nat), Error>(
            (n as int, varint_bytes(n).len()),
        ),
    decreases n,
{
    let enc = varint_bytes(n);
    let s = enc + rest;
    if n < 0x80 {
        assert(s[0] == n as u8);
    } else {
        let tail = varint_bytes(n / 0x80);
        assert(s[0] == (n % 0x80 + 0x80) as u8);
        assert(s.skip(1) =~= tail + rest);
        lemma_varint_rt_rec(n / 0x80, rest, (max - 1) as nat);
        assert((s[0] - 0x80) + 0x80 * ((n / 0x80) as int) == n as int);
    }
}

/// Round trip: parsing a written VarInt yields the value back and consumes
/// exactly its encoding, whatever bytes follow.
pub proof fn lemma_varint_round_trip(n: u32, rest: Seq<u8>)
    ensures
        parse_varint(varint_bytes(n) + rest) == Ok::<(u32, nat), Error>(
            (n, varint_bytes(n).len()),
        ),
{
    lemma_varint_size(n);
    lemma_varint_rt_rec(n, rest, 5);
}

/// A proper prefix of a VarInt encoding parses as an unexpected end of
/// input: the terminating byte has not arrived yet.
pub proof fn lemma_varint_prefix_eof(n: u32, j: int, max: nat)
    requires
        0 <= j < varint_bytes(n).len(),
        max >= varint_bytes(n).len(),
    ensures
        parse_varint_rec(varint_bytes(n).take(j), max) == Err::<(int, nat), Error>(
            Error::UnexpectedEof,
        ),
    decreases n,
{
    let enc = varint_bytes(n);
    if j == 0 {
    } else {
        // n >= 0x80 here, since otherwise enc has one byte and j would be 0
        let tail = varint_bytes(n / 0x80);
        assert(enc.take(j)[0] == (n % 0x80 + 0x80) as u8);
        assert(enc.take(j).skip(1) =~= tail.take(j - 1));
        lemma_varint_prefix_eof(n / 0x80, j - 1, (max - 1) as nat);
    }
}

/// Five continuation bytes in a row are rejected as invalid data: a sixth
/// VarInt byte is never read.
pub proof fn lemma_varint_overlong(s: Seq<u8>)
    requires
        s.len() >= 5,
        forall|i: int| 0 <= i < 5 ==> s[i] >= 0x80,
    ensures
        parse_varint(s) == Err::<(u32, nat), Error>(Error::InvalidData),
{
    lemma_varint_overlong_rec(s, 5);
}

proof fn lemma_varint_overlong_rec(s: Seq<u8>, max: nat)
    requires
        max <= 5,
        s.len() >= max,
        forall|i: int| 0 <= i < max ==> s[i] >= 0x80,
    ensures
        parse_varint_rec(s, max) == Err::<(int, nat), Error>(Error::InvalidData),
    decreases max,
{
    if max > 0 {
        assert(s[0] >= 0x80);
        assert forall|i: int| 0 <= i < max - 1 implies s.skip(1)[i] >= 0x80 by {
            assert(s.skip(1)[i] == s[i + 1]);
        }
        lemma_varint_overlong_rec(s.skip(1), (max - 1) as nat);
    }
}


// ---------------------------------------------------------------------------
// The decoder cursor: a read-only byte window with an offset.
// ---------------------------------------------------------------------------

/// A cursor over the bytes of one receive buffer. `window()` is what is
/// still readable; `narrow` shrinks the window to one frame's extent so a
/// payload decoder cannot read past its frame.
pub struct DecoderState<'a> {
    pub buffer: &'a [u8],
    pub offset: usize,
}

impl<'a> DecoderState<'a> {
    pub open spec fn wf(&self) -> bool {
        self.offset <= self.buffer@.len()
    }

    /// The bytes still readable from this cursor.
    pub open spec fn window(&self) -> Seq<u8> {
        self.buffer@.skip(self.offset as int)
    }

    pub fn new(buffer: &'a [u8]) -> (r: DecoderState<'a>)
        ensures
            r.wf(),
            r.buffer@ == buffer@,
            r.offset == 0,
            r.window() == buffer@,
    {
        let r = DecoderState { buffer, offset: 0 };
        proof {
            assert(r.window() =~= buffer@);
        }
        r
    }

    /// Takes the next `count` bytes, or reports an unexpected end of input
    /// (leaving the cursor untouched) when fewer are available.
    pub fn bytes(&mut self, count: usize) -> (r: Result<&'a [u8], Error>)
        requires
            old(self).wf(),
        ensures
            final(self).wf(),
            final(self).buffer@ == old(self).buffer@,
            count <= old(self).window().len() ==> {
                &&& r matches Ok(s) && s@ == old(self).window().take(count as int)
                &&& final(self).offset == old(self).offset + count
                &&& final(self).window() == old(self).window().skip(count as int)
            },
            count > old(self).window().len() ==> r == Err::<&'a [u8], Error>(
                Error::UnexpectedEof,
            ) && *final(self) == *old(self),
    {
        if count > self.buffer.len() - self.offset {
            return Err(Error::UnexpectedEof);
        }
        let s = vstd::slice::slice_subrange(self.buffer, self.offset, self.offset + count);
        self.offset = self.offset + count;
        proof {
            assert(s@ =~= old(self).window().take(count as int));
            assert(self.window() =~= old(self).window().skip(count as int));
        }
        Ok(s)
    }

    /// Takes the next byte, or reports an unexpected end of input.
    pub fn read_u8(&mut self) -> (r: Result<u8, Error>)
        requires
            old(self).wf(),
        ensures
            final(self).wf(),
            final(self).buffer@ == old(self).buffer@,
            old(self).window().len() > 0 ==> {
                &&& r == Ok::<u8, Error>(old(self).window()[0])
                &&& final(self).offset == old(self).offset + 1
                &&& final(self).window() == old(self).window().skip(1)
            },
            old(self).window().len() == 0 ==> r == Err::<u8, Error>(Error::UnexpectedEof)
                && *final(self) == *old(self),
    {
        if self.offset < self.buffer.len() {
            let b = *vstd::slice::slice_index_get(self.buffer, self.offset);
            self.offset = self.offset + 1;
            proof {
                assert(self.window() =~= old(self).window().skip(1));
            }
            Ok(b)
        } else {
            Err(Error::UnexpectedEof)
        }
    }

    /// Restricts the window to its first `len` bytes, so that reads cannot
    /// stray past the current frame.
    pub fn narrow(&mut self, len: usize)
        requires
            old(self).wf(),
            len <= old(self).window().len(),
        ensures
            final(self).wf(),
            final(self).offset == old(self).offset,
            final(self).window() == old(self).window().take(len as int),
    {
        let cap = self.buffer.len();
        proof {
            assert(old(self).window().len() == cap - self.offset);
            assert(self.offset + len <= cap);
        }
        self.buffer = vstd::slice::slice_subrange(self.buffer, 0, self.offset + len);
        proof {
            assert(self.window() =~= old(self).window().take(len as int));
        }
    }
}

// ---------------------------------------------------------------------------
// Executable VarInt reader and writer.
// ---------------------------------------------------------------------------

pub open spec fn pow128(k: nat) -> int
    decreases k,
{
    if k == 0 {
        1
    } else {
        0x80 * pow128((k - 1) as nat)
    }
}

proof fn lemma_pow128_bounds()
    ensures
        pow128(0) == 1,
        pow128(1) == 0x80,
        pow128(2) == 0x4000,
        pow128(3) == 0x20_0000,
        pow128(4) == 0x1000_0000,
        pow128(5) == 0x8_0000_0000,
{
    assert(pow128(0) == 1);
    assert(pow128(1) == 0x80);
    assert(pow128(2) == 0x4000);
    assert(pow128(3) == 0x20_0000);
    assert(pow128(4) == 0x1000_0000);
    assert(pow128(5) == 0x8_0000_0000);
}

/// What the whole parse returns, given a parse of the remaining bytes after
/// `i` continuation bytes whose groups accumulate to `acc` with multiplier
/// `mult`.
spec fn varint_lift(r: Result<(int, nat), Error>, acc: int, mult: int, i: nat) -> Result<
    (int, nat),
    Error,
> {
    match r {
        Ok((v, k)) => Ok((acc + mult * v, (k + i) as nat)),
        Err(e) => Err(e),
    }
}

/// Reads one VarInt: up to five bytes, 7 payload bits each, little-endian
/// groups; a fifth continuation bit is invalid data.
pub fn read_var_int(src: &mut DecoderState<'_>) -> (r: Result<i32, Error>)
    requires
        old(src).wf(),
    ensures
        final(src).wf(),
        final(src).buffer@ == old(src).buffer@,
        match parse_varint(old(src).window()) {
            Ok((v, k)) => r == Ok::<i32, Error>(i32_of_u32(v)) && final(src).offset == old(
                src,
            ).offset + k && final(src).window() == old(src).window().skip(k as int),
            Err(e) => r == Err::<i32, Error>(e),
        },
{
    let ghost win0 = old(src).window();
    let mut acc: u64 = 0;
    let mut mult: u64 = 1;
    let mut i: usize = 0;
    proof {
        lemma_pow128_bounds();
        assert(win0.skip(0) =~= win0);
    }
    while i < 5
        invariant
            win0 == old(src).window(),
            src.wf(),
            src.buffer@ == old(src).buffer@,
            i <= 4,
            src.offset == old(src).offset + i,
            src.window() == win0.skip(i as int),
            mult == pow128(i as nat),
            mult <= 0x1000_0000,
            acc < mult,
            parse_varint_rec(win0, 5) == varint_lift(
                parse_varint_rec(win0.skip(i as int), (5 - i) as nat),
                acc as int,
                mult as int,
                i as nat,
            ),
        decreases 5 - i,
    {
        let ghost cur = src.window();
        let ghost budget = (5 - i) as nat;
        match src.read_u8() {
            Err(_) => {
                proof {
                    assert(cur.len() == 0);
                    assert(parse_varint_rec(cur, budget) == Err::<(int, nat), Error>(
                        Error::UnexpectedEof,
                    ));
                }
                return Err(Error::UnexpectedEof);
            },
            Ok(b) => {
                if b < 0x80 {
                    proof {
                        assert(mult * (b as u64) <= 0x1000_0000 * 0x7f) by (nonlinear_arith)
                            requires
                                mult <= 0x1000_0000,
                                0 <= b < 0x80,
                        ;
                        assert(parse_varint_rec(cur, budget) == Ok::<(int, nat), Error>(
                            (b as int, 1),
                        ));
                        assert(parse_varint_rec(win0, 5) == Ok::<(int, nat), Error>(
                            (acc + mult * b, (i + 1) as nat),
                        ));
                    }
                    let total: u64 = acc + mult * (b as u64);
                    let v32: u32 = (total % 0x1_0000_0000) as u32;
                    return Ok(i32_from_u32(v32));
                } else {
                    proof {
                        lemma_pow128_bounds();
                        assert(cur[0] == b);
                        assert(cur.skip(1) =~= win0.skip(i + 1));
                        if i == 4 {
                            // budget is 1 here: the parse of cur fails with
                            // invalid data, and so does the whole parse
                            assert(parse_varint_rec(cur.skip(1), 0) == Err::<
                                (int, nat),
                                Error,
                            >(Error::InvalidData));
                        } else {
                            assert(mult * 0x80 == pow128((i + 1) as nat));
                            assert(acc + mult * ((b - 0x80) as int) < mult * 0x80)
                                by (nonlinear_arith)
                                requires
                                    0 < mult,
                                    acc < mult,
                                    0x80 <= b < 0x100,
                            ;
                            let tail_r = parse_varint_rec(win0.skip(i + 1), (4 - i) as nat);
                            if tail_r is Ok {
                                let v = tail_r->Ok_0.0;
                                vstd::arithmetic::mul::lemma_mul_is_distributive_add(
                                    mult as int,
                                    (b - 0x80) as int,
                                    0x80 * v,
                                );
                                vstd::arithmetic::mul::lemma_mul_is_associative(
                                    mult as int,
                                    0x80,
                                    v,
                                );
                                assert(acc + mult * ((b - 0x80) + 0x80 * v) == (acc + mult * ((
                                b - 0x80) as int)) + (mult * 0x80) * v);
                            }
                        }
                    }
                    if i == 4 {
                        return Err(Error::InvalidData);
                    }
                    acc = acc + mult * ((b - 0x80) as u64);
                    mult = mult * 0x80;
                    i = i + 1;
                }
            },
        }
    }
    proof {
        // unreachable: the loop always returns by its fifth iteration
        assert(false);
    }
    Err(Error::InvalidData)
}

/// Writes the VarInt encoding of `int`: 7-bit groups lowest first, the
/// continuation bit set on all but the last byte. Negative values always
/// occupy five bytes.
pub fn write_var_int(value: i32, dest: &mut Vec<u8>)
    ensures
        final(dest)@ == old(dest)@ + varint_bytes(u32_of_i32(value)),
{
    let mut n: u32 = u32_from_i32(value);
    while n >= 0x80
        invariant
            dest@ + varint_bytes(n) == old(dest)@ + varint_bytes(u32_of_i32(value)),
        decreases n,
    {
        dest.push((n % 0x80 + 0x80) as u8);
        proof {
            assert((dest@ + varint_bytes(n / 0x80)) =~= (dest@.drop_last() + varint_bytes(
                n,
            )));
        }
        n = n / 0x80;
    }
    dest.push(n as u8);
    proof {
        assert(dest@ =~= dest@.drop_last() + varint_bytes(n));
    }
}

/// The exact byte count `write_var_int` produces for `int`.
pub fn var_int_size(value: i32) -> (r: usize)
    ensures
        r == varint_bytes(u32_of_i32(value)).len(),
        1 <= r <= 5,
{
    let n = u32_from_i32(value);
    proof {
        lemma_varint_size(n);
    }
    if n < 0x80 {
        1
    } else if n < 0x4000 {
        2
    } else if n < 0x20_0000 {
        3
    } else if n < 0x1000_0000 {
        4
    } else {
        5
    }
}


// ---------------------------------------------------------------------------
// Big-endian fixed-width integers.
// ---------------------------------------------------------------------------

pub open spec fn pow256(k: nat) -> int
    decreases k,
{
    if k == 0 {
        1
    } else {
        0x100 * pow256((k - 1) as nat)
    }
}

pub proof fn lemma_pow256_values()
    ensures
        pow256(2) == 0x1_0000,
        pow256(8) == 0x1_0000_0000_0000_0000,
        pow256(15) == 0x100_0000_0000_0000_0000_0000_0000_0000,
        pow256(16) == 0x1_0000_0000_0000_0000_0000_0000_0000_0000,
{
    assert(pow256(0) == 1);
    assert(pow256(1) == 0x100);
    assert(pow256(2) == 0x1_0000);
    assert(pow256(3) == 0x100_0000);
    assert(pow256(4) == 0x1_0000_0000);
    assert(pow256(5) == 0x100_0000_0000);
    assert(pow256(6) == 0x1_0000_0000_0000);
    assert(pow256(7) == 0x100_0000_0000_0000);
    assert(pow256(8) == 0x1_0000_0000_0000_0000);
    assert(pow256(9) == 0x100_0000_0000_0000_0000);
    assert(pow256(10) == 0x1_0000_0000_0000_0000_0000);
    assert(pow256(11) == 0x100_0000_0000_0000_0000_0000);
    assert(pow256(12) == 0x1_0000_0000_0000_0000_0000_0000);
    assert(pow256(13) == 0x100_0000_0000_0000_0000_0000_0000);
    assert(pow256(14) == 0x1_0000_0000_0000_0000_0000_0000_0000);
    assert(pow256(15) == 0x100_0000_0000_0000_0000_0000_0000_0000);
    assert(pow256(16) == 0x1_0000_0000_0000_0000_0000_0000_0000_0000);
}

pub proof fn lemma_pow256_increases(j: nat, k: nat)
    requires
        j <= k,
    ensures
        pow256(j) <= pow256(k),
        pow256(j) >= 1,
    decreases k,
{
    if k > 0 {
        if j <= k - 1 {
            lemma_pow256_increases(j, (k - 1) as nat);
        } else {
            lemma_pow256_increases((j - 1) as nat, (k - 1) as nat);
        }
    }
}

/// The big-endian byte representation of `x` in `n` bytes (high byte first;
/// bits above the `n`-th byte are dropped).
pub open spec fn be_bytes(x: int, n: nat) -> Seq<u8>
    decreases n,
{
    if n == 0 {
        Seq::empty()
    } else {
        be_bytes(x / 0x100, (n - 1) as nat).push((x % 0x100) as u8)
    }
}

/// The value of a big-endian byte sequence.
pub open spec fn be_val(s: Seq<u8>) -> int
    decreases s.len(),
{
    if s.len() == 0 {
        0
    } else {
        be_val(s.drop_last()) * 0x100 + s.last()
    }
}

pub proof fn lemma_be_val_bound(s: Seq<u8>)
    ensures
        0 <= be_val(s) < pow256(s.len()),
    decreases s.len(),
{
    if s.len() > 0 {
        lemma_be_val_bound(s.drop_last());
    }
}

pub proof fn lemma_be_bytes_len(x: int, n: nat)
    ensures
        be_bytes(x, n).len() == n,
    decreases n,
{
    if n > 0 {
        lemma_be_bytes_len(x / 0x100, (n - 1) as nat);
    }
}

/// Round trip: the value of the big-endian bytes of `x` is `x` again,
/// provided `x` fits in `n` bytes.
pub proof fn lemma_be_round_trip(x: int, n: nat)
    requires
        0 <= x < pow256(n),
    ensures
        be_bytes(x, n).len() == n,
        be_val(be_bytes(x, n)) == x,
    decreases n,
{
    lemma_be_bytes_len(x, n);
    if n > 0 {
        assert(x / 0x100 < pow256((n - 1) as nat));
        lemma_be_round_trip(x / 0x100, (n - 1) as nat);
        assert(be_bytes(x, n).drop_last() =~= be_bytes(x / 0x100, (n - 1) as nat));
    }
}

/// The parse of an `n`-byte big-endian integer at the head of `s`.
pub open spec fn parse_be(s: Seq<u8>, n: nat) -> Result<(int, nat), Error> {
    if s.len() < n {
        Err(Error::UnexpectedEof)
    } else {
        Ok((be_val(s.take(n as int)), n))
    }
}

/// Reads an `n`-byte big-endian unsigned integer, `n` at most 16.
pub fn read_be(src: &mut DecoderState<'_>, n: usize) -> (r: Result<u128, Error>)
    requires
        old(src).wf(),
        n <= 16,
    ensures
        final(src).wf(),
        final(src).buffer@ == old(src).buffer@,
        match parse_be(old(src).window(), n as nat) {
            Ok((v, k)) => r == Ok::<u128, Error>(v as u128) && final(src).offset == old(
                src,
            ).offset + k && final(src).window() == old(src).window().skip(k as int),
            Err(e) => r == Err::<u128, Error>(e) && *final(src) == *old(src),
        },
{
    let bs = match src.bytes(n) {
        Ok(bs) => bs,
        Err(e) => {
            return Err(e);
        },
    };
    let mut acc: u128 = 0;
    let mut i: usize = 0;
    proof {
        assert(bs@.take(0) =~= Seq::<u8>::empty());
    }
    while i < n
        invariant
            i <= n <= 16,
            bs@.len() == n,
            acc == be_val(bs@.take(i as int)),
            0 <= acc < pow256(i as nat),
        decreases n - i,
    {
        let b = *vstd::slice::slice_index_get(bs, i);
        proof {
            lemma_pow256_increases(i as nat, 15);
            lemma_pow256_values();
            assert(bs@.take(i + 1).drop_last() =~= bs@.take(i as int));
            assert(bs@.take(i + 1).last() == bs@[i as int]);
        }
        acc = acc * 0x100 + (b as u128);
        i = i + 1;
    }
    proof {
        assert(bs@.take(n as int) =~= bs@);
        assert(bs@ == old(src).window().take(n as int));
        lemma_pow256_increases(n as nat, 16);
        lemma_pow256_values();
    }
    Ok(acc)
}

/// Writes `x` as an `n`-byte big-endian unsigned integer (high bits beyond
/// `n` bytes are dropped).
pub fn write_be(x: u128, n: usize, dest: &mut Vec<u8>)
    ensures
        final(dest)@ == old(dest)@ + be_bytes(x as int, n as nat),
    decreases n,
{
    if n > 0 {
        write_be(x / 0x100, n - 1, dest);
        dest.push((x % 0x100) as u8);
        proof {
            assert(dest@ =~= old(dest)@ + be_bytes(x as int, n as nat));
        }
    } else {
        proof {
            assert(dest@ =~= old(dest)@ + be_bytes(x as int, 0));
        }
    }
}

// ---------------------------------------------------------------------------
// Length-prefixed UTF-8 strings.
// ---------------------------------------------------------------------------

/// The wire bytes of a string: a VarInt byte length, then the UTF-8 bytes.
pub open spec fn string_bytes(chars: Seq<char>) -> Seq<u8> {
    varint_bytes(vstd::utf8::encode_utf8(chars).len() as u32) + vstd::utf8::encode_utf8(chars)
}

/// The parse of a length-prefixed string at the head of `s`: a negative
/// length or non-UTF-8 bytes are invalid data; a truncated body is an
/// unexpected end of input.
pub open spec fn parse_string(s: Seq<u8>) -> Result<(Seq<char>, nat), Error> {
    match parse_varint(s) {
        Ok((lv, k)) => if lv >= 0x8000_0000 {
            Err(Error::InvalidData)
        } else if s.len() < k + lv {
            Err(Error::UnexpectedEof)
        } else if vstd::utf8::valid_utf8(s.subrange(k as int, k + lv)) {
            Ok((vstd::utf8::decode_utf8(s.subrange(k as int, k + lv)), (k + lv) as nat))
        } else {
            Err(Error::InvalidData)
        },
        Err(e) => Err(e),
    }
}

/// Relies on core::str::from_utf8: it returns `Ok` exactly when the bytes
/// are valid UTF-8, and the returned string slice is backed by those same
/// bytes.
#[verifier::external_body]
fn str_from_utf8<'a>(v: &'a [u8]) -> (r: Option<&'a str>)
    ensures
        r is Some <==> vstd::utf8::valid_utf8(v@),
        r matches Some(st) ==> st.spec_bytes() == v@,
{
    core::str::from_utf8(v).ok()
}

/// Reads a length-prefixed UTF-8 string, borrowing from the cursor's buffer.
pub fn read_string<'a>(src: &mut DecoderState<'a>) -> (r: Result<&'a str, Error>)
    requires
        old(src).wf(),
    ensures
        final(src).wf(),
        final(src).buffer@ == old(src).buffer@,
        match parse_string(old(src).window()) {
            Ok((chars, k)) => r matches Ok(st) && st@ == chars && final(src).offset == old(
                src,
            ).offset + k && final(src).window() == old(src).window().skip(k as int),
            Err(e) => r == Err::<&'a str, Error>(e),
        },
{
    let ghost win0 = old(src).window();
    let len = match read_var_int(src) {
        Ok(l) => l,
        Err(e) => {
            return Err(e);
        },
    };
    if len < 0 {
        return Err(Error::InvalidData);
    }
    let count = len as usize;
    let ghost k = (win0.len() - src.window().len()) as nat;
    let bs = match src.bytes(count) {
        Ok(bs) => bs,
        Err(e) => {
            return Err(e);
        },
    };
    proof {
        assert(bs@ =~= win0.subrange(k as int, k + count));
    }
    match str_from_utf8(bs) {
        Some(st) => {
            proof {
                vstd::utf8::encode_utf8_decode_utf8(st@);
                assert(st@ == vstd::utf8::decode_utf8(bs@));
                assert(src.window() =~= win0.skip((k + count) as int));
            }
            Ok(st)
        },
        None => Err(Error::InvalidData),
    }
}

/// The exact byte count `write_string` produces.
pub fn string_size(string: &str) -> (r: usize)
    requires
        string.spec_bytes().len() < 0x7fff_ffff,
    ensures
        r == string_bytes(string@).len(),
{
    let len = string.as_bytes().len();
    var_int_size(len as i32) + len
}

/// Writes a string as a VarInt byte length followed by its UTF-8 bytes.
pub fn write_string(string: &str, dest: &mut Vec<u8>)
    requires
        string.spec_bytes().len() < 0x7fff_ffff,
    ensures
        final(dest)@ == old(dest)@ + string_bytes(string@),
{
    let bytes = string.as_bytes();
    let len = bytes.len();
    write_var_int(len as i32, dest);
    dest.extend_from_slice(bytes);
    proof {
        assert(dest@ =~= old(dest)@ + string_bytes(string@));
    }
}

/// Round trip: parsing a written string yields the characters back and
/// consumes exactly its encoding, whatever bytes follow.
pub proof fn lemma_string_round_trip(chars: Seq<char>, rest: Seq<u8>)
    requires
        vstd::utf8::encode_utf8(chars).len() < 0x7fff_ffff,
    ensures
        parse_string(string_bytes(chars) + rest) == Ok::<(Seq<char>, nat), Error>(
            (chars, string_bytes(chars).len()),
        ),
{
    let eb = vstd::utf8::encode_utf8(chars);
    let lv = eb.len() as u32;
    let enc = varint_bytes(lv);
    let s = string_bytes(chars) + rest;
    assert(s =~= enc + (eb + rest));
    lemma_varint_round_trip(lv, eb + rest);
    lemma_varint_size(lv);
    assert(s.subrange(enc.len() as int, enc.len() + lv) =~= eb);
    vstd::utf8::encode_utf8_valid_utf8(chars);
    vstd::utf8::encode_utf8_decode_utf8(chars);
}


proof fn lemma_parse_varint_rec_consumed(s: Seq<u8>, max: nat)
    ensures
        parse_varint_rec(s, max) matches Ok((v, k)) ==> 1 <= k <= s.len() && k <= max,
    decreases max,
{
    if max > 0 && s.len() > 0 && s[0] >= 0x80 {
        lemma_parse_varint_rec_consumed(s.skip(1), (max - 1) as nat);
    }
}

/// A successful VarInt parse consumes one to five bytes, never more than
/// the window holds.
pub proof fn lemma_parse_varint_consumed(s: Seq<u8>)
    ensures
        parse_varint(s) matches Ok((v, k)) ==> 1 <= k <= s.len() && k <= 5,
{
    lemma_parse_varint_rec_consumed(s, 5);
}

/// A successful string parse consumes no more than the window holds.
pub proof fn lemma_parse_string_consumed(s: Seq<u8>)
    ensures
        parse_string(s) matches Ok((cs, k)) ==> k <= s.len(),
{
    lemma_parse_varint_consumed(s);
}


/// Round trip for the signed view: the VarInt encoding of any i32 parses
/// back to that value, whatever bytes follow, and its byte count is the
/// declared size.
pub proof fn lemma_var_int_round_trip_i32(v: i32, rest: Seq<u8>)
    ensures
        ({
            let enc = varint_bytes(u32_of_i32(v));
            &&& parse_varint(enc + rest) matches Ok((u, k)) && i32_of_u32(u) == v && k
                == enc.len()
            &&& enc.len() == varint_size_of(u32_of_i32(v))
        }),
{
    lemma_varint_round_trip(u32_of_i32(v), rest);
    lemma_varint_size(u32_of_i32(v));
}

} // verus!
