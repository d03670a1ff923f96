use lazyproxy::codec::{
    read_be, read_string, read_var_int, string_size, var_int_size, write_be, write_string,
    write_var_int, DecoderState,
};
use lazyproxy::error::Error;

fn varint_of(v: i32) -> Vec<u8> {
    let mut out: Vec<u8> = Vec::new();
    write_var_int(v, &mut out);
    out
}

#[test]
fn var_int_boundary_sizes() {
    let cases: [(i32, usize); 9] = [
        (0, 1),
        (127, 1),
        (128, 2),
        ((1 << 14) - 1, 2),
        ((1 << 21) - 1, 3),
        ((1 << 28) - 1, 4),
        (i32::MAX, 5),
        (-1, 5),
        (i32::MIN, 5),
    ];
    for (value, expected) in cases {
        assert_eq!(var_int_size(value), expected, "size of {}", value);
        assert_eq!(varint_of(value).len(), expected, "encoding of {}", value);
    }
}

#[test]
fn var_int_known_encodings() {
    assert_eq!(varint_of(0), vec![0x00]);
    assert_eq!(varint_of(1), vec![0x01]);
    assert_eq!(varint_of(127), vec![0x7f]);
    assert_eq!(varint_of(128), vec![0x80, 0x01]);
    assert_eq!(varint_of(300), vec![0xac, 0x02]);
    assert_eq!(varint_of(-1), vec![0xff, 0xff, 0xff, 0xff, 0x0f]);
    assert_eq!(varint_of(i32::MIN), vec![0x80, 0x80, 0x80, 0x80, 0x08]);
}

#[test]
fn var_int_round_trip() {
    let values = [
        0i32,
        1,
        127,
        128,
        300,
        16383,
        16384,
        2097151,
        268435455,
        268435456,
        i32::MAX,
        -1,
        -300,
        i32::MIN,
        772,
    ];
    for value in values {
        let enc = varint_of(value);
        let mut state = DecoderState::new(enc.as_slice());
        let got = read_var_int(&mut state).expect("round trip must decode");
        assert_eq!(got, value);
        assert_eq!(state.offset, var_int_size(value));
    }
}

#[test]
fn var_int_sixth_continuation_byte_is_invalid_data() {
    let bytes = [0x80u8, 0x80, 0x80, 0x80, 0x80, 0x01];
    let mut state = DecoderState::new(&bytes);
    assert_eq!(read_var_int(&mut state), Err(Error::InvalidData));
}

#[test]
fn var_int_truncated_is_unexpected_eof() {
    let bytes = [0x80u8, 0x80];
    let mut state = DecoderState::new(&bytes);
    assert_eq!(read_var_int(&mut state), Err(Error::UnexpectedEof));
}

#[test]
fn string_round_trip() {
    for text in ["", "example", "Steve", "h\u{e9}llo \u{2713} \u{1F600}"] {
        let mut out: Vec<u8> = Vec::new();
        write_string(text, &mut out);
        let mut state = DecoderState::new(out.as_slice());
        let got = read_string(&mut state).expect("round trip must decode");
        assert_eq!(got, text);
        assert_eq!(state.offset, string_size(text));
    }
}

#[test]
fn string_rejects_invalid_utf8() {
    let bytes = [0x02u8, 0xff, 0xfe];
    let mut state = DecoderState::new(&bytes);
    assert_eq!(read_string(&mut state), Err(Error::InvalidData));
}

#[test]
fn string_rejects_negative_length() {
    let mut bytes: Vec<u8> = Vec::new();
    write_var_int(-1, &mut bytes);
    let mut state = DecoderState::new(bytes.as_slice());
    assert_eq!(read_string(&mut state), Err(Error::InvalidData));
}

#[test]
fn string_truncated_body_is_unexpected_eof() {
    let bytes = [0x05u8, b'a', b'b'];
    let mut state = DecoderState::new(&bytes);
    assert_eq!(read_string(&mut state), Err(Error::UnexpectedEof));
}

#[test]
fn big_endian_round_trip() {
    let mut out: Vec<u8> = Vec::new();
    write_be(0x0123456789abcdef_u128, 8, &mut out);
    assert_eq!(out, vec![0x01, 0x23, 0x45, 0x67, 0x89, 0xab, 0xcd, 0xef]);
    let mut state = DecoderState::new(out.as_slice());
    assert_eq!(read_be(&mut state, 8), Ok(0x0123456789abcdef_u128));

    let mut port: Vec<u8> = Vec::new();
    write_be(25565, 2, &mut port);
    assert_eq!(port, vec![0x63, 0xdd]);
    let mut state = DecoderState::new(port.as_slice());
    assert_eq!(read_be(&mut state, 2), Ok(25565));
}

#[test]
fn big_endian_short_read_is_unexpected_eof() {
    let bytes = [0x01u8, 0x02];
    let mut state = DecoderState::new(&bytes);
    assert_eq!(read_be(&mut state, 8), Err(Error::UnexpectedEof));
    assert_eq!(state.offset, 0);
}

#[test]
fn error_messages() {
    assert_eq!(Error::InvalidData.message(), "invalid data");
    assert_eq!(Error::Unsupported.message(), "unsupported");
    assert_eq!(Error::UnexpectedEof.message(), "unexpected end of input");
    assert_eq!(Error::Timeout.message(), "timeout");
    assert_eq!(Error::Io.message(), "io error");
}
