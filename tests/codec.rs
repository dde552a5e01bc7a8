use rift::codec::decode_frame;
use rift::codec::encode_frame;
use rift::codec::read_byte_array;
use rift::codec::read_long;
use rift::codec::read_string;
use rift::codec::read_ushort;
use rift::codec::read_varint;
use rift::codec::write_byte_array;
use rift::codec::write_long;
use rift::codec::write_string;
use rift::codec::write_ushort;
use rift::codec::write_varint;
use rift::codec::WireError;

fn varint(v: i32) -> Vec<u8> {
    let mut out = Vec::new();
    write_varint(&mut out, v);
    out
}

#[test]
fn varint_edge_cases() {
    assert_eq!(varint(-1), vec![0xFF, 0xFF, 0xFF, 0xFF, 0x0F]);
    assert_eq!(varint(0), vec![0x00]);
    assert_eq!(varint(127), vec![0x7F]);
    assert_eq!(varint(128), vec![0x80, 0x01]);
    assert_eq!(varint(2147483647), vec![0xFF, 0xFF, 0xFF, 0xFF, 0x07]);
    assert_eq!(varint(754), vec![0xF2, 0x05]);
    assert_eq!(varint(i32::MIN), vec![0x80, 0x80, 0x80, 0x80, 0x08]);
}

#[test]
fn varint_round_trip_and_length() {
    for v in [0, 1, -1, 127, 128, 255, 25565, 2097151, 2097152, i32::MAX, i32::MIN, -754] {
        let bytes = varint(v);
        assert!(bytes.len() >= 1 && bytes.len() <= 5);
        let mut with_rest = bytes.clone();
        with_rest.extend_from_slice(&[9, 9]);
        assert_eq!(read_varint(&with_rest, 0), Ok((v, bytes.len())));
    }
}

#[test]
fn varint_too_long_is_malformed() {
    let bytes = [0x80, 0x80, 0x80, 0x80, 0x80, 0x01];
    assert_eq!(read_varint(&bytes, 0), Err(WireError::MalformedVarInt));
    let all_continued = [0xFF; 7];
    assert_eq!(read_varint(&all_continued, 0), Err(WireError::MalformedVarInt));
}

#[test]
fn varint_cut_short_is_truncated() {
    assert_eq!(read_varint(&[0x80], 0), Err(WireError::Truncated));
    assert_eq!(read_varint(&[], 0), Err(WireError::Truncated));
    assert_eq!(read_varint(&[0x05, 0x80], 1), Err(WireError::Truncated));
}

#[test]
fn varint_read_from_offset() {
    assert_eq!(read_varint(&[0x01, 0x80, 0x01, 0x02], 1), Ok((128, 3)));
}

#[test]
fn string_wire_form() {
    let mut out = Vec::new();
    write_string(&mut out, "example.com");
    let mut expected = vec![11u8];
    expected.extend_from_slice(b"example.com");
    assert_eq!(out, expected);
}

#[test]
fn string_round_trip() {
    for s in ["", "Alice", "example.com", "\u{a7}3Enter the rift.", "\u{1F600} snow \u{2603}"] {
        let mut out = Vec::new();
        write_string(&mut out, s);
        out.push(0x42);
        let (back, next) = read_string(&out, 0).unwrap();
        assert_eq!(back, s);
        assert_eq!(next, out.len() - 1);
    }
    let long = "x".repeat(32767);
    let mut out = Vec::new();
    write_string(&mut out, &long);
    assert_eq!(read_string(&out, 0).unwrap().0, long);
}

#[test]
fn string_errors() {
    assert_eq!(read_string(&[0x02, 0xC3, 0x28], 0), Err(WireError::InvalidString));
    assert_eq!(read_string(&[0x05, b'a', b'b'], 0), Err(WireError::Truncated));
    assert_eq!(read_string(&[0xFF, 0xFF, 0xFF, 0xFF, 0x0F], 0), Err(WireError::NegativeLength));
}

#[test]
fn long_and_ushort_wire_forms() {
    let mut out = Vec::new();
    write_long(&mut out, 0x1122334455667788);
    assert_eq!(out, vec![0x11, 0x22, 0x33, 0x44, 0x55, 0x66, 0x77, 0x88]);
    assert_eq!(read_long(&out, 0), Ok((0x1122334455667788, 8)));
    let mut neg = Vec::new();
    write_long(&mut neg, -2);
    assert_eq!(neg, vec![0xFF, 0xFF, 0xFF, 0xFF, 0xFF, 0xFF, 0xFF, 0xFE]);
    assert_eq!(read_long(&neg, 0), Ok((-2, 8)));
    assert_eq!(read_long(&neg[..7], 0), Err(WireError::Truncated));
    let mut port = Vec::new();
    write_ushort(&mut port, 25565);
    assert_eq!(port, vec![0x63, 0xDD]);
    assert_eq!(read_ushort(&port, 0), Ok((25565, 2)));
    assert_eq!(read_ushort(&port[..1], 0), Err(WireError::Truncated));
}

#[test]
fn byte_array_round_trip() {
    let mut out = Vec::new();
    write_byte_array(&mut out, &[1, 2, 3]);
    assert_eq!(out, vec![3, 1, 2, 3]);
    assert_eq!(read_byte_array(&out, 0), Ok((vec![1, 2, 3], 4)));
}

#[test]
fn frame_wire_form() {
    assert_eq!(encode_frame(0, &[]), vec![0x01, 0x00]);
    assert_eq!(encode_frame(1, &[0xAA, 0xBB]), vec![0x03, 0x01, 0xAA, 0xBB]);
}

#[test]
fn frame_round_trip() {
    for (id, body) in [(0, vec![]), (1, vec![1, 2, 3]), (0x7F, vec![0; 300]), (-1, vec![5])] {
        let mut bytes = encode_frame(id, &body);
        let len = bytes.len();
        bytes.extend_from_slice(&[7, 7, 7]);
        let (frame, next) = decode_frame(&bytes, 0).unwrap();
        assert_eq!(frame.id, id);
        assert_eq!(frame.payload, body);
        assert_eq!(next, len);
    }
}

#[test]
fn frame_errors() {
    assert!(matches!(decode_frame(&[0x05, 0x00, 0x01], 0), Err(WireError::Truncated)));
    assert!(matches!(decode_frame(&[0x00], 0), Err(WireError::Truncated)));
    assert!(matches!(decode_frame(&[0xFF, 0xFF, 0xFF, 0xFF, 0x0F], 0), Err(WireError::NegativeLength)));
}
