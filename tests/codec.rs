use mcproto::error::ProtoError;
use mcproto::frame::{
    check_inflated, frame_body, frame_outbound, packer, read_frame, unwrap_compression, write_frame,
};
use mcproto::text::{read_string, strip_nulls, write_string};
use mcproto::varint::{varint_read, varint_write};

#[test]
fn varint_known_encodings() {
    assert_eq!(varint_write(0), vec![0x00]);
    assert_eq!(varint_write(1), vec![0x01]);
    assert_eq!(varint_write(127), vec![0x7f]);
    assert_eq!(varint_write(128), vec![0x80, 0x01]);
    assert_eq!(varint_write(255), vec![0xff, 0x01]);
    assert_eq!(varint_write(25565), vec![0xdd, 0xc7, 0x01]);
    assert_eq!(varint_write(2097151), vec![0xff, 0xff, 0x7f]);
    assert_eq!(varint_write(i32::MAX), vec![0xff, 0xff, 0xff, 0xff, 0x07]);
    assert_eq!(varint_write(-1), vec![0xff, 0xff, 0xff, 0xff, 0x0f]);
    assert_eq!(varint_write(i32::MIN), vec![0x80, 0x80, 0x80, 0x80, 0x08]);
}

#[test]
fn varint_round_trips() {
    for v in [0, 1, 127, 128, 300, 25565, 763, 2097152, i32::MAX, -1, -2, -300, i32::MIN] {
        let b = varint_write(v);
        assert_eq!(varint_read(&b), Ok((v, b.len())));
    }
}

#[test]
fn varint_lengths_between_one_and_five() {
    for v in [0, 127, 128, 16383, 16384, 2097151, 2097152, 268435455, 268435456, i32::MAX, -1, i32::MIN] {
        let n = varint_write(v).len();
        assert!(n >= 1 && n <= 5);
    }
    assert_eq!(varint_write(16384).len(), 3);
    assert_eq!(varint_write(-1).len(), 5);
}

#[test]
fn varint_empty_input_fails() {
    assert_eq!(varint_read(&vec![]), Err(ProtoError::FramingError));
}

#[test]
fn varint_truncated_input_fails() {
    assert_eq!(varint_read(&vec![0x80]), Err(ProtoError::FramingError));
    assert_eq!(varint_read(&vec![0xff, 0xff]), Err(ProtoError::FramingError));
}

#[test]
fn varint_stops_after_five_bytes() {
    let b = vec![0xff, 0xff, 0xff, 0xff, 0xff, 0x01];
    assert_eq!(varint_read(&b), Ok((-1, 5)));
}

#[test]
fn varint_reads_prefix_only() {
    assert_eq!(varint_read(&vec![0xdd, 0xc7, 0x01, 0x42, 0x43]), Ok((25565, 3)));
}

#[test]
fn string_write_exact() {
    assert_eq!(write_string("hello".to_string()), vec![5, b'h', b'e', b'l', b'l', b'o']);
    assert_eq!(write_string(String::new()), vec![0]);
    assert_eq!(write_string("é".to_string()), vec![2, 0xc3, 0xa9]);
}

#[test]
fn string_round_trips() {
    for s in ["", "a", "hello world", "ünïcødé ✓", "127.0.0.1"] {
        let b = write_string(s.to_string());
        let (t, n) = read_string(&b).unwrap();
        assert_eq!(t, s);
        assert_eq!(n as usize, b.len());
    }
    let long = "x".repeat(32767);
    let b = write_string(long.clone());
    assert_eq!(read_string(&b).unwrap(), (long, b.len() as i32));
}

#[test]
fn string_nul_characters_removed() {
    let b = write_string("a\0b\0".to_string());
    assert_eq!(read_string(&b).unwrap(), ("ab".to_string(), 5));
    assert_eq!(strip_nulls(&"\0x\0y".to_string()), "xy");
}

#[test]
fn string_invalid_utf8_replaced() {
    let b = vec![3, b'a', 0xff, b'b'];
    assert_eq!(read_string(&b).unwrap(), ("a\u{FFFD}b".to_string(), 4));
}

#[test]
fn string_errors() {
    assert_eq!(read_string(&vec![]), Err(ProtoError::FramingError));
    assert_eq!(read_string(&vec![5, b'a']), Err(ProtoError::ProtocolViolation));
    assert_eq!(read_string(&vec![0x80]), Err(ProtoError::FramingError));
    assert_eq!(read_string(&vec![0xff, 0xff, 0xff, 0xff, 0x0f]), Err(ProtoError::ProtocolViolation));
}

#[test]
fn frame_write_exact() {
    assert_eq!(write_frame(0, &vec![1, 2, 3]), vec![4, 0, 1, 2, 3]);
    assert_eq!(packer(vec![9, 8]), vec![2, 9, 8]);
}

#[test]
fn frame_round_trips() {
    for id in [0, 1, 4, 127, 128, 100000] {
        for payload in [vec![], vec![7u8], vec![0u8; 200], (0..=255u8).collect::<Vec<u8>>()] {
            let f = write_frame(id, &payload);
            assert_eq!(read_frame(&f), Ok((payload.clone(), id)));
        }
    }
}

#[test]
fn frame_short_input_fails() {
    assert_eq!(read_frame(&vec![5, 0, 1]), Err(ProtoError::FramingError));
    assert_eq!(read_frame(&vec![]), Err(ProtoError::FramingError));
    assert_eq!(read_frame(&vec![0]), Err(ProtoError::FramingError));
    assert_eq!(frame_body(&vec![0xff, 0xff, 0xff, 0xff, 0x0f, 1]), Err(ProtoError::FramingError));
}

#[test]
fn frame_body_reports_consumed() {
    assert_eq!(frame_body(&vec![2, 7, 8, 9]), Ok((vec![7, 8], 3)));
}

#[test]
fn outbound_without_compression_is_plain() {
    let p = vec![0u8, 1, 2];
    assert_eq!(frame_outbound(&p, false, 0), Ok(vec![3, 0, 1, 2]));
}

#[test]
fn outbound_threshold_boundary() {
    let threshold = 64;
    let below = vec![7u8; 63];
    let f = frame_outbound(&below, true, threshold).unwrap();
    assert_eq!(f[0], 64);
    assert_eq!(f[1], 0);
    assert_eq!(&f[2..], &below[..]);

    let at = vec![7u8; 64];
    let f = frame_outbound(&at, true, threshold).unwrap();
    let (body, n) = frame_body(&f).unwrap();
    assert_eq!(n, f.len());
    assert_eq!(body[0], 64);
    assert_ne!(&body[1..], &at[..]);
    assert_eq!(unwrap_compression(&body, true), Ok(at));
}

#[test]
fn outbound_negative_threshold_never_compresses() {
    let p = vec![1u8; 500];
    let f = frame_outbound(&p, true, -1).unwrap();
    let (body, _) = frame_body(&f).unwrap();
    assert_eq!(body[0], 0);
    assert_eq!(&body[1..], &p[..]);
}

#[test]
fn unwrap_plain_and_zero_length() {
    let body = vec![0u8, 5, 6];
    assert_eq!(unwrap_compression(&body, false), Ok(body.clone()));
    assert_eq!(unwrap_compression(&body, true), Ok(vec![5, 6]));
    assert_eq!(unwrap_compression(&vec![], true), Err(ProtoError::FramingError));
}

#[test]
fn unwrap_size_mismatch_fails() {
    let packet: Vec<u8> = (0..100u8).collect();
    let f = frame_outbound(&packet, true, 10).unwrap();
    let (body, _) = frame_body(&f).unwrap();
    assert_eq!(unwrap_compression(&body, true), Ok(packet.clone()));
    let mut wrong = varint_write(99);
    wrong.extend_from_slice(&body[1..]);
    assert_eq!(unwrap_compression(&wrong, true), Err(ProtoError::FramingError));
    let mut wrong = varint_write(101);
    wrong.extend_from_slice(&body[1..]);
    assert_eq!(unwrap_compression(&wrong, true), Err(ProtoError::FramingError));
}

#[test]
fn unwrap_garbage_fails() {
    assert_eq!(unwrap_compression(&vec![10, 1, 2, 3], true), Err(ProtoError::FramingError));
    assert_eq!(unwrap_compression(&vec![0xff, 0xff, 0xff, 0xff, 0x0f, 1], true), Err(ProtoError::FramingError));
}

#[test]
fn check_inflated_cases() {
    assert_eq!(check_inflated(3, vec![1, 2, 3]), Ok(vec![1, 2, 3]));
    assert_eq!(check_inflated(4, vec![1, 2, 3]), Err(ProtoError::FramingError));
    assert_eq!(check_inflated(2, vec![1, 2, 3]), Err(ProtoError::FramingError));
    assert_eq!(check_inflated(-1, vec![]), Err(ProtoError::FramingError));
}

#[test]
fn error_messages() {
    assert_eq!(ProtoError::FramingError.message(), "framing error");
    assert_eq!(ProtoError::ServerDisconnect("bye".to_string()).message(), "disconnected: bye");
}

#[test]
fn frame_with_trailing_bytes() {
    let mut f = write_frame(3, &vec![9, 9]);
    let len = f.len();
    f.extend_from_slice(&[0xff, 1, 2]);
    assert_eq!(read_frame(&f), Ok((vec![9, 9], 3)));
    assert_eq!(frame_body(&f).unwrap().1, len);
}
