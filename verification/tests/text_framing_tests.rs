use bola_api::framing::{decode_frame, encode_frame, size_field_len, size_field_of, FrameError};
use bola_api::text::{format_u64, parse_u16};

#[test]
fn parse_u16_follows_std() {
    assert_eq!(parse_u16("0"), Some(0));
    assert_eq!(parse_u16("+12"), Some(12));
    assert_eq!(parse_u16("007"), Some(7));
    assert_eq!(parse_u16("65535"), Some(65535));
    assert_eq!(parse_u16("65536"), None);
    assert_eq!(parse_u16(""), None);
    assert_eq!(parse_u16("+"), None);
    assert_eq!(parse_u16("-1"), None);
    assert_eq!(parse_u16("1a"), None);
    for n in [0u16, 9, 10, 4096, 65535] {
        assert_eq!(parse_u16(&n.to_string()), Some(n));
    }
}

#[test]
fn format_u64_writes_decimal() {
    assert_eq!(format_u64(0), "0");
    assert_eq!(format_u64(12345), "12345");
    assert_eq!(format_u64(u64::MAX), u64::MAX.to_string());
}

#[test]
fn size_field_drops_trailing_zero_bytes() {
    assert_eq!(size_field_of(0), vec![0u8; std::mem::size_of::<usize>()]);
    assert_eq!(size_field_of(3), vec![3]);
    assert_eq!(size_field_of(256), vec![0, 1]);
    assert_eq!(size_field_of(0x0102_03), vec![3, 2, 1]);
}

#[test]
fn frame_layout() {
    assert_eq!(encode_frame(&[7, 8, 9]), vec![1, 3, 7, 8, 9]);
    let big = vec![5u8; 300];
    let f = encode_frame(&big);
    assert_eq!(&f[..3], &[2, 44, 1]);
    assert_eq!(f.len(), 303);
}

#[test]
fn frames_decode_to_what_was_encoded() {
    for payload in [vec![], vec![1u8], vec![0u8; 256], (0..=255u8).collect::<Vec<_>>()] {
        let mut f = encode_frame(&payload);
        let used = f.len();
        f.extend_from_slice(&[42, 43]);
        let (p, u) = decode_frame(&f).unwrap();
        assert_eq!(p, payload);
        assert_eq!(u, used);
    }
}

#[test]
fn short_input_is_incomplete() {
    assert_eq!(decode_frame(&[]).unwrap_err(), FrameError::Incomplete);
    assert_eq!(decode_frame(&[1]).unwrap_err(), FrameError::Incomplete);
    assert_eq!(decode_frame(&[1, 3, 7]).unwrap_err(), FrameError::Incomplete);
}

#[test]
fn oversized_length_field_is_refused() {
    let width = std::mem::size_of::<usize>() as u8;
    assert_eq!(size_field_len(width + 1).unwrap_err(), FrameError::SizeLimit);
    assert_eq!(size_field_len(width).unwrap(), width as usize);
    assert_eq!(decode_frame(&[width + 1, 1, 1]).unwrap_err(), FrameError::SizeLimit);
}
