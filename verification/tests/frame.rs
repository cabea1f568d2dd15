use vr_lab_server::frame::{FrameError, LengthDelimMessage};

#[test]
fn header_is_big_endian() {
    let m = LengthDelimMessage::from_payload(vec![7u8; 258]);
    assert_eq!(m.len, 258);
    assert_eq!(m.header(), [0, 0, 1, 2]);
    assert_eq!(m.header(), 258u32.to_be_bytes());
    let m = LengthDelimMessage { len: 0x0A0B0C0D, bytes: vec![] };
    assert_eq!(m.header(), [0x0A, 0x0B, 0x0C, 0x0D]);
}

#[test]
fn header_round_trip() {
    for n in [0u32, 1, 255, 256, 65_535, 16_777_216, u32::MAX] {
        let m = LengthDelimMessage { len: n, bytes: vec![] };
        assert_eq!(LengthDelimMessage::parse_header(m.header(), 4), Ok(n));
    }
}

#[test]
fn short_header_is_refused() {
    assert_eq!(LengthDelimMessage::parse_header([0, 0, 0, 5], 3), Err(FrameError::ShortHeader { read: 3 }));
    assert_eq!(LengthDelimMessage::parse_header([0, 0, 0, 5], 0), Err(FrameError::ShortHeader { read: 0 }));
}

#[test]
fn payload_frame() {
    let m = LengthDelimMessage::from_payload(b"{\"id\":\"x\"}".to_vec());
    assert_eq!(m.len, 10);
    assert_eq!(m.bytes, b"{\"id\":\"x\"}".to_vec());
}

