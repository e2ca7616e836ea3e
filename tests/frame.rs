use rs_chat::frame::{put_u32, read_u32, Cursor, Frame, FrameError};

#[test]
fn round_trip_u32() {
    let u: u32 = u32::MAX;
    let mut out: Vec<u8> = Vec::new();

    put_u32(&mut out, u);

    let mut cursor = Cursor::new(&out[..]);
    let res = read_u32(&mut cursor).unwrap();

    assert_eq!(u, res);
}

#[test]
fn incomplete_u32() {
    let mut out: Vec<u8> = Vec::new();
    out.extend_from_slice(&u16::MAX.to_be_bytes());

    let mut cursor = Cursor::new(&out[..]);
    assert_eq!(read_u32(&mut cursor).unwrap_err(), FrameError::Incomplete);
}

#[test]
fn write_frame() {
    let frame =
        Frame::from("some really long string that has to get encoded with utf8 Здравствуйте");
    let out = frame.to_bytes();

    let mut cursor = Cursor::new(&out[..]);
    let parsed = Frame::parse(&mut cursor).unwrap();
    assert_eq!(frame, parsed);
}

#[test]
fn put_u32_is_big_endian() {
    let mut out: Vec<u8> = vec![9];
    put_u32(&mut out, 0x0102_0304);
    assert_eq!(out, vec![9, 1, 2, 3, 4]);
}

#[test]
fn read_u32_advances_by_four() {
    let bytes = [0u8, 0, 1, 0, 7];
    let mut cursor = Cursor::new(&bytes[..]);
    assert_eq!(read_u32(&mut cursor).unwrap(), 256);
    assert_eq!(cursor.position(), 4);
    assert_eq!(read_u32(&mut cursor).unwrap_err(), FrameError::Incomplete);
    assert_eq!(cursor.position(), 4);
}

#[test]
fn frame_bytes_are_length_then_payload() {
    let frame = Frame::from("héllo");
    assert_eq!(frame.to_bytes(), vec![0, 0, 0, 6, b'h', 0xc3, 0xa9, b'l', b'l', b'o']);
}

#[test]
fn round_trip_ascii_and_empty() {
    for text in ["hello", "", "Здравствуйте"] {
        let frame = Frame::new(text.to_string());
        let mut bytes = frame.to_bytes();
        bytes.extend_from_slice(&[1, 2, 3]);
        let mut cursor = Cursor::new(&bytes[..]);
        let parsed = Frame::parse(&mut cursor).unwrap();
        assert_eq!(parsed.raw(), text);
        assert_eq!(cursor.position(), 4 + text.len());
    }
}

#[test]
fn parse_of_short_header_is_incomplete_and_keeps_position() {
    let bytes = [0xffu8, 0xff];
    let mut cursor = Cursor::new(&bytes[..]);
    assert_eq!(Frame::parse(&mut cursor).unwrap_err(), FrameError::Incomplete);
    assert_eq!(cursor.position(), 0);
}

#[test]
fn parse_of_largest_header_without_payload_is_incomplete() {
    let bytes = [0xffu8, 0xff, 0xff, 0xff, b'a', b'b'];
    let mut cursor = Cursor::new(&bytes[..]);
    assert_eq!(Frame::parse(&mut cursor).unwrap_err(), FrameError::Incomplete);
    assert_eq!(cursor.position(), 0);
    assert_eq!(read_u32(&mut cursor).unwrap(), u32::MAX);
}

#[test]
fn parse_of_short_payload_is_incomplete() {
    let bytes = [0u8, 0, 0, 3, b'a', b'b'];
    let mut cursor = Cursor::new(&bytes[..]);
    assert_eq!(Frame::parse(&mut cursor).unwrap_err(), FrameError::Incomplete);
    assert_eq!(cursor.position(), 0);
}

#[test]
fn parse_rejects_invalid_utf8() {
    let bytes = [0u8, 0, 0, 2, 0xc3, 0x28];
    let mut cursor = Cursor::new(&bytes[..]);
    assert_eq!(Frame::parse(&mut cursor).unwrap_err(), FrameError::InvalidUtf8);
    assert_eq!(cursor.position(), 0);
}

#[test]
fn two_frames_in_a_row() {
    let mut bytes = Frame::from("one").to_bytes();
    bytes.extend(Frame::from("two").to_bytes());
    let mut cursor = Cursor::new(&bytes[..]);
    assert_eq!(Frame::parse(&mut cursor).unwrap().raw(), "one");
    assert_eq!(Frame::parse(&mut cursor).unwrap().raw(), "two");
    assert_eq!(Frame::parse(&mut cursor).unwrap_err(), FrameError::Incomplete);
}
