use rs_chat::buffer::ReadBuffer;
use rs_chat::frame::{Frame, FrameError};
use rs_chat::Error;

#[test]
fn frame_arrives_in_pieces() {
    let bytes = Frame::from("Здравствуйте").to_bytes();
    let mut buffer = ReadBuffer::new();
    buffer.push(&bytes[..3]);
    assert!(matches!(buffer.parse_frame(), Ok(None)));
    assert_eq!(buffer.len(), 3);
    buffer.push(&bytes[3..10]);
    assert!(matches!(buffer.parse_frame(), Ok(None)));
    buffer.push(&bytes[10..]);
    let frame = buffer.parse_frame().unwrap().unwrap();
    assert_eq!(frame.raw(), "Здравствуйте");
    assert_eq!(buffer.len(), 0);
}

#[test]
fn leftover_bytes_stay_for_the_next_frame() {
    let mut bytes = Frame::from("a").to_bytes();
    bytes.extend(Frame::from("bc").to_bytes());
    let mut buffer = ReadBuffer::new();
    buffer.push(&bytes);
    assert_eq!(buffer.parse_frame().unwrap().unwrap().raw(), "a");
    assert_eq!(buffer.len(), 6);
    assert_eq!(buffer.parse_frame().unwrap().unwrap().raw(), "bc");
    assert!(matches!(buffer.parse_frame(), Ok(None)));
}

#[test]
fn end_of_stream_with_empty_buffer_is_clean() {
    let buffer = ReadBuffer::new();
    assert!(matches!(buffer.at_end(), Ok(None)));
}

#[test]
fn end_of_stream_mid_frame_is_reset() {
    let mut buffer = ReadBuffer::new();
    buffer.push(&[0, 0, 0, 5, b'h']);
    assert!(matches!(buffer.parse_frame(), Ok(None)));
    assert!(matches!(buffer.at_end(), Err(Error::ConnectionResetByPeer)));
}

#[test]
fn invalid_utf8_is_an_error_and_keeps_the_bytes() {
    let mut buffer = ReadBuffer::new();
    buffer.push(&[0, 0, 0, 1, 0xff]);
    assert!(matches!(
        buffer.parse_frame(),
        Err(Error::FrameError(FrameError::InvalidUtf8))
    ));
    assert_eq!(buffer.len(), 5);
}

#[test]
fn frame_error_converts() {
    let e: Error = Error::from(FrameError::Incomplete);
    assert!(matches!(e, Error::FrameError(FrameError::Incomplete)));
}
