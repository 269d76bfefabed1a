use webtags_host::messaging::{frame, message_length, FrameError};

#[test]
fn test_read_message_too_large() {
    let length = 2_000_000u32.to_le_bytes();
    let result = message_length(&length);
    assert!(result.is_err());
    assert_eq!(result.unwrap_err(), FrameError::TooLarge);
}

#[test]
fn length_prefix_is_little_endian() {
    assert_eq!(message_length(&[5, 0, 0, 0]), Ok(5));
    assert_eq!(message_length(&[0x40, 0x42, 0x0f, 0x00]), Ok(1_000_000));
    assert_eq!(message_length(&[0x41, 0x42, 0x0f, 0x00]), Err(FrameError::TooLarge));
}

#[test]
fn framing_prefixes_the_length() {
    let body = b"{\"type\":\"status\"}";
    let framed = frame(body).unwrap();
    assert_eq!(framed.len(), body.len() + 4);
    let length = u32::from_le_bytes([framed[0], framed[1], framed[2], framed[3]]);
    assert_eq!(length as usize, framed.len() - 4);
    assert_eq!(&framed[4..], &body[..]);
    assert_eq!(message_length(&framed[..4]), Ok(body.len()));
    assert_eq!(frame(&[]).unwrap(), vec![0, 0, 0, 0]);
}
