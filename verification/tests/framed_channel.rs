use framing::channel::MemoryStream;
use framing::frame::{be_to_u32, encode_frame, FrameError};
use framing::DynamicTcpStream;

#[test]
fn test_read_write() {
    let mut stream = MemoryStream::new();
    stream.write_entire_message(b"Hello world").unwrap();
    assert_eq!(
        "Hello world".to_string(),
        String::from_utf8_lossy(&stream.read_entire_message().unwrap())
    );
}

#[test]
fn hello_world_wire_bytes() {
    let mut stream = MemoryStream::new();
    stream.write_entire_message(b"Hello world").unwrap();
    let mut expected: Vec<u8> = vec![0x00, 0x00, 0x00, 0x0B];
    expected.extend_from_slice(b"Hello world");
    assert_eq!(stream.wire_bytes(), expected);
}

#[test]
fn empty_message_round_trip() {
    let mut stream = MemoryStream::new();
    stream.write_entire_message(&[]).unwrap();
    assert_eq!(stream.wire_bytes(), vec![0x00, 0x00, 0x00, 0x00]);
    let msg = stream.read_entire_message().unwrap();
    assert!(msg.is_empty());
}

#[test]
fn binary_message_round_trip() {
    let payload: Vec<u8> = vec![0x00, 0xFF, 0x0A, 0x00, 0x0D, 0x80, 0x7F];
    let mut stream = MemoryStream::new();
    stream.write_entire_message(&payload).unwrap();
    assert_eq!(stream.read_entire_message().unwrap(), payload);
}

#[test]
fn three_messages_in_order() {
    let m1: Vec<u8> = vec![1, 2, 3];
    let m2: Vec<u8> = Vec::new();
    let m3: Vec<u8> = vec![255, 0, 255, 42];
    let mut stream = MemoryStream::new();
    stream.write_entire_message(&m1).unwrap();
    stream.write_entire_message(&m2).unwrap();
    stream.write_entire_message(&m3).unwrap();
    assert_eq!(stream.read_entire_message().unwrap(), m1);
    assert_eq!(stream.read_entire_message().unwrap(), m2);
    assert_eq!(stream.read_entire_message().unwrap(), m3);
    assert_eq!(
        stream.read_entire_message().unwrap_err(),
        FrameError::TruncatedHeader
    );
}

#[test]
fn truncated_header_detected() {
    let mut empty = MemoryStream::new();
    assert_eq!(
        empty.read_entire_message().unwrap_err(),
        FrameError::TruncatedHeader
    );

    let mut short = MemoryStream::from_bytes(vec![0x00, 0x00, 0x01]);
    assert_eq!(
        short.read_entire_message().unwrap_err(),
        FrameError::TruncatedHeader
    );
}

#[test]
fn truncated_payload_detected() {
    // Header announces 5 payload bytes; only 2 arrive before the end.
    let mut stream = MemoryStream::from_bytes(vec![0x00, 0x00, 0x00, 0x05, 0xAA, 0xBB]);
    assert_eq!(
        stream.read_entire_message().unwrap_err(),
        FrameError::TruncatedPayload
    );
    // Nothing was consumed: the same error comes again.
    assert_eq!(
        stream.read_entire_message().unwrap_err(),
        FrameError::TruncatedPayload
    );
}

#[test]
fn length_prefix_multibyte() {
    let payload: Vec<u8> = vec![7u8; 300];
    let mut stream = MemoryStream::new();
    stream.write_entire_message(&payload).unwrap();
    let wire = stream.wire_bytes();
    // 300 = 0x012C, big-endian across the four header bytes.
    assert_eq!(&wire[0..4], &[0x00, 0x00, 0x01, 0x2C]);
    assert_eq!(wire.len(), 304);
    assert_eq!(stream.read_entire_message().unwrap(), payload);
}

#[test]
fn encode_frame_concrete() {
    let framed = encode_frame(&[1, 2, 3]).unwrap();
    assert_eq!(framed, vec![0x00, 0x00, 0x00, 0x03, 1, 2, 3]);
}

#[test]
fn message_too_large_detected() {
    // The header alone announces 4 GiB; a capped reader refuses it before
    // waiting for (or allocating) any payload.
    let mut stream = MemoryStream::from_bytes(vec![0xFF, 0xFF, 0xFF, 0xFF]);
    stream.set_max_message_len(1024);
    assert_eq!(
        stream.read_entire_message().unwrap_err(),
        FrameError::TooLarge
    );

    // A capped loopback still passes messages within the ceiling and
    // refuses ones beyond it.
    let mut capped = MemoryStream::new();
    capped.set_max_message_len(4);
    capped.write_entire_message(&[1, 2, 3, 4]).unwrap();
    capped.write_entire_message(&[1, 2, 3, 4, 5]).unwrap();
    assert_eq!(capped.read_entire_message().unwrap(), vec![1, 2, 3, 4]);
    assert_eq!(
        capped.read_entire_message().unwrap_err(),
        FrameError::TooLarge
    );
}

#[test]
fn be_decode_concrete() {
    assert_eq!(be_to_u32(0x00, 0x00, 0x00, 0x0B), 11);
    assert_eq!(be_to_u32(0x01, 0x02, 0x03, 0x04), 0x01020304);
    assert_eq!(be_to_u32(0xFF, 0xFF, 0xFF, 0xFF), u32::MAX);
}

#[test]
fn writes_append_to_the_wire_log() {
    let mut stream = MemoryStream::new();
    stream.write_entire_message(&[1]).unwrap();
    stream.write_entire_message(&[2, 3]).unwrap();
    assert_eq!(
        stream.wire_bytes(),
        vec![0x00, 0x00, 0x00, 0x01, 1, 0x00, 0x00, 0x00, 0x02, 2, 3]
    );
    // Reading consumes frames but leaves the log intact.
    assert_eq!(stream.read_entire_message().unwrap(), vec![1]);
    assert_eq!(stream.wire_bytes().len(), 11);
}
