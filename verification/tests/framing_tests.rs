use ssh_migrator::framing::{encode_frame, frame_header, frame_payload_len, FrameError};
use ssh_migrator::protocol::MAX_FRAME_SIZE;

#[test]
fn header_is_big_endian_length() {
    assert_eq!(frame_header(0), [0, 0, 0, 0]);
    assert_eq!(frame_header(5), [0, 0, 0, 5]);
    assert_eq!(frame_header(0x0102_0304), [1, 2, 3, 4]);
    assert_eq!(frame_header(MAX_FRAME_SIZE), [4, 0, 0, 0]);
}

#[test]
fn header_truncates_to_32_bits() {
    if usize::BITS > 32 {
        let len = (1usize << 32) + 7;
        assert_eq!(frame_header(len), [0, 0, 0, 7]);
    }
}

#[test]
fn frame_is_header_then_payload() {
    assert_eq!(encode_frame(b"abc"), vec![0, 0, 0, 3, b'a', b'b', b'c']);
    assert_eq!(encode_frame(b""), vec![0, 0, 0, 0]);
}

#[test]
fn reader_accepts_up_to_the_limit() {
    assert_eq!(frame_payload_len([0, 0, 0, 5]), Ok(5));
    assert_eq!(frame_payload_len([4, 0, 0, 0]), Ok(MAX_FRAME_SIZE));
}

#[test]
fn reader_refuses_oversized_frames() {
    assert_eq!(
        frame_payload_len([4, 0, 0, 1]),
        Err(FrameError::TooLarge { len: 0x0400_0001 })
    );
    assert_eq!(
        frame_payload_len([255, 255, 255, 255]),
        Err(FrameError::TooLarge { len: 0xffff_ffff })
    );
}

#[test]
fn frame_roundtrip() {
    let payload: Vec<u8> = (0..1000u32).map(|i| (i % 251) as u8).collect();
    let frame = encode_frame(&payload);
    let header = [frame[0], frame[1], frame[2], frame[3]];
    let len = frame_payload_len(header).unwrap();
    assert_eq!(len, payload.len());
    assert_eq!(&frame[4..4 + len], &payload[..]);
}
