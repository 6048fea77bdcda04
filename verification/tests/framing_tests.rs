use netvr::framing::{
    check_setup_frame, decode_frame, encode_frame, frame_header, frame_length, FrameDecode,
    FramingError, StreamKind,
};

#[test]
fn header_is_little_endian() {
    assert_eq!(frame_header(0x0102), [2, 1, 0, 0, 0, 0, 0, 0]);
    assert_eq!(frame_length([2, 1, 0, 0, 0, 0, 0, 0]), 0x0102);
    assert_eq!(frame_length([0xff; 8]), u64::MAX);
    assert_eq!(frame_header(u64::MAX), [0xff; 8]);
    assert_eq!(frame_header(5), 5usize.to_le_bytes());
}

#[test]
fn frame_roundtrip_with_trailing_bytes() {
    let payload = vec![1u8, 2, 3];
    let mut buf = encode_frame(&payload);
    assert_eq!(buf, vec![3, 0, 0, 0, 0, 0, 0, 0, 1, 2, 3]);
    buf.extend_from_slice(&[9, 9]);
    match decode_frame(&buf) {
        FrameDecode::Frame { payload: p, consumed } => {
            assert_eq!(p, payload);
            assert_eq!(consumed, 11);
        }
        FrameDecode::Incomplete => panic!("expected a frame"),
    }
}

#[test]
fn empty_payload_frame() {
    let buf = encode_frame(&[]);
    assert_eq!(buf.len(), 8);
    assert!(matches!(decode_frame(&buf), FrameDecode::Frame { consumed: 8, .. }));
}

#[test]
fn partial_frames_are_incomplete() {
    assert!(matches!(decode_frame(&[1, 0, 0]), FrameDecode::Incomplete));
    assert!(matches!(decode_frame(&[2, 0, 0, 0, 0, 0, 0, 0, 7]), FrameDecode::Incomplete));
    assert!(matches!(decode_frame(&[0xff; 16]), FrameDecode::Incomplete));
}

#[test]
fn setup_frame_must_match() {
    let id = StreamKind::Heartbeat.id();
    assert_eq!(&id, b"heartbee");
    assert!(check_setup_frame(id, *b"heartbee").is_ok());
    match check_setup_frame(*b"configur", id) {
        Err(FramingError::InvalidSetupFrame(received, expected)) => {
            assert_eq!(&received, b"configur");
            assert_eq!(&expected, b"heartbee");
        }
        _ => panic!("expected an invalid setup frame"),
    }
}

#[test]
fn stream_ids() {
    assert_eq!(&StreamKind::ConfigurationUp.id(), b"configur");
    assert_eq!(&StreamKind::ConfigurationDown.id(), b"confetti");
    assert_eq!(&StreamKind::Calibration.id(), b"calibrat");
    assert_eq!(&StreamKind::AppUp.id(), b"app_up__");
    assert_eq!(&StreamKind::AppDown.id(), b"app_down");
    let all = [
        StreamKind::Heartbeat,
        StreamKind::ConfigurationUp,
        StreamKind::ConfigurationDown,
        StreamKind::Calibration,
        StreamKind::AppUp,
        StreamKind::AppDown,
    ];
    for a in all {
        for b in all {
            assert_eq!(a == b, a.id() == b.id());
        }
    }
}
