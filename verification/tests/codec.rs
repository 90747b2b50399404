use stream_session::codec::{chunk_to_frame, frame_to_chunk};

fn expected_le_bytes(samples: &[i16]) -> Vec<u8> {
    let mut out = Vec::new();
    for s in samples {
        out.extend_from_slice(&s.to_le_bytes());
    }
    out
}

#[test]
fn round_trip_known_samples() {
    let samples: Vec<i16> = vec![1, -1, 32767, -32768];
    let frame = chunk_to_frame(&samples);
    assert_eq!(frame.len(), 8);
    assert_eq!(frame, vec![0x01, 0x00, 0xff, 0xff, 0xff, 0x7f, 0x00, 0x80]);
    let decoded = frame_to_chunk(&frame);
    assert_eq!(decoded, Some(samples));
}

#[test]
fn frame_bytes_match_le_reinterpretation() {
    let samples: Vec<i16> = vec![258, -2, 0, 17000, -17000];
    let frame = chunk_to_frame(&samples);
    assert_eq!(frame, expected_le_bytes(&samples));
}

#[test]
fn empty_chunk_gives_empty_frame() {
    let samples: Vec<i16> = vec![];
    let frame = chunk_to_frame(&samples);
    assert!(frame.is_empty());
    assert_eq!(frame_to_chunk(&frame), Some(vec![]));
}

#[test]
fn odd_length_frame_is_rejected() {
    let frame: Vec<u8> = vec![1, 2, 3];
    assert_eq!(frame_to_chunk(&frame), None);
}

#[test]
fn decode_inverts_encode_for_every_sample_extreme() {
    for s in [i16::MIN, -1, 0, 1, i16::MAX, 256, -256] {
        let samples = vec![s];
        let frame = chunk_to_frame(&samples);
        assert_eq!(frame.len(), 2);
        assert_eq!(frame_to_chunk(&frame), Some(samples));
    }
}
