use motor_monitor::framing::{cobs_decode_bytes, encode_frame, FeedResult, FrameAccumulator};

#[test]
fn stuffs_zero_bytes() {
    assert_eq!(encode_frame(&[0x11, 0x22, 0x00, 0x33]), vec![0x03, 0x11, 0x22, 0x02, 0x33, 0x00]);
    assert_eq!(encode_frame(&[]), vec![0x01, 0x00]);
    assert_eq!(encode_frame(&[0x00]), vec![0x01, 0x01, 0x00]);
    assert_eq!(encode_frame(&[0x00, 0x00]), vec![0x01, 0x01, 0x01, 0x00]);
}

#[test]
fn long_runs_are_split() {
    let payload: Vec<u8> = (1..=254).collect();
    let framed = encode_frame(&payload);
    // a full run is always followed by another block, here an empty one
    assert_eq!(framed.len(), 257);
    assert_eq!(framed[0], 0xFF);
    assert_eq!(&framed[1..255], &payload[..]);
    assert_eq!(&framed[255..], &[0x01, 0x00]);

    let mut longer = payload.clone();
    longer.push(7);
    let framed = encode_frame(&longer);
    assert_eq!(framed[0], 0xFF);
    assert_eq!(&framed[255..], &[0x02, 7, 0x00]);
}

#[test]
fn decode_undoes_encode() {
    let payloads: Vec<Vec<u8>> = vec![
        vec![],
        vec![0],
        vec![1, 2, 3],
        vec![0, 5, 0, 0, 9],
        (0..600u32).map(|i| (i % 256) as u8).collect(),
        vec![0xFF; 300],
    ];
    for p in payloads {
        let framed = encode_frame(&p);
        assert!(framed[..framed.len() - 1].iter().all(|b| *b != 0));
        assert_eq!(cobs_decode_bytes(&framed[..framed.len() - 1]), Some(p));
    }
}

#[test]
fn malformed_stuffing_is_refused() {
    assert_eq!(cobs_decode_bytes(&[]), None);
    assert_eq!(cobs_decode_bytes(&[0x05, 0x01]), None);
    assert_eq!(cobs_decode_bytes(&[0x03, 0x01, 0x00]), None);
}

#[test]
fn accumulator_returns_frame_and_rest() {
    let mut acc = FrameAccumulator::new(64);
    let mut input = encode_frame(&[4, 0, 2]);
    input.extend_from_slice(&[9, 9]);
    match acc.feed(&input) {
        FeedResult::Frame { payload, remaining } => {
            assert_eq!(payload, vec![4, 0, 2]);
            assert_eq!(remaining, vec![9, 9]);
        }
        _ => panic!("expected a frame"),
    }
}

#[test]
fn accumulator_handles_partial_reads() {
    let mut acc = FrameAccumulator::new(64);
    let framed = encode_frame(&[1, 2, 0, 3]);
    for b in &framed[..framed.len() - 1] {
        assert!(matches!(acc.feed(&[*b]), FeedResult::Consumed));
    }
    match acc.feed(&[0]) {
        FeedResult::Frame { payload, remaining } => {
            assert_eq!(payload, vec![1, 2, 0, 3]);
            assert!(remaining.is_empty());
        }
        _ => panic!("expected a frame"),
    }
    assert!(matches!(acc.feed(&[]), FeedResult::Consumed));
}

#[test]
fn accumulator_drops_oversized_frames() {
    let mut acc = FrameAccumulator::new(4);
    match acc.feed(&[1, 1, 1, 1, 1, 0, 7]) {
        FeedResult::OverFull(rest) => assert_eq!(rest, vec![7]),
        _ => panic!("expected an overfull frame"),
    }
    let mut acc = FrameAccumulator::new(4);
    assert!(matches!(acc.feed(&[1, 1, 1]), FeedResult::Consumed));
    match acc.feed(&[1, 1, 1]) {
        FeedResult::OverFull(rest) => assert_eq!(rest, vec![1, 1]),
        _ => panic!("expected an overfull frame"),
    }
}

#[test]
fn accumulator_reports_corrupt_frames_and_resynchronises() {
    let mut acc = FrameAccumulator::new(64);
    let mut input = vec![0x05, 0x01, 0x00];
    input.extend(encode_frame(&[42]));
    let rest = match acc.feed(&input) {
        FeedResult::Corrupt(rest) => rest,
        _ => panic!("expected a corrupt frame"),
    };
    match acc.feed(&rest) {
        FeedResult::Frame { payload, remaining } => {
            assert_eq!(payload, vec![42]);
            assert!(remaining.is_empty());
        }
        _ => panic!("expected a frame"),
    }
}
