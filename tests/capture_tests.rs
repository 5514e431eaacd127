use prio_pipeline::capture::{decode_samples, extract_frame, sample_from_le, CaptureRing};
use prio_pipeline::filter::FRAME_LEN;

#[test]
fn ring_pops_in_push_order_without_duplicates() {
    let mut ring = CaptureRing::new(8);
    ring.push(&[1, 2, 3]);
    assert_eq!(ring.available(), 3);
    assert_eq!(ring.pop(2), vec![1, 2]);
    ring.push(&[4, 5, 6, 7, 8]);
    assert_eq!(ring.available(), 6);
    assert_eq!(ring.pop(4), vec![3, 4, 5, 6]);
    ring.push(&[9, 10, 11, 12, 13, 14]);
    assert_eq!(ring.pop(100), vec![7, 8, 9, 10, 11, 12, 13, 14]);
    assert_eq!(ring.pop(100), Vec::<u8>::new());
    assert_eq!(ring.available(), 0);
}

#[test]
fn ring_overflow_drops_oldest() {
    let mut ring = CaptureRing::new(4);
    ring.push(&[1, 2, 3]);
    ring.push(&[4, 5, 6]);
    assert_eq!(ring.available(), 4);
    assert_eq!(ring.pop(10), vec![3, 4, 5, 6]);
    ring.push(&[10, 11, 12, 13, 14, 15, 16, 17, 18]);
    assert_eq!(ring.pop(10), vec![15, 16, 17, 18]);
}

#[test]
fn ring_zero_length_pop() {
    let mut ring = CaptureRing::new(3);
    ring.push(&[9]);
    assert_eq!(ring.pop(0), Vec::<u8>::new());
    assert_eq!(ring.available(), 1);
}

#[test]
fn little_endian_samples() {
    assert_eq!(sample_from_le(0x34, 0x12), 0x1234);
    assert_eq!(sample_from_le(0xff, 0xff), -1);
    assert_eq!(sample_from_le(0x00, 0x80), i16::MIN);
    assert_eq!(sample_from_le(0xff, 0x7f), i16::MAX);
    assert_eq!(decode_samples(&[1, 0, 2, 0, 3], 2), vec![1, 2]);
    assert_eq!(decode_samples(&[1, 0, 9, 9, 0xfe, 0xff, 9, 9, 7], 4), vec![1, -2]);
}

#[test]
fn frame_needs_a_whole_stereo_frame() {
    assert_eq!(extract_frame(&vec![0u8; FRAME_LEN * 4 - 1]), None);
    let batch: Vec<u8> = (0..FRAME_LEN * 4 + 3).map(|i| (i % 251) as u8).collect();
    let f = extract_frame(&batch).unwrap();
    assert_eq!(f.len(), FRAME_LEN);
    for k in 0..FRAME_LEN {
        assert_eq!(f[k], i16::from_le_bytes([batch[4 * k], batch[4 * k + 1]]));
    }
}
