use prio_pipeline::capture::CaptureRing;
use prio_pipeline::filter::{Decision, FRAME_LEN};
use prio_pipeline::pipeline::{capture_step, processing_step, CAPTURE_BATCH};
use prio_pipeline::signal::FrameSignal;

fn stereo_bytes(left: i16, frames: usize) -> Vec<u8> {
    let mut v = Vec::new();
    for _ in 0..frames {
        let b = left.to_le_bytes();
        v.extend_from_slice(&[b[0], b[1], 0x11, 0x22]);
    }
    v
}

#[test]
fn capture_then_process_loud_frame() {
    let mut ring = CaptureRing::new(3 * 4096);
    let mut sig = FrameSignal::new();
    ring.push(&stereo_bytes(-80, FRAME_LEN));
    assert!(capture_step(&mut ring, &mut sig, CAPTURE_BATCH));
    assert_eq!(ring.available(), 0);
    assert_eq!(processing_step(&mut sig), Some(Decision { amplitude: 80, active: true }));
    assert_eq!(processing_step(&mut sig), None);
}

#[test]
fn short_batch_publishes_nothing() {
    let mut ring = CaptureRing::new(4096);
    let mut sig = FrameSignal::new();
    ring.push(&stereo_bytes(500, FRAME_LEN - 1));
    assert!(!capture_step(&mut ring, &mut sig, CAPTURE_BATCH));
    assert_eq!(ring.available(), 0);
    assert_eq!(processing_step(&mut sig), None);
}

#[test]
fn only_latest_frame_is_processed() {
    let mut ring = CaptureRing::new(4096);
    let mut sig = FrameSignal::new();
    ring.push(&stereo_bytes(200, FRAME_LEN));
    assert!(capture_step(&mut ring, &mut sig, CAPTURE_BATCH));
    ring.push(&stereo_bytes(20, FRAME_LEN));
    assert!(capture_step(&mut ring, &mut sig, CAPTURE_BATCH));
    assert_eq!(processing_step(&mut sig), Some(Decision { amplitude: 20, active: false }));
}
