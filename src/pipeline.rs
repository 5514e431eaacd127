//! One step of each side of the sound pipeline: the capture side drains the
//! ring and publishes a frame, the processing side takes the latest frame
//! and decides.
use vstd::prelude::*;
use crate::capture::{extract_frame, frame_of, CaptureRing, BYTES_PER_FRAME};
use crate::filter::{frame_decision, process_frame, Decision, FRAME_LEN};
use crate::signal::{after_publish, all_full, pending_frames, taken, FrameSignal};

verus! {

/// Largest batch the capture side drains at once.
pub const CAPTURE_BATCH: usize = 8192;

/// Capture side: drains up to `max_batch` unread bytes from the ring and, when
/// the batch holds a whole frame, publishes that frame. Returns whether it
/// published.
pub fn capture_step(ring: &mut CaptureRing, signal: &mut FrameSignal, max_batch: usize) -> (r:
    bool)
    requires
        old(ring).wf(),
    ensures
        final(ring).wf(),
        final(ring).capacity() == old(ring).capacity(),
        final(ring).history() == old(ring).history(),
        ({
            let n = if max_batch < old(ring).unread().len() {
                max_batch as int
            } else {
                old(ring).unread().len() as int
            };
            let batch = old(ring).unread().take(n);
            &&& final(ring).consumed() == old(ring).consumed() + n
            &&& r == (n >= FRAME_LEN * BYTES_PER_FRAME)
            &&& r ==> pending_frames(*final(signal)) == after_publish(
                pending_frames(*old(signal)),
                frame_of(batch),
            )
            &&& !r ==> pending_frames(*final(signal)) == pending_frames(*old(signal))
        }),
        all_full(pending_frames(*old(signal))) ==> all_full(pending_frames(*final(signal))),
{
    let ghost unread = ring.unread();
    let ghost h = ring.history();
    let ghost c = ring.consumed();
    proof {
        ring.lemma_bounds();
    }
    let batch = ring.pop(max_batch);
    assert forall|i: int| 0 <= i < batch@.len() implies batch@[i] == unread.take(
        batch@.len() as int,
    )[i] by {
        assert(batch@[i] == h[c + i]);
        assert(unread[i] == h[c + i]);
    }
    assert(batch@ =~= unread.take(batch@.len() as int));
    match extract_frame(&batch) {
        Some(frame) => {
            signal.publish(frame);
            true
        },
        None => false,
    }
}

/// Decision owed for the slot contents `pending`: none when nothing is
/// pending, else the decision on the pending frame.
pub open spec fn step_decision(pending: Seq<Seq<i16>>) -> Option<Decision> {
    match taken(pending) {
        Some(f) => Some(frame_decision(f)),
        None => None,
    }
}

/// Processing side: takes the latest frame, if any, and decides on it.
pub fn processing_step(signal: &mut FrameSignal) -> (r: Option<Decision>)
    requires
        all_full(pending_frames(*old(signal))),
    ensures
        r == step_decision(pending_frames(*old(signal))),
        pending_frames(*final(signal)) == Seq::<Seq<i16>>::empty(),
        all_full(pending_frames(*final(signal))),
{
    match signal.try_take() {
        Some(frame) => {
            proof {
                let p = pending_frames(*old(signal));
                assert(p[p.len() - 1].len() == FRAME_LEN);
            }
            Some(process_frame(&frame))
        },
        None => None,
    }
}

} // verus!
