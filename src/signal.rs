//! Single-slot, latest-value-wins mailbox handing captured frames from the
//! capture context to the processing context. The slot itself is
//! embassy-sync's `Signal`, guarded by a critical-section mutex.
use vstd::prelude::*;
use embassy_sync::blocking_mutex::raw::CriticalSectionRawMutex;
use embassy_sync::signal::Signal;
use crate::filter::FRAME_LEN;

verus! {

/// A single-slot signal carrying frames of samples.
#[verifier::external_body]
pub struct FrameSignal {
    inner: Signal<CriticalSectionRawMutex, Vec<i16>>,
}

/// The values held by the slot: empty, or the one pending frame.
pub uninterp spec fn pending_frames(s: FrameSignal) -> Seq<Seq<i16>>;

/// Every frame held by the slot is a whole frame of `FRAME_LEN` samples.
pub open spec fn all_full(pending: Seq<Seq<i16>>) -> bool {
    forall|i: int| 0 <= i < pending.len() ==> (#[trigger] pending[i]).len() == FRAME_LEN
}

/// Slot contents after publishing `frame`: whatever was pending is replaced.
pub open spec fn after_publish(pending: Seq<Seq<i16>>, frame: Seq<i16>) -> Seq<Seq<i16>> {
    seq![frame]
}

/// Slot contents after publishing each of `frames` in turn.
pub open spec fn after_publish_all(pending: Seq<Seq<i16>>, frames: Seq<Seq<i16>>) -> Seq<
    Seq<i16>,
>
    decreases frames.len(),
{
    if frames.len() == 0 {
        pending
    } else {
        after_publish(after_publish_all(pending, frames.drop_last()), frames.last())
    }
}

/// Value a take hands out from a slot holding `pending`.
pub open spec fn taken(pending: Seq<Seq<i16>>) -> Option<Seq<i16>> {
    if pending.len() == 0 {
        None
    } else {
        Some(pending.last())
    }
}

impl FrameSignal {
    /// Relies on embassy_sync's `Signal::new`: the slot starts empty.
    #[verifier::external_body]
    pub fn new() -> (r: FrameSignal)
        ensures
            pending_frames(r) == Seq::<Seq<i16>>::empty(),
    {
        FrameSignal { inner: Signal::new() }
    }

    /// Relies on embassy_sync's `Signal::signal`: stores `frame`, replacing
    /// any value not yet taken. Only whole frames are published.
    #[verifier::external_body]
    pub fn publish(&mut self, frame: Vec<i16>)
        requires
            frame@.len() == FRAME_LEN,
        ensures
            pending_frames(*final(self)) == after_publish(pending_frames(*old(self)), frame@),
    {
        self.inner.signal(frame)
    }

    /// Relies on embassy_sync's `Signal::try_take`: removes and returns the
    /// pending value if there is one; the slot is empty afterwards.
    #[verifier::external_body]
    pub fn try_take(&mut self) -> (r: Option<Vec<i16>>)
        ensures
            pending_frames(*final(self)) == Seq::<Seq<i16>>::empty(),
            r is None <==> pending_frames(*old(self)).len() == 0,
            r matches Some(v) ==> taken(pending_frames(*old(self))) == Some(v@),
    {
        self.inner.try_take()
    }
}

/// Whatever was pending before, a take that follows one or more publishes
/// returns the last published frame, and leaves nothing behind for a later
/// take.
pub proof fn lemma_latest_wins(pending: Seq<Seq<i16>>, frames: Seq<Seq<i16>>)
    requires
        frames.len() >= 1,
    ensures
        after_publish_all(pending, frames) == seq![frames.last()],
        taken(after_publish_all(pending, frames)) == Some(frames.last()),
{
}

} // verus!
