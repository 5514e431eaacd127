//! Decision units for a polled digital input and the output that they drive.
use vstd::prelude::*;

verus! {

/// A one-shot request to flip the output.
#[derive(Clone, Copy, Debug, PartialEq, Eq, Structural)]
pub enum Event {
    Toggle,
}

/// Falling-edge detector over a level polled at a fixed interval; the fixed
/// interval is the only debouncing.
pub struct EdgeDetector {
    last_high: bool,
}

impl EdgeDetector {
    /// Level seen at the last poll (or at start).
    pub closed spec fn was_high_spec(&self) -> bool {
        self.last_high
    }

    /// A detector whose previous observation is `initial_high`.
    pub fn new(initial_high: bool) -> (r: EdgeDetector)
        ensures
            r.was_high_spec() == initial_high,
    {
        EdgeDetector { last_high: initial_high }
    }

    /// Level seen at the last poll (or at start).
    pub fn was_high(&self) -> (r: bool)
        ensures
            r == self.was_high_spec(),
    {
        self.last_high
    }

    /// Records the level `high` and reports a toggle exactly when the
    /// previous level was high and this one is low.
    pub fn poll(&mut self, high: bool) -> (r: Option<Event>)
        ensures
            r == (if old(self).was_high_spec() && !high {
                Some(Event::Toggle)
            } else {
                None
            }),
            final(self).was_high_spec() == high,
    {
        let fell = self.last_high && !high;
        self.last_high = high;
        if fell {
            Some(Event::Toggle)
        } else {
            None
        }
    }
}

/// A discrete output line.
pub struct OutputLevel {
    high: bool,
}

impl OutputLevel {
    /// Current level of the line.
    pub closed spec fn is_high_spec(&self) -> bool {
        self.high
    }

    /// A line driven at `high`.
    pub fn new(high: bool) -> (r: OutputLevel)
        ensures
            r.is_high_spec() == high,
    {
        OutputLevel { high }
    }

    /// Current level of the line.
    pub fn is_high(&self) -> (r: bool)
        ensures
            r == self.is_high_spec(),
    {
        self.high
    }

    /// Drives the line to `high`; setting the same level again changes nothing.
    pub fn set_level(&mut self, high: bool)
        ensures
            final(self).is_high_spec() == high,
    {
        self.high = high;
    }

    /// Applies an event: a toggle flips the line, no event leaves it.
    pub fn apply(&mut self, event: Option<Event>)
        ensures
            final(self).is_high_spec() == (old(self).is_high_spec() != (event is Some)),
    {
        if event.is_some() {
            self.high = !self.high;
        }
    }
}

} // verus!
