//! The cursor tracker: an append-only timestamped log of pointer positions,
//! filled by a fixed-rate sampling loop that runs outside the library and
//! hands each observed position to [`MouseTracker::record_sample`].

use vstd::prelude::*;

verus! {

/// One pointer sample: position in screen coordinates and the time since
/// recording start at which it was taken.
#[derive(Debug, Clone, Copy, PartialEq, Eq, Structural)]
pub struct MousePosition {
    pub x: i64,
    pub y: i64,
    pub timestamp_ms: u64,
}

/// Records pointer positions while running. The in-memory log is exclusively
/// owned here until it is handed out for persistence at stop time.
pub struct MouseTracker {
    /// The samples recorded so far, in order of arrival.
    pub positions: Vec<MousePosition>,
    /// Whether the sampling loop is (to be) running.
    pub running: bool,
}

impl MouseTracker {
    /// A tracker with an empty log, not yet running.
    pub fn new() -> (t: MouseTracker)
        ensures
            t.positions@.len() == 0,
            !t.running,
    {
        MouseTracker { positions: Vec::new(), running: false }
    }

    /// Mark the sampling loop as running.
    pub fn start(&mut self)
        ensures
            *final(self) == (MouseTracker { running: true, ..*old(self) }),
    {
        self.running = true;
    }

    /// Append one observed pointer position to the log.
    pub fn record_sample(&mut self, x: i64, y: i64, timestamp_ms: u64)
        requires
            old(self).running,
        ensures
            final(self).running == old(self).running,
            final(self).positions@ == old(self).positions@.push(
                MousePosition { x, y, timestamp_ms },
            ),
    {
        self.positions.push(MousePosition { x, y, timestamp_ms });
    }

    /// Signal the sampling loop to exit. After the driving thread observes
    /// this and finishes, no further sample is appended.
    pub fn stop(&mut self)
        ensures
            *final(self) == (MouseTracker { running: false, ..*old(self) }),
    {
        self.running = false;
    }

    /// The samples recorded so far.
    pub fn samples(&self) -> (r: &Vec<MousePosition>)
        ensures
            r == &self.positions,
    {
        &self.positions
    }
}

} // verus!
