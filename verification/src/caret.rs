//! Where the text caret is: the dictation indicator can stand next to it.
//!
//! The application looks for the caret on a thread of its own (Win32 first, then
//! UI Automation, which may take tens of milliseconds) while the indicator is
//! shown, and records what it found here; drawing takes the recorded result.
use vstd::prelude::*;
use crate::overlay::Point;

verus! {

/// How long a found position stays good, ms (the caret may vanish with the focus).
pub const FRESH_MS: u64 = 1500;

/// A found caret position (the bottom of the caret, on the screen), when it was
/// found (ms) and where it came from (for the log).
#[derive(Clone, Copy)]
pub struct Found {
    pub pos: Point,
    pub at_ms: u64,
    pub source: &'static str,
}

/// Whether the search runs, and the last position found.
pub struct CaretWatch {
    active: bool,
    found: Option<Found>,
}

impl CaretWatch {
    pub closed spec fn active_spec(&self) -> bool {
        self.active
    }

    pub closed spec fn found_spec(&self) -> Option<Found> {
        self.found
    }

    pub fn new() -> (r: Self)
        ensures
            !r.active_spec(),
            r.found_spec() is None,
    {
        CaretWatch { active: false, found: None }
    }

    pub fn is_active(&self) -> (r: bool)
        ensures
            r == self.active_spec(),
    {
        self.active
    }

    /// Record the outcome of one search (`None`: no caret found).
    pub fn record(&mut self, found: Option<Found>)
        ensures
            final(self).found_spec() == found,
            final(self).active_spec() == old(self).active_spec(),
    {
        self.found = found;
    }
}

/// Turn the search on or off (usually for as long as the indicator is shown).
pub fn set_active(w: &mut CaretWatch, on: bool)
    ensures
        final(w).active_spec() == on,
        final(w).found_spec() == old(w).found_spec(),
{
    w.active = on;
}

/// The last known caret position and its source, if found less than
/// [`FRESH_MS`] before `now_ms` (a time before the finding counts as no time).
pub fn position(w: &CaretWatch, now_ms: u64) -> (r: Option<(Point, &'static str)>)
    ensures
        r == (match w.found_spec() {
            Some(f) => if (if now_ms >= f.at_ms { now_ms - f.at_ms } else { 0 }) < FRESH_MS {
                Some((f.pos, f.source))
            } else {
                None
            },
            None => None,
        }),
{
    match w.found {
        Some(f) => {
            let elapsed = now_ms.saturating_sub(f.at_ms);
            if elapsed < FRESH_MS {
                Some((f.pos, f.source))
            } else {
                None
            }
        },
        None => None,
    }
}

} // verus!
