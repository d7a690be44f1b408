//! The anti-repeat guard on the key event stream: an accepted event opens a
//! suppression window, and any event arriving inside it is dropped entirely
//! (not queued) and does not reopen the window.

use vstd::prelude::*;

verus! {

/// The debounce state: the window width in milliseconds and the time of the
/// last accepted event, both on the caller's clock.
pub struct Debouncer {
    pub window_ms: u64,
    pub last_accepted: Option<u64>,
}

impl Debouncer {
    /// Whether an event arriving at `now` (milliseconds on the caller's
    /// clock) is accepted: always before the first acceptance, and afterwards
    /// only once the window has fully elapsed. A clock that runs backwards
    /// keeps the window closed rather than reopening it.
    pub open spec fn accepts(self, now: u64) -> bool {
        match self.last_accepted {
            None => true,
            Some(t) => now >= t && now - t >= self.window_ms,
        }
    }

    /// A fresh debouncer that will accept the first event.
    pub fn new(window_ms: u64) -> (d: Debouncer)
        ensures
            d == (Debouncer { window_ms, last_accepted: None }),
    {
        Debouncer { window_ms, last_accepted: None }
    }

    /// Decides one event: accepted events are recorded as the new window
    /// start; dropped events leave the state exactly as it was.
    pub fn accept(&mut self, now: u64) -> (accepted: bool)
        ensures
            accepted == old(self).accepts(now),
            accepted ==> *final(self) == (Debouncer {
                window_ms: old(self).window_ms,
                last_accepted: Some(now),
            }),
            !accepted ==> *final(self) == *old(self),
    {
        let ok = match self.last_accepted {
            None => true,
            Some(t) => now >= t && now - t >= self.window_ms,
        };
        if ok {
            self.last_accepted = Some(now);
        }
        ok
    }
}

} // verus!
