//! Rate measurement of the vision feed: packets counted per window of at
//! least a second.
use vstd::prelude::*;

verus! {

/// Length of a counting window, in milliseconds.
pub const PPS_WINDOW_MS: u64 = 1000;

pub struct PpsCounter {
    /// Packets seen in the current window.
    pub packet_count: u32,
    /// When the current window began, in milliseconds on the caller's clock.
    pub window_start_ms: u64,
    /// Packets counted in the last complete window.
    pub current_pps: u32,
}

/// The counter after a packet arrives at `now_ms`: it is counted, and once a
/// second or more has passed since the window began the count becomes the
/// reading and a new window begins at `now_ms`.
pub open spec fn packet_step(old: PpsCounter, new: PpsCounter, now_ms: u64) -> bool {
    let count = old.packet_count + 1;
    if now_ms >= old.window_start_ms + PPS_WINDOW_MS {
        new == PpsCounter { packet_count: 0, window_start_ms: now_ms, current_pps: count as u32 }
    } else {
        new == PpsCounter { packet_count: count as u32, ..old }
    }
}

impl PpsCounter {
    /// No packets yet; the first window begins at `now_ms`.
    pub fn new(now_ms: u64) -> (c: Self)
        ensures
            c == (PpsCounter { packet_count: 0, window_start_ms: now_ms, current_pps: 0 }),
    {
        PpsCounter { packet_count: 0, window_start_ms: now_ms, current_pps: 0 }
    }

    /// Counts a packet that arrived at `now_ms` and returns the current reading.
    pub fn on_packet(&mut self, now_ms: u64) -> (pps: u32)
        requires
            old(self).packet_count < u32::MAX,
        ensures
            packet_step(*old(self), *final(self), now_ms),
            pps == final(self).current_pps,
    {
        self.packet_count = self.packet_count + 1;
        if now_ms >= self.window_start_ms && now_ms - self.window_start_ms >= PPS_WINDOW_MS {
            self.current_pps = self.packet_count;
            self.packet_count = 0;
            self.window_start_ms = now_ms;
        }
        self.current_pps
    }
}

} // verus!
