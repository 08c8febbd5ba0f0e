//! Clocks: assign a logical timestamp to each incoming item and track the
//! current watermark used to decide window closure.
//!
//! A clock only stamps items; it never reorders them. Out-of-order items are
//! accepted, and lateness handling is the windower's responsibility. The
//! watermark is monotonically non-decreasing across all calls.

use vstd::prelude::*;

verus! {

/// Saturate a mathematical integer to the `u64` range (values below zero do
/// not occur here; only the upper bound matters).
pub open spec fn sat_u64(x: int) -> u64 {
    if x > u64::MAX { u64::MAX } else { x as u64 }
}

/// The larger of two times.
pub open spec fn time_max(a: u64, b: u64) -> u64 {
    if a >= b { a } else { b }
}

/// Selects, from a closed set of variants, how items are stamped with a
/// logical time. The configuration is plain data so that a dataflow graph
/// definition can be persisted and transmitted.
#[derive(Clone, Copy, PartialEq, Eq, Debug)]
pub enum ClockConfig {
    /// Stamp each item with the host-supplied wall-clock reading.
    System,
    /// Stamp each item with the event time carried by the item itself.
    EventTime,
    /// Deterministic clock for reproducible testing: the n-th stamped item
    /// (counting from zero) gets time `start_at + n * item_incr`, saturating
    /// at the largest representable time.
    Testing { start_at: u64, item_incr: u64 },
}

/// A running clock: stamps items according to its configuration and exposes a
/// monotonically non-decreasing watermark.
pub struct Clock {
    config: ClockConfig,
    items_seen: u64,
    watermark: u64,
}

impl Clock {
    /// The configuration this clock was built with; it never changes.
    pub closed spec fn config(&self) -> ClockConfig {
        self.config
    }

    /// How many items this clock has stamped (saturating).
    pub closed spec fn items_seen(&self) -> u64 {
        self.items_seen
    }

    /// The current watermark: the time below which no further items are
    /// expected. Only `stamp` and `observe` change it, and only upward.
    pub closed spec fn watermark(&self) -> u64 {
        self.watermark
    }

    /// The time `stamp` assigns to the next item, given the event time the
    /// item carries and the host's current wall-clock reading.
    pub open spec fn stamp_time_spec(&self, event_time: u64, now: u64) -> u64 {
        match self.config() {
            ClockConfig::System => now,
            ClockConfig::EventTime => event_time,
            ClockConfig::Testing { start_at, item_incr } =>
                sat_u64(start_at + item_incr * self.items_seen()),
        }
    }

    /// A fresh clock with watermark zero and no items stamped.
    pub fn new(config: ClockConfig) -> (r: Clock)
        ensures
            r.config() == config,
            r.items_seen() == 0,
            r.watermark() == 0,
    {
        Clock { config, items_seen: 0, watermark: 0 }
    }

    /// Stamp one item. `event_time` is the timestamp field the item carries
    /// (ignored unless the clock is event-time driven); `now` is the host's
    /// wall-clock reading (ignored unless the clock is system driven).
    ///
    /// The watermark is raised to the stamped time if it was below it, so it
    /// never decreases.
    pub fn stamp(&mut self, event_time: u64, now: u64) -> (t: u64)
        ensures
            t == old(self).stamp_time_spec(event_time, now),
            final(self).config() == old(self).config(),
            final(self).items_seen() == sat_u64(old(self).items_seen() + 1),
            final(self).watermark() == time_max(old(self).watermark(), t),
            old(self).watermark() <= final(self).watermark(),
    {
        let t: u64 = match self.config {
            ClockConfig::System => now,
            ClockConfig::EventTime => event_time,
            ClockConfig::Testing { start_at, item_incr } => {
                let seen: u128 = self.items_seen as u128;
                let incr: u128 = item_incr as u128;
                proof {
                    assert(incr * seen <= (u64::MAX as u128) * (u64::MAX as u128))
                        by (nonlinear_arith)
                        requires incr <= u64::MAX as u128, seen <= u64::MAX as u128;
                }
                let raw: u128 = start_at as u128 + incr * seen;
                if raw > u64::MAX as u128 {
                    u64::MAX
                } else {
                    raw as u64
                }
            },
        };
        if self.items_seen < u64::MAX {
            self.items_seen = self.items_seen + 1;
        }
        if t > self.watermark {
            self.watermark = t;
        }
        t
    }

    /// The current watermark, for deciding window closure.
    pub fn current_watermark(&self) -> (r: u64)
        ensures
            r == self.watermark(),
    {
        self.watermark
    }

    /// Let the clock observe the host's wall-clock reading without stamping
    /// an item, so that windows can close while the stream is idle. The
    /// watermark is raised to `now` if it was below it.
    pub fn observe(&mut self, now: u64)
        ensures
            final(self).config() == old(self).config(),
            final(self).items_seen() == old(self).items_seen(),
            final(self).watermark() == time_max(old(self).watermark(), now),
            old(self).watermark() <= final(self).watermark(),
    {
        if now > self.watermark {
            self.watermark = now;
        }
    }
}

} // verus!
