//! Windowers: map a timestamp to a window identifier and decide, as the
//! watermark advances, which windows have closed.
//!
//! A tumbling windower divides time from its origin into contiguous,
//! non-overlapping windows of a fixed length. Bounds are half-open
//! `[start, start + length)`: the boundary timestamp belongs to the window it
//! opens, not the one it closes. A window closes when the watermark reaches
//! its upper bound, and a closed window never reopens. An item whose
//! timestamp resolves to no open window is late: it is reported and dropped,
//! never merged (times before the windower's origin resolve to no window at
//! all and are reported the same way).

use vstd::prelude::*;

verus! {

/// Selects, from a closed set of variants, how timestamps are grouped into
/// windows. Plain data, so a dataflow graph definition can be persisted.
#[derive(Clone, Copy, PartialEq, Eq, Debug)]
pub enum WindowerConfig {
    /// Fixed-length contiguous windows `[start_at + n*length,
    /// start_at + (n+1)*length)`. A zero `length` is malformed and is rejected
    /// when the windower is built.
    Tumbling { length: u64, start_at: u64 },
}

/// A malformed windower configuration, rejected at graph-construction time.
#[derive(Clone, Copy, PartialEq, Eq, Debug)]
pub enum WindowerConfigError {
    /// Tumbling windows must have a strictly positive length.
    ZeroLength,
}

/// Assigns timestamps to fixed-length, non-overlapping windows counted from
/// an origin.
pub struct TumblingWindower {
    length: u64,
    start_at: u64,
}

impl TumblingWindower {
    /// The fixed window length; always at least one time unit.
    pub closed spec fn length(&self) -> u64 {
        self.length
    }

    /// The origin: the lower bound of window zero.
    pub closed spec fn start_at(&self) -> u64 {
        self.start_at
    }

    /// The window a timestamp falls into: times before the origin resolve to
    /// no window, all others to exactly one.
    pub open spec fn window_of(&self, t: u64) -> Option<u64> {
        if t < self.start_at() {
            None
        } else {
            Some((((t - self.start_at()) as u64) / self.length()) as u64)
        }
    }

    /// The lower time bound of a window (inclusive), as an unbounded integer.
    pub open spec fn window_start(&self, window: u64) -> int {
        self.start_at() + window * self.length()
    }

    /// The upper time bound of a window (exclusive), as an unbounded integer.
    pub open spec fn window_close(&self, window: u64) -> int {
        self.start_at() + (window + 1) * self.length()
    }

    /// Whether a window has closed under the given watermark: the boundary
    /// timestamp belongs to the next window, so closure happens exactly when
    /// the watermark reaches the window's upper bound.
    pub open spec fn is_closed(&self, window: u64, watermark: u64) -> bool {
        self.window_close(window) <= watermark
    }

    /// Build a windower with the given length and origin.
    pub fn new(length: u64, start_at: u64) -> (r: TumblingWindower)
        requires
            length >= 1,
        ensures
            r.length() == length,
            r.start_at() == start_at,
    {
        TumblingWindower { length, start_at }
    }

    /// Build a windower from its serializable configuration, rejecting a
    /// malformed one (zero window length) before any item is processed.
    pub fn from_config(config: &WindowerConfig) -> (r: Result<
        TumblingWindower,
        WindowerConfigError,
    >)
        ensures
            match config {
                WindowerConfig::Tumbling { length, start_at } => {
                    if length >= 1 {
                        r matches Ok(w) && w.length() == length && w.start_at() == start_at
                    } else {
                        r matches Err(WindowerConfigError::ZeroLength)
                    }
                },
            },
    {
        match config {
            WindowerConfig::Tumbling { length, start_at } => {
                if *length >= 1 {
                    Ok(TumblingWindower { length: *length, start_at: *start_at })
                } else {
                    Err(WindowerConfigError::ZeroLength)
                }
            },
        }
    }

    /// The window this timestamp belongs to, or `None` when the time lies
    /// before the windower's origin.
    pub fn assign(&self, t: u64) -> (r: Option<u64>)
        requires
            self.length() >= 1,
        ensures
            r == self.window_of(t),
    {
        if t < self.start_at {
            None
        } else {
            Some((t - self.start_at) / self.length)
        }
    }

    /// Whether the given window has closed under the given watermark.
    pub fn closed_at(&self, window: u64, watermark: u64) -> (r: bool)
        requires
            self.length() >= 1,
        ensures
            r == self.is_closed(window, watermark),
    {
        let w1: u128 = window as u128 + 1;
        let len: u128 = self.length as u128;
        proof {
            assert(w1 * len <= 0x10000000000000000u128 * 0xffffffffffffffffu128)
                by (nonlinear_arith)
                requires w1 <= 0x10000000000000000u128, len <= 0xffffffffffffffffu128;
        }
        let close: u128 = self.start_at as u128 + w1 * len;
        close <= watermark as u128
    }

    /// Every timestamp at or past the origin lies inside the half-open bounds
    /// of the window it is assigned to.
    pub proof fn lemma_window_contains(&self, t: u64)
        requires
            self.length() >= 1,
            self.window_of(t) is Some,
        ensures
            self.window_start(self.window_of(t)->Some_0) <= t,
            t < self.window_close(self.window_of(t)->Some_0),
    {
        let d = (t - self.start_at()) as u64;
        let len = self.length();
        let w = d / len;
        vstd::arithmetic::div_mod::lemma_fundamental_div_mod(d as int, len as int);
        vstd::arithmetic::div_mod::lemma_mod_bound(d as int, len as int);
        assert(d == len * w + d % len);
        assert(w * len <= d < (w + 1) * len) by (nonlinear_arith)
            requires d == len * w + d % len, 0 <= d % len < len;
    }

    /// A closed window never reopens: once the watermark has passed a
    /// window's upper bound, every later watermark still reports it closed.
    pub proof fn lemma_closed_never_reopens(&self, window: u64, earlier: u64, later: u64)
        requires
            self.is_closed(window, earlier),
            earlier <= later,
        ensures
            self.is_closed(window, later),
    {
    }

    /// An open window can still receive items: a timestamp inside a window's
    /// bounds is assigned exactly that window.
    pub proof fn lemma_assignment_unique(&self, t: u64, window: u64)
        requires
            self.length() >= 1,
            self.window_start(window) <= t,
            t < self.window_close(window),
        ensures
            self.window_of(t) == Some(window),
    {
        let len = self.length();
        let w = window as int;
        assert(w * len >= 0) by (nonlinear_arith)
            requires w >= 0, len >= 0;
        assert(self.start_at() <= t);
        let d = (t - self.start_at()) as u64;
        assert((w + 1) * len == w * len + len) by (nonlinear_arith);
        assert(w * len <= d < w * len + len);
        vstd::arithmetic::div_mod::lemma_fundamental_div_mod_converse(
            d as int,
            len as int,
            w,
            d - w * len,
        );
    }
}

} // verus!
