//! The interval of payoffs that is still relevant to a search.
use vstd::prelude::*;

verus! {

/// A closed interval `[min, max]` of payoffs.
#[derive(Debug, Clone, Copy, PartialEq, Eq, Structural)]
pub struct Window {
    /// The lower bound.
    pub min: i64,
    /// The upper bound.
    pub max: i64,
}

impl Window {
    /// A window is well formed when it is not empty.
    pub open spec fn wf(self) -> bool {
        self.min <= self.max
    }

    /// Whether `v` lies inside the window.
    pub open spec fn contains(self, v: int) -> bool {
        self.min <= v <= self.max
    }

    /// Makes the window `[min, max]`, which the caller knows to be non-empty.
    pub fn new(min: i64, max: i64) -> (r: Window)
        requires
            min <= max,
        ensures
            r.min == min,
            r.max == max,
            r.wf(),
    {
        Window { min, max }
    }

    /// Makes the window `[min, max]`, or `None` when it would be empty.
    pub fn try_new(min: i64, max: i64) -> (r: Option<Window>)
        ensures
            r is Some <==> min <= max,
            r matches Some(w) ==> w.min == min && w.max == max && w.wf(),
    {
        if min <= max {
            Some(Window { min, max })
        } else {
            None
        }
    }

    /// The window that remains once the maximizing player is sure of `v`:
    /// the lower bound rises to `v`. `None` when that leaves nothing.
    pub fn raise_min(&self, v: i64) -> (r: Option<Window>)
        requires
            self.wf(),
        ensures
            r is Some <==> v <= self.max,
            r matches Some(w) ==> w.wf() && w.max == self.max && w.min == (
            if v > self.min {
                v
            } else {
                self.min
            }),
    {
        let lo = if v > self.min {
            v
        } else {
            self.min
        };
        Window::try_new(lo, self.max)
    }

    /// The window that remains once the minimizing player is sure of `v`:
    /// the upper bound falls to `v`. `None` when that leaves nothing.
    pub fn lower_max(&self, v: i64) -> (r: Option<Window>)
        requires
            self.wf(),
        ensures
            r is Some <==> self.min <= v,
            r matches Some(w) ==> w.wf() && w.min == self.min && w.max == (
            if v < self.max {
                v
            } else {
                self.max
            }),
    {
        let hi = if v < self.max {
            v
        } else {
            self.max
        };
        Window::try_new(self.min, hi)
    }
}

} // verus!
