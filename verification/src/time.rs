//! Simulated time: the values events are ordered by.

use vstd::prelude::*;

verus! {

/// A type whose values are points on the simulated time line.
///
/// The scheduler needs two things of a time type: an order, to find the
/// earliest pending event, and a difference, to throttle the progress log.
/// Both are stated over `ticks`, the position of a value on the line of the
/// integers, so neither can overflow.
pub trait Time: Copy {
    /// The position of this value on the time line.
    spec fn ticks(self) -> int;

    /// Whether `self` lies strictly before `other`.
    fn earlier_than(self, other: Self) -> (earlier: bool)
        ensures
            earlier == (self.ticks() < other.ticks()),
    ;

    /// Whether at least `interval` has passed from `since` to `self`,
    /// that is whether `self - since >= interval`.
    fn elapsed_at_least(self, since: Self, interval: Self) -> (elapsed: bool)
        ensures
            elapsed == (self.ticks() - since.ticks() >= interval.ticks()),
    ;
}

impl Time for i32 {
    open spec fn ticks(self) -> int {
        self as int
    }

    fn earlier_than(self, other: Self) -> (earlier: bool) {
        self < other
    }

    fn elapsed_at_least(self, since: Self, interval: Self) -> (elapsed: bool) {
        self as i64 - since as i64 >= interval as i64
    }
}

impl Time for i64 {
    open spec fn ticks(self) -> int {
        self as int
    }

    fn earlier_than(self, other: Self) -> (earlier: bool) {
        self < other
    }

    fn elapsed_at_least(self, since: Self, interval: Self) -> (elapsed: bool) {
        self as i128 - since as i128 >= interval as i128
    }
}

impl Time for u32 {
    open spec fn ticks(self) -> int {
        self as int
    }

    fn earlier_than(self, other: Self) -> (earlier: bool) {
        self < other
    }

    fn elapsed_at_least(self, since: Self, interval: Self) -> (elapsed: bool) {
        self as i64 - since as i64 >= interval as i64
    }
}

impl Time for u64 {
    open spec fn ticks(self) -> int {
        self as int
    }

    fn earlier_than(self, other: Self) -> (earlier: bool) {
        self < other
    }

    fn elapsed_at_least(self, since: Self, interval: Self) -> (elapsed: bool) {
        self as i128 - since as i128 >= interval as i128
    }
}

} // verus!
