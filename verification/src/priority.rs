//! The priority of events: the one that is due earlier ranks higher.

use crate::event::Event;
use crate::time::Time;
use std::cmp::Ordering;
use vstd::prelude::*;

verus! {

/// Two events are equal in priority when they are due at the same time,
/// whatever their actions are.
impl<T: Time, A> PartialEq for Event<T, A> {
    fn eq(&self, other: &Self) -> (equal: bool) {
        !self.execution_time.earlier_than(other.execution_time)
            && !other.execution_time.earlier_than(self.execution_time)
    }
}

impl<T: Time, A> vstd::std_specs::cmp::PartialEqSpecImpl for Event<T, A> {
    open spec fn obeys_eq_spec() -> bool {
        true
    }

    open spec fn eq_spec(&self, other: &Self) -> bool {
        self.execution_time.ticks() == other.execution_time.ticks()
    }
}

impl<T: Time, A> Eq for Event<T, A> {

}

/// The order of priority is the order of time turned round: the event that is
/// due later is the lesser one, so that among the greatest are those that are
/// due first.
impl<T: Time, A> PartialOrd for Event<T, A> {
    fn partial_cmp(&self, other: &Self) -> (order: Option<Ordering>) {
        if other.execution_time.earlier_than(self.execution_time) {
            Some(Ordering::Less)
        } else if self.execution_time.earlier_than(other.execution_time) {
            Some(Ordering::Greater)
        } else {
            Some(Ordering::Equal)
        }
    }
}

impl<T: Time, A> vstd::std_specs::cmp::PartialOrdSpecImpl for Event<T, A> {
    open spec fn obeys_partial_cmp_spec() -> bool {
        true
    }

    open spec fn partial_cmp_spec(&self, other: &Self) -> Option<Ordering> {
        if other.execution_time.ticks() < self.execution_time.ticks() {
            Some(Ordering::Less)
        } else if self.execution_time.ticks() < other.execution_time.ticks() {
            Some(Ordering::Greater)
        } else {
            Some(Ordering::Equal)
        }
    }
}

} // verus!
