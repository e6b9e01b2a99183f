use discrete_event::event::{Event, EventAction, EventDisposition};
use std::cmp::Ordering;

struct Named {
    name: &'static str,
}

impl EventAction<u32> for Named {
    fn execute(&self, _execution_time: u32) -> EventDisposition<u32> {
        EventDisposition::Delete
    }
}

fn at(time: u32, name: &'static str) -> Event<u32, Named> {
    Event::new(time, Named { name })
}

#[test]
fn the_event_that_is_due_later_is_the_lesser() {
    assert!(at(9, "a") < at(3, "b"));
    assert!(at(3, "a") > at(9, "b"));
    assert!(!(at(3, "a") < at(9, "b")));
    assert!(at(9, "a") <= at(3, "b"));
    assert!(at(3, "a") >= at(9, "b"));
    assert_eq!(at(9, "a").partial_cmp(&at(3, "b")), Some(Ordering::Less));
    assert_eq!(at(3, "a").partial_cmp(&at(9, "b")), Some(Ordering::Greater));
}

#[test]
fn events_due_at_the_same_time_compare_equal() {
    let one = at(4, "one");
    let other = at(4, "other");
    assert_ne!(one.action.name, other.action.name);
    assert!(one == other);
    assert!(!(one != other));
    assert!(!(one < other));
    assert!(!(one > other));
    assert!(one <= other);
    assert!(one >= other);
    assert_eq!(one.partial_cmp(&other), Some(Ordering::Equal));
}

#[test]
fn events_due_at_different_times_are_unequal() {
    assert!(at(4, "same") != at(5, "same"));
    assert!(!(at(4, "same") == at(5, "same")));
}
