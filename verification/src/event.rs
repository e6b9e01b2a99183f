//! Events: a time, and the action to run at that time.

use crate::heap::EventHeap;
use crate::time::Time;
use vstd::multiset::Multiset;
use vstd::prelude::*;

verus! {

/// What an action asks for once it has run.
#[derive(Debug, PartialEq, Eq)]
pub enum EventDisposition<T> {
    /// The event is over; its action is dropped.
    Delete,
    /// The same action is to run again, at the given time.
    Reschedule(T),
}

/// The one capability of an action: given the time at which it runs, it says
/// what happens to it next.
pub trait EventAction<T> {
    /// Whether `disposition` is an answer that this action may give when it
    /// runs at `execution_time`.
    ///
    /// An action that states nothing about itself permits every answer.
    open spec fn answers(&self, execution_time: T, disposition: EventDisposition<T>) -> bool {
        true
    }

    /// Runs the action at `execution_time`.
    fn execute(&self, execution_time: T) -> (disposition: EventDisposition<T>)
        ensures
            self.answers(execution_time, disposition),
    ;
}

/// A boxed action is an action: it answers as what it holds. This lets
/// actions of different types wait in one queue, as `Box<dyn EventAction<T>>`.
impl<T, A: EventAction<T> + ?Sized> EventAction<T> for Box<A> {
    open spec fn answers(&self, execution_time: T, disposition: EventDisposition<T>) -> bool {
        (**self).answers(execution_time, disposition)
    }

    fn execute(&self, execution_time: T) -> (disposition: EventDisposition<T>) {
        (**self).execute(execution_time)
    }
}

/// A scheduled action: it runs when simulated time reaches `execution_time`.
///
/// An event owns its action. Where nothing else is asked for, the action is
/// a boxed trait object, so that one queue can hold actions of any type.
pub struct Event<T, A = Box<dyn EventAction<T>>> {
    /// The time at which the action is to run.
    pub execution_time: T,
    /// What runs at that time.
    pub action: A,
}

impl<T, A> Event<T, A> {
    /// An event that runs `action` at `execution_time`.
    pub fn new(execution_time: T, action: A) -> (event: Event<T, A>)
        ensures
            event == (Event { execution_time, action }),
    {
        Event { execution_time, action }
    }

    /// The event that carries this event's action to `execution_time`.
    pub open spec fn moved_to(self, execution_time: T) -> Event<T, A> {
        Event { execution_time, action: self.action }
    }
}

impl<T: Time, A> Event<T, A> {
    /// Whether this event is due no later than `other`.
    pub open spec fn due_by(self, other: Event<T, A>) -> bool {
        self.execution_time.ticks() <= other.execution_time.ticks()
    }

    /// Whether this event is one of `queue` and no event of `queue` is due
    /// before it.
    pub open spec fn earliest_in(self, queue: Multiset<Event<T, A>>) -> bool {
        &&& queue.contains(self)
        &&& forall|other: Event<T, A>| #[trigger] queue.contains(other) ==> self.due_by(other)
    }
}

/// The scheduler's store: the events that are still to be dispatched, the
/// earliest of them ready to leave next.
pub struct EventManager<T: Time, A = Box<dyn EventAction<T>>> {
    event_queue: EventHeap<T, A>,
}

impl<T: Time, A> View for EventManager<T, A> {
    type V = Multiset<Event<T, A>>;

    /// The pending events. An event that was added twice is pending twice.
    closed spec fn view(&self) -> Multiset<Event<T, A>> {
        self.event_queue@
    }
}

impl<T: Time, A> EventManager<T, A> {
    /// A manager with no pending event.
    pub fn new() -> (manager: EventManager<T, A>)
        ensures
            manager@ == Multiset::<Event<T, A>>::empty(),
    {
        EventManager { event_queue: EventHeap::new() }
    }

    /// The number of pending events.
    pub fn len(&self) -> (len: usize)
        ensures
            len == self@.len(),
    {
        self.event_queue.len()
    }

    /// Makes `event` pending.
    pub fn add(&mut self, event: Event<T, A>)
        ensures
            final(self)@ == old(self)@.insert(event),
    {
        self.event_queue.push(event)
    }

    /// Takes out the pending event with the smallest `execution_time`, or
    /// reports that none is pending.
    ///
    /// Of several events that are due at the same smallest time, any one may
    /// be returned.
    pub fn next(&mut self) -> (earliest: Option<Event<T, A>>)
        ensures
            earliest.is_some() <==> old(self)@.len() > 0,
            match earliest {
                Some(event) => event.earliest_in(old(self)@) && final(self)@ == old(self)@.remove(
                    event,
                ),
                None => final(self)@ == old(self)@,
            },
    {
        self.event_queue.pop()
    }

    /// Carries out what the action of a dispatched `event` asked for: on
    /// `Reschedule` its action becomes pending again, at the new time; on
    /// `Delete` the action is dropped.
    pub fn settle(&mut self, event: Event<T, A>, disposition: EventDisposition<T>)
        ensures
            final(self)@ == match disposition {
                EventDisposition::Delete => old(self)@,
                EventDisposition::Reschedule(time) => old(self)@.insert(event.moved_to(time)),
            },
    {
        if let EventDisposition::Reschedule(time) = disposition {
            self.add(Event::new(time, event.action));
        }
    }
}

} // verus!
