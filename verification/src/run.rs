//! The simulation loop: dispatch the earliest pending event, let its action
//! decide what becomes of it, and go on until simulated time reaches a bound.

use crate::event::{Event, EventAction, EventDisposition, EventManager};
use crate::executor::{EventExecutor, ExecutorState};
use crate::time::Time;
use vstd::multiset::Multiset;
use vstd::prelude::*;

verus! {

/// Where a run stands.
#[derive(Clone, Copy, Debug, PartialEq, Eq)]
pub enum RunState {
    /// The clock is below the bound and an event is pending: the next
    /// dispatch can take place.
    Running,
    /// The clock is below the bound and nothing is pending, so that nothing
    /// can move the clock any further.
    Drained,
    /// The clock has reached the bound.
    TimeExceeded,
}

/// What `run` hands back: the state in which it stopped, and the executor it
/// worked with, which holds the clock and the progress log.
pub struct RunReport<T> {
    /// Where the run stood when it stopped.
    pub state: RunState,
    /// The executor of the run, as the last turn left it.
    pub executor: EventExecutor<T>,
}

/// One turn of the loop: the event that was dispatched, and what its action
/// answered.
pub struct Dispatch<T, A> {
    /// The event that left the queue in this turn.
    pub event: Event<T, A>,
    /// What the action of that event answered.
    pub disposition: EventDisposition<T>,
}

/// A run at one moment: what is pending, what its executor holds, and the
/// time bound it runs under.
#[verifier::ext_equal]
pub struct Run<T, A> {
    /// The pending events.
    pub queue: Multiset<Event<T, A>>,
    /// What the executor holds.
    pub executor: ExecutorState<T>,
    /// The bound: no turn is taken once the clock has reached it.
    pub max_time: T,
}

impl<T: Time, A: EventAction<T>> Run<T, A> {
    /// Where the run stands. The time bound is looked at first.
    pub open spec fn state(self) -> RunState {
        if self.executor.current_time.ticks() >= self.max_time.ticks() {
            RunState::TimeExceeded
        } else if self.queue.len() == 0 {
            RunState::Drained
        } else {
            RunState::Running
        }
    }

    /// Whether `dispatch` can be the next turn: the run is `Running`, the
    /// event is an earliest one among the pending, and the disposition is an
    /// answer of its action at its time.
    pub open spec fn allows(self, dispatch: Dispatch<T, A>) -> bool {
        &&& self.state() == RunState::Running
        &&& dispatch.event.earliest_in(self.queue)
        &&& dispatch.event.action.answers(dispatch.event.execution_time, dispatch.disposition)
    }

    /// The run after the turn `dispatch`: the event has left the queue, the
    /// executor has seen its time, and on `Reschedule` its action is pending
    /// again at the new time.
    pub open spec fn step(self, dispatch: Dispatch<T, A>) -> Run<T, A> {
        Run {
            queue: match dispatch.disposition {
                EventDisposition::Delete => self.queue.remove(dispatch.event),
                EventDisposition::Reschedule(time) => self.queue.remove(dispatch.event).insert(
                    dispatch.event.moved_to(time),
                ),
            },
            executor: self.executor.at(dispatch.event.execution_time),
            max_time: self.max_time,
        }
    }

    /// The run after the turns `dispatches`, taken in order.
    pub open spec fn after(self, dispatches: Seq<Dispatch<T, A>>) -> Run<T, A>
        decreases dispatches.len(),
    {
        if dispatches.len() == 0 {
            self
        } else {
            self.after(dispatches.drop_last()).step(dispatches.last())
        }
    }

    /// Whether the loop can take the turns `dispatches` from here, each of
    /// them allowed where it takes place.
    pub open spec fn permits(self, dispatches: Seq<Dispatch<T, A>>) -> bool
        decreases dispatches.len(),
    {
        dispatches.len() > 0 ==> {
            &&& self.permits(dispatches.drop_last())
            &&& self.after(dispatches.drop_last()).allows(dispatches.last())
        }
    }

    /// Whether the loop, given `budget` turns, can stop at `end`: some turns
    /// that it permits lead there, no more of them than the budget, and fewer
    /// only where the run is no longer `Running`.
    pub open spec fn reaches(self, end: Run<T, A>, budget: nat) -> bool {
        exists|dispatches: Seq<Dispatch<T, A>>|
            {
                &&& #[trigger] self.permits(dispatches)
                &&& self.after(dispatches) == end
                &&& dispatches.len() <= budget
                &&& end.state() == RunState::Running ==> dispatches.len() == budget
            }
    }
}

impl<T: Time, A: EventAction<T>> EventManager<T, A> {
    /// The run of this manager with an executor in the state `executor`,
    /// under the bound `max_time`.
    pub open spec fn run_with(&self, executor: ExecutorState<T>, max_time: T) -> Run<T, A> {
        Run { queue: self@, executor, max_time }
    }

    /// Where a run of this manager stands, with `executor` and under the
    /// bound `max_time`.
    pub fn state(&self, executor: &EventExecutor<T>, max_time: T) -> (state: RunState)
        ensures
            state == self.run_with(executor@, max_time).state(),
    {
        if !executor.current_time.earlier_than(max_time) {
            RunState::TimeExceeded
        } else if self.len() == 0 {
            RunState::Drained
        } else {
            RunState::Running
        }
    }

    /// Takes turns of the loop while the run is `Running`, at most `budget`
    /// of them, and returns the state in which it stopped.
    ///
    /// A turn takes out the earliest pending event, moves the clock of
    /// `executor` to its time, runs its action and settles what the action
    /// asked for. The time bound is looked at before a turn, not in it: an
    /// event that is due at or after `max_time` is still dispatched if it is
    /// the earliest one while the clock is below the bound.
    pub fn advance(
        &mut self,
        executor: &mut EventExecutor<T>,
        max_time: T,
        budget: u64,
    ) -> (state: RunState)
        ensures
            old(self).run_with(old(executor)@, max_time).reaches(
                final(self).run_with(final(executor)@, max_time),
                budget as nat,
            ),
            state == final(self).run_with(final(executor)@, max_time).state(),
            old(self).run_with(old(executor)@, max_time).state() != RunState::Running ==> {
                &&& final(self)@ == old(self)@
                &&& final(executor)@ == old(executor)@
            },
    {
        let ghost start = self.run_with(executor@, max_time);
        let ghost mut dispatches = Seq::<Dispatch<T, A>>::empty();
        let mut spent: u64 = 0;
        let mut state = self.state(executor, max_time);
        while spent < budget && matches!(state, RunState::Running)
            invariant
                spent <= budget,
                dispatches.len() == spent,
                start.permits(dispatches),
                start.after(dispatches) == self.run_with(executor@, max_time),
                state == start.after(dispatches).state(),
            decreases budget - spent,
        {
            let event = self.next().unwrap();
            let disposition = executor.execute(&event);
            proof {
                let dispatch = Dispatch { event, disposition };
                assert(dispatches.push(dispatch).drop_last() == dispatches);
                dispatches = dispatches.push(dispatch);
            }
            self.settle(event, disposition);
            spent += 1;
            state = self.state(executor, max_time);
        }
        proof {
            if start.state() != RunState::Running {
                crate::laws::lemma_stopped_run_takes_no_turn(start, dispatches);
            }
        }
        state
    }

    /// Runs the simulation from `start_time` until the clock reaches
    /// `max_time`, with a line of the progress log due at most once per
    /// `log_interval`.
    ///
    /// The run also stops where it could never end: when nothing is pending
    /// while the clock is below the bound (`Drained`), and after `u64::MAX`
    /// turns (`Running`).
    pub fn run(&mut self, start_time: T, max_time: T, log_interval: T) -> (report: RunReport<T>)
        ensures
            old(self).run_with(ExecutorState::starting(start_time, log_interval), max_time).reaches(
                final(self).run_with(report.executor@, max_time),
                u64::MAX as nat,
            ),
            report.state == final(self).run_with(report.executor@, max_time).state(),
            old(self).run_with(
                ExecutorState::starting(start_time, log_interval),
                max_time,
            ).state() != RunState::Running ==> {
                &&& final(self)@ == old(self)@
                &&& report.executor@ == ExecutorState::starting(start_time, log_interval)
            },
            report.executor@.spaced_from(start_time),
            report.executor@.log_frequency == log_interval,
    {
        let mut executor = EventExecutor::new(start_time, log_interval);
        let ghost start = self.run_with(executor@, max_time);
        let state = self.advance(&mut executor, max_time, u64::MAX);
        proof {
            let end = self.run_with(executor@, max_time);
            let dispatches = choose|dispatches: Seq<Dispatch<T, A>>|
                #[trigger] start.permits(dispatches) && start.after(dispatches) == end;
            crate::laws::lemma_run_keeps_log_spaced(start, dispatches, start_time);
        }
        RunReport { state, executor }
    }
}

} // verus!
