//! The dispatch helper of a run: it keeps the simulated clock and decides
//! when a line of the progress log is due.

use crate::event::{Event, EventAction, EventDisposition};
use crate::time::Time;
use std::fmt::Display;
use vstd::prelude::*;
use vstd::string::StringExecFns;

verus! {

/// What an executor holds, as plain values.
#[verifier::ext_equal]
pub struct ExecutorState<T> {
    /// The least time between two lines of the progress log.
    pub log_frequency: T,
    /// The time of the last line of the progress log, or the start time while
    /// no line is due yet.
    pub last_log_time: T,
    /// The time of the event dispatched last, or the start time before the
    /// first.
    pub current_time: T,
    /// The times for which a line of the progress log became due, oldest
    /// first.
    pub logged: Seq<T>,
}

impl<T: Time> ExecutorState<T> {
    /// The state in which a run starts.
    pub open spec fn starting(start_time: T, log_frequency: T) -> Self {
        ExecutorState {
            log_frequency,
            last_log_time: start_time,
            current_time: start_time,
            logged: Seq::empty(),
        }
    }

    /// Whether a dispatch at `now` is due a line of the progress log: at
    /// least `log_frequency` has passed since the last line.
    pub open spec fn log_due(self, now: T) -> bool {
        now.ticks() - self.last_log_time.ticks() >= self.log_frequency.ticks()
    }

    /// Whether the progress log keeps its distances, counted from `origin`,
    /// the time at which the log was begun: the first line comes at least
    /// `log_frequency` after `origin`, each later line at least
    /// `log_frequency` after the line before it, and `last_log_time` is the
    /// time of the last line.
    pub open spec fn spaced_from(self, origin: T) -> bool {
        &&& self.last_log_time == if self.logged.len() == 0 {
            origin
        } else {
            self.logged.last()
        }
        &&& self.logged.len() > 0 ==> self.logged[0].ticks() - origin.ticks()
            >= self.log_frequency.ticks()
        &&& forall|k: int|
            0 < k < self.logged.len() ==> (#[trigger] self.logged[k]).ticks() - self.logged[k
                - 1].ticks() >= self.log_frequency.ticks()
    }

    /// The state once an event due at `now` has been dispatched.
    pub open spec fn at(self, now: T) -> Self {
        if self.log_due(now) {
            ExecutorState {
                log_frequency: self.log_frequency,
                last_log_time: now,
                current_time: now,
                logged: self.logged.push(now),
            }
        } else {
            ExecutorState {
                log_frequency: self.log_frequency,
                last_log_time: self.last_log_time,
                current_time: now,
                logged: self.logged,
            }
        }
    }
}

/// Whether `line` is the line of the progress log for `time`: the four
/// characters `t = `, and then the time as it displays itself.
pub open spec fn is_progress_line<T: Display>(time: T, line: Seq<char>) -> bool {
    exists|shown: String|
        #[trigger] vstd::string::to_string_from_display_ensures::<T>(&time, shown) && line
            == seq!['t', ' ', '=', ' '] + shown@
}

/// The line of the progress log for `time`, such as `t = 100`.
pub fn progress_line<T: Display>(time: &T) -> (line: String)
    ensures
        is_progress_line(*time, line@),
{
    let shown = time.to_string();
    proof {
        reveal_strlit("t = ");
        assert("t = "@ =~= seq!['t', ' ', '=', ' ']);
    }
    String::from_str("t = ").concat(shown.as_str())
}

/// The state of one run: the simulated clock and the throttle of the
/// progress log.
///
/// The executor writes nothing itself. It records in `logged` each time for
/// which a line of the progress log is due, and leaves the writing to its
/// owner, who gets the lines from `log_lines`.
pub struct EventExecutor<T> {
    /// The least time between two lines of the progress log.
    pub log_frequency: T,
    /// The time of the last line, or the start time while none is due yet.
    pub last_log_time: T,
    /// The time of the event dispatched last, or the start time.
    pub current_time: T,
    /// The times for which a line became due, oldest first.
    pub logged: Vec<T>,
}

impl<T> View for EventExecutor<T> {
    type V = ExecutorState<T>;

    open spec fn view(&self) -> ExecutorState<T> {
        ExecutorState {
            log_frequency: self.log_frequency,
            last_log_time: self.last_log_time,
            current_time: self.current_time,
            logged: self.logged@,
        }
    }
}

impl<T: Time> EventExecutor<T> {
    /// An executor for a run that starts at `start_time` and logs its
    /// progress at most once per `log_frequency`.
    pub fn new(start_time: T, log_frequency: T) -> (executor: EventExecutor<T>)
        ensures
            executor@ == ExecutorState::starting(start_time, log_frequency),
    {
        EventExecutor {
            log_frequency,
            last_log_time: start_time,
            current_time: start_time,
            logged: Vec::new(),
        }
    }

    /// Dispatches `event`: moves the clock to its time, records that time if
    /// a line of the progress log is due, and runs its action.
    ///
    /// What the action answers is returned as it is.
    pub fn execute<A: EventAction<T>>(
        &mut self,
        event: &Event<T, A>,
    ) -> (disposition: EventDisposition<T>)
        ensures
            final(self)@ == old(self)@.at(event.execution_time),
            event.action.answers(event.execution_time, disposition),
    {
        self.current_time = event.execution_time;
        if self.current_time.elapsed_at_least(self.last_log_time, self.log_frequency) {
            self.logged.push(self.current_time);
            self.last_log_time = self.current_time;
        }
        event.action.execute(self.current_time)
    }
}

impl<T: Time + Display> EventExecutor<T> {
    /// The lines of the progress log that have become due, oldest first.
    pub fn log_lines(&self) -> (lines: Vec<String>)
        ensures
            lines.len() == self@.logged.len(),
            forall|i: int|
                0 <= i < lines.len() ==> is_progress_line(self@.logged[i], #[trigger] lines[i]@),
    {
        let mut lines: Vec<String> = Vec::new();
        let mut done: usize = 0;
        while done < self.logged.len()
            invariant
                done <= self.logged.len(),
                lines.len() == done,
                forall|i: int|
                    0 <= i < done ==> is_progress_line(self.logged[i], #[trigger] lines[i]@),
            decreases self.logged.len() - done,
        {
            lines.push(progress_line(&self.logged[done]));
            done += 1;
        }
        lines
    }
}

} // verus!
