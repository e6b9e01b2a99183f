//! A discrete-event simulation core.
//!
//! Events wait in an [`event::EventManager`], ordered by the time at which
//! they are due. A run takes out the earliest event, moves the simulated
//! clock to its time, lets its action decide whether it is over or comes back
//! later, and goes on until the clock reaches a bound. An
//! [`executor::EventExecutor`] keeps the clock and notes when a line of the
//! progress log is due, at most once per interval of simulated time.
//!
//! Every function of the crate is verified with Verus against its contract:
//! none of them panics or overflows, and every loop is shown to end. The
//! module [`laws`] holds what follows for whole queues and whole runs.

pub mod event;
pub mod executor;
pub mod heap;
pub mod laws;
pub mod priority;
pub mod run;
pub mod time;
