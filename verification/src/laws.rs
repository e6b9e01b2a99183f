//! What holds of every queue and of every run, proved from the contracts of
//! the scheduler.

use crate::event::{Event, EventAction, EventDisposition};
use crate::executor::ExecutorState;
use crate::run::{Dispatch, Run, RunState};
use crate::time::Time;
use vstd::multiset::Multiset;
use vstd::prelude::*;

verus! {

/// Whether `events` can be what successive calls of `next` return from a
/// manager that holds `queue`: each is an earliest one of what the calls
/// before it have left.
pub open spec fn leave_in_turn<T: Time, A>(
    queue: Multiset<Event<T, A>>,
    events: Seq<Event<T, A>>,
) -> bool
    decreases events.len(),
{
    events.len() > 0 ==> {
        &&& events.first().earliest_in(queue)
        &&& leave_in_turn(queue.remove(events.first()), events.drop_first())
    }
}

/// The number of events in `queue` that carry `action`.
pub open spec fn carriers<T, A>(queue: Multiset<Event<T, A>>, action: A) -> nat {
    queue.filter(|event: Event<T, A>| event.action == action).len()
}

/// The number of turns among `dispatches` in which `action` answered
/// `Delete`.
pub open spec fn deletions<T, A>(dispatches: Seq<Dispatch<T, A>>, action: A) -> nat
    decreases dispatches.len(),
{
    if dispatches.len() == 0 {
        0
    } else {
        let last = dispatches.last();
        let earlier = deletions(dispatches.drop_last(), action);
        if last.event.action == action && last.disposition == EventDisposition::<T>::Delete {
            earlier + 1
        } else {
            earlier
        }
    }
}

proof fn lemma_leaving_events_were_pending<T: Time, A>(
    queue: Multiset<Event<T, A>>,
    events: Seq<Event<T, A>>,
    i: int,
)
    requires
        leave_in_turn(queue, events),
        0 <= i < events.len(),
    ensures
        queue.contains(events[i]),
    decreases events.len(),
{
    broadcast use vstd::multiset::group_multiset_axioms;

    if i > 0 {
        lemma_leaving_events_were_pending(
            queue.remove(events.first()),
            events.drop_first(),
            i - 1,
        );
    }
}

/// Ordering: whatever has been added, the events that successive calls of
/// `next` return come out with non-decreasing execution times.
pub proof fn lemma_events_leave_in_time_order<T: Time, A>(
    queue: Multiset<Event<T, A>>,
    events: Seq<Event<T, A>>,
)
    requires
        leave_in_turn(queue, events),
    ensures
        forall|i: int, j: int|
            0 <= i <= j < events.len() ==> (#[trigger] events[i]).due_by(#[trigger] events[j]),
    decreases events.len(),
{
    if events.len() > 0 {
        let rest = events.drop_first();
        lemma_events_leave_in_time_order(queue.remove(events.first()), rest);
        assert forall|i: int, j: int| 0 <= i <= j < events.len() implies (#[trigger] events[i]).due_by(
            #[trigger] events[j],
        ) by {
            if i == 0 {
                lemma_leaving_events_were_pending(queue, events, j);
            } else {
                assert(rest[i - 1].due_by(rest[j - 1]));
            }
        }
    }
}

/// Draining: when `next` has been called until nothing is pending, what it
/// returned is what was pending, each event as often as it was pending.
pub proof fn lemma_draining_returns_what_was_pending<T: Time, A>(
    queue: Multiset<Event<T, A>>,
    events: Seq<Event<T, A>>,
)
    requires
        leave_in_turn(queue, events),
        events.len() == queue.len(),
    ensures
        events.to_multiset() == queue,
    decreases events.len(),
{
    broadcast use vstd::multiset::group_multiset_axioms;
    broadcast use vstd::seq_lib::group_to_multiset_ensures;

    if events.len() == 0 {
        assert(queue =~= Multiset::<Event<T, A>>::empty());
    } else {
        let first = events.first();
        let rest = events.drop_first();
        lemma_draining_returns_what_was_pending(queue.remove(first), rest);
        assert(events =~= seq![first] + rest);
        vstd::seq_lib::lemma_multiset_commutative(seq![first], rest);
    }
}

/// Ties: of two events that are due at the same time, either may leave
/// before the other. Nothing holds the scheduler to the order in which they
/// were added.
pub proof fn lemma_tied_events_leave_in_either_order<T: Time, A>(
    queue: Multiset<Event<T, A>>,
    first: Event<T, A>,
    second: Event<T, A>,
)
    requires
        leave_in_turn(queue, seq![first, second]),
        first.execution_time.ticks() == second.execution_time.ticks(),
    ensures
        leave_in_turn(queue, seq![second, first]),
{
    broadcast use vstd::multiset::group_multiset_axioms;

    let forth = seq![first, second];
    let back = seq![second, first];
    assert(forth.drop_first() =~= seq![second]);
    assert(back.drop_first() =~= seq![first]);
    assert(seq![first].drop_first() =~= Seq::<Event<T, A>>::empty());
    assert(leave_in_turn(queue.remove(first), seq![second]));
    assert(queue.remove(second).contains(first));
    assert(first.earliest_in(queue.remove(second))) by {
        assert forall|other: Event<T, A>| #[trigger]
            queue.remove(second).contains(other) implies first.due_by(other) by {
            assert(queue.contains(other));
        }
    }
    assert(leave_in_turn(queue.remove(second).remove(first), Seq::<Event<T, A>>::empty()));
    assert(leave_in_turn(queue.remove(second), seq![first]));
}

proof fn lemma_carriers_on_insert<T, A>(queue: Multiset<Event<T, A>>, event: Event<T, A>, action: A)
    ensures
        carriers(queue.insert(event), action) == carriers(queue, action) + if event.action
            == action {
            1nat
        } else {
            0nat
        },
{
    broadcast use vstd::multiset::group_multiset_axioms;

    let carries = |event: Event<T, A>| event.action == action;
    if event.action == action {
        assert(queue.insert(event).filter(carries) =~= queue.filter(carries).insert(event));
    } else {
        assert(queue.insert(event).filter(carries) =~= queue.filter(carries));
    }
}

proof fn lemma_carriers_on_remove<T, A>(queue: Multiset<Event<T, A>>, event: Event<T, A>, action: A)
    requires
        queue.contains(event),
    ensures
        carriers(queue, action) == carriers(queue.remove(event), action) + if event.action
            == action {
            1nat
        } else {
            0nat
        },
{
    broadcast use vstd::multiset::group_multiset_axioms;

    assert(queue =~= queue.remove(event).insert(event));
    lemma_carriers_on_insert(queue.remove(event), event, action);
}

/// A run that permits some turns permits those of them that came first, and
/// allows the turn that came next.
pub proof fn lemma_earlier_turns_are_permitted<T: Time, A: EventAction<T>>(
    run: Run<T, A>,
    dispatches: Seq<Dispatch<T, A>>,
    taken: int,
)
    requires
        run.permits(dispatches),
        0 <= taken <= dispatches.len(),
    ensures
        run.permits(dispatches.take(taken)),
        taken < dispatches.len() ==> run.after(dispatches.take(taken)).allows(dispatches[taken]),
    decreases dispatches.len(),
{
    if taken == dispatches.len() {
        assert(dispatches.take(taken) =~= dispatches);
    } else {
        let earlier = dispatches.drop_last();
        assert(earlier.take(taken) =~= dispatches.take(taken));
        if taken < earlier.len() {
            lemma_earlier_turns_are_permitted(run, earlier, taken);
        }
    }
}

/// Conservation: a run neither loses an action nor makes a second one of
/// it. After any turns, the events that carry an action are as many as at
/// the start, less the turns in which that action answered `Delete`.
pub proof fn lemma_actions_are_conserved<T: Time, A: EventAction<T>>(
    run: Run<T, A>,
    dispatches: Seq<Dispatch<T, A>>,
    action: A,
)
    requires
        run.permits(dispatches),
    ensures
        carriers(run.after(dispatches).queue, action) + deletions(dispatches, action) == carriers(
            run.queue,
            action,
        ),
    decreases dispatches.len(),
{
    if dispatches.len() > 0 {
        let earlier = dispatches.drop_last();
        let last = dispatches.last();
        let before = run.after(earlier);
        lemma_actions_are_conserved(run, earlier, action);
        lemma_carriers_on_remove(before.queue, last.event, action);
        match last.disposition {
            EventDisposition::Delete => {},
            EventDisposition::Reschedule(time) => {
                lemma_carriers_on_insert(
                    before.queue.remove(last.event),
                    last.event.moved_to(time),
                    action,
                );
            },
        }
    }
}

/// Rescheduling: as long as an action does not answer `Delete`, the events
/// that carry it stay as many as they were. An action that was added once is
/// carried by exactly one event at any time.
pub proof fn lemma_rescheduled_action_stays_pending<T: Time, A: EventAction<T>>(
    run: Run<T, A>,
    dispatches: Seq<Dispatch<T, A>>,
    action: A,
)
    requires
        run.permits(dispatches),
        forall|i: int|
            0 <= i < dispatches.len() && (#[trigger] dispatches[i]).event.action == action
                ==> dispatches[i].disposition != EventDisposition::<T>::Delete,
    ensures
        carriers(run.after(dispatches).queue, action) == carriers(run.queue, action),
{
    lemma_actions_are_conserved(run, dispatches, action);
    lemma_no_deletion_counts_none(dispatches, action);
}

proof fn lemma_no_deletion_counts_none<T, A>(dispatches: Seq<Dispatch<T, A>>, action: A)
    requires
        forall|i: int|
            0 <= i < dispatches.len() && (#[trigger] dispatches[i]).event.action == action
                ==> dispatches[i].disposition != EventDisposition::<T>::Delete,
    ensures
        deletions(dispatches, action) == 0,
    decreases dispatches.len(),
{
    if dispatches.len() > 0 {
        lemma_no_deletion_counts_none(dispatches.drop_last(), action);
    }
}

proof fn lemma_deletions_only_grow<T, A>(dispatches: Seq<Dispatch<T, A>>, action: A, taken: int)
    requires
        0 <= taken <= dispatches.len(),
    ensures
        deletions(dispatches.take(taken), action) <= deletions(dispatches, action),
    decreases dispatches.len(),
{
    if taken == dispatches.len() {
        assert(dispatches.take(taken) =~= dispatches);
    } else {
        let earlier = dispatches.drop_last();
        assert(earlier.take(taken) =~= dispatches.take(taken));
        lemma_deletions_only_grow(earlier, action, taken);
    }
}

/// Deletion: once the one event that carries an action has been dispatched
/// and its action has answered `Delete`, no event that carries that action is
/// dispatched in any later turn.
pub proof fn lemma_deleted_action_is_not_dispatched_again<T: Time, A: EventAction<T>>(
    run: Run<T, A>,
    dispatches: Seq<Dispatch<T, A>>,
    deleted: int,
    later: int,
)
    requires
        run.permits(dispatches),
        0 <= deleted < later < dispatches.len(),
        dispatches[deleted].disposition == EventDisposition::<T>::Delete,
        carriers(run.queue, dispatches[deleted].event.action) == 1,
    ensures
        dispatches[later].event.action != dispatches[deleted].event.action,
{
    broadcast use vstd::multiset::group_multiset_axioms;

    let action = dispatches[deleted].event.action;
    let until_later = dispatches.take(later);
    lemma_deletions_only_grow(until_later, action, deleted + 1);
    lemma_earlier_turns_are_permitted(run, dispatches, later);
    lemma_actions_are_conserved(run, until_later, action);
    let pending = run.after(until_later).queue;
    if dispatches[later].event.action == action {
        let carries = |event: Event<T, A>| event.action == action;
        assert(pending.filter(carries).count(dispatches[later].event) > 0);
    }
}

/// Throttling, one turn: a dispatch keeps the distances of the progress log.
/// A line becomes due exactly when the time since the last line is at least
/// `log_frequency`, so no line follows another more closely than that.
pub proof fn lemma_dispatch_keeps_log_spaced<T: Time>(
    executor: ExecutorState<T>,
    origin: T,
    now: T,
)
    requires
        executor.spaced_from(origin),
    ensures
        executor.at(now).spaced_from(origin),
        executor.at(now).log_frequency == executor.log_frequency,
{
}

/// Throttling: over a whole run the progress log keeps its distances. The
/// first line comes at least `log_frequency` after the start, and each later
/// line at least `log_frequency` after the line before it.
pub proof fn lemma_run_keeps_log_spaced<T: Time, A: EventAction<T>>(
    run: Run<T, A>,
    dispatches: Seq<Dispatch<T, A>>,
    origin: T,
)
    requires
        run.executor.spaced_from(origin),
    ensures
        run.after(dispatches).executor.spaced_from(origin),
        run.after(dispatches).executor.log_frequency == run.executor.log_frequency,
    decreases dispatches.len(),
{
    if dispatches.len() > 0 {
        lemma_run_keeps_log_spaced(run, dispatches.drop_last(), origin);
        lemma_dispatch_keeps_log_spaced(
            run.after(dispatches.drop_last()).executor,
            origin,
            dispatches.last().event.execution_time,
        );
    }
}

/// A run keeps the bound it set out with.
pub proof fn lemma_bound_stays<T: Time, A: EventAction<T>>(
    run: Run<T, A>,
    dispatches: Seq<Dispatch<T, A>>,
)
    ensures
        run.after(dispatches).max_time == run.max_time,
    decreases dispatches.len(),
{
    if dispatches.len() > 0 {
        lemma_bound_stays(run, dispatches.drop_last());
    }
}

/// The bound is looked at before a turn, never in it: every turn of a run
/// takes place while the clock is below `max_time`. So each dispatched event
/// but the last was due before the bound, and only the last one may be due
/// at the bound or after it.
pub proof fn lemma_bound_holds_before_each_turn<T: Time, A: EventAction<T>>(
    run: Run<T, A>,
    dispatches: Seq<Dispatch<T, A>>,
    turn: int,
)
    requires
        run.permits(dispatches),
        0 <= turn < dispatches.len(),
    ensures
        run.after(dispatches.take(turn)).executor.current_time.ticks() < run.max_time.ticks(),
        turn > 0 ==> dispatches[turn - 1].event.execution_time.ticks() < run.max_time.ticks(),
{
    lemma_earlier_turns_are_permitted(run, dispatches, turn);
    lemma_bound_stays(run, dispatches.take(turn));
}

/// Past the bound nothing is dispatched: a run that does not stand at
/// `Running` permits no turn.
pub proof fn lemma_stopped_run_takes_no_turn<T: Time, A: EventAction<T>>(
    run: Run<T, A>,
    dispatches: Seq<Dispatch<T, A>>,
)
    requires
        run.permits(dispatches),
        run.state() != RunState::Running,
    ensures
        dispatches.len() == 0,
    decreases dispatches.len(),
{
    if dispatches.len() > 0 {
        let earlier = dispatches.drop_last();
        if earlier.len() > 0 {
            lemma_stopped_run_takes_no_turn(run, earlier);
        }
    }
}

} // verus!
