//! A binary min-heap of events: the event that is due first leaves first.

use crate::event::Event;
use crate::time::Time;
use vstd::multiset::Multiset;
use vstd::prelude::*;

verus! {

/// Whether entry `i` is due no earlier than its parent, the entry at
/// `(i - 1) / 2`. The root has no parent.
spec fn above_parent<T: Time, A>(entries: Seq<Event<T, A>>, i: int) -> bool {
    0 < i < entries.len() ==> entries[(i - 1) / 2].due_by(entries[i])
}

/// Whether entry `i` is due no earlier than its parent's parent.
spec fn above_grandparent<T: Time, A>(entries: Seq<Event<T, A>>, i: int) -> bool {
    2 < i < entries.len() ==> entries[((i - 1) / 2 - 1) / 2].due_by(entries[i])
}

/// The heap order: no entry is due before its parent.
spec fn heap_ordered<T: Time, A>(entries: Seq<Event<T, A>>) -> bool {
    forall|i: int| 0 <= i < entries.len() ==> #[trigger] above_parent(entries, i)
}

/// The heap order with one entry on its way up: `rising` may be due before
/// its parent, and its children are already due no earlier than that parent.
spec fn ordered_but_rising<T: Time, A>(entries: Seq<Event<T, A>>, rising: int) -> bool {
    &&& forall|i: int|
        0 <= i < entries.len() && i != rising ==> #[trigger] above_parent(entries, i)
    &&& forall|i: int|
        0 <= i < entries.len() && (i - 1) / 2 == rising ==> #[trigger] above_grandparent(
            entries,
            i,
        )
}

/// The heap order with one entry on its way down: the children of `sinking`
/// may be due before it, and they are already due no earlier than its parent.
spec fn ordered_but_sinking<T: Time, A>(entries: Seq<Event<T, A>>, sinking: int) -> bool {
    &&& forall|i: int|
        0 <= i < entries.len() && (i - 1) / 2 != sinking ==> #[trigger] above_parent(entries, i)
    &&& forall|i: int|
        0 <= i < entries.len() && (i - 1) / 2 == sinking ==> #[trigger] above_grandparent(
            entries,
            i,
        )
}

/// `entries` with the entries at `i` and `j` exchanged.
spec fn exchanged<E>(entries: Seq<E>, i: int, j: int) -> Seq<E> {
    entries.update(i, entries[j]).update(j, entries[i])
}

/// Exchanging two entries changes where they stand, not what is held.
proof fn lemma_exchange_keeps_entries<E>(entries: Seq<E>, i: int, j: int)
    requires
        0 <= i < entries.len(),
        0 <= j < entries.len(),
    ensures
        exchanged(entries, i, j).to_multiset() == entries.to_multiset(),
{
    broadcast use vstd::seq_lib::group_to_multiset_ensures;

    let half = entries.update(i, entries[j]);
    vstd::seq_lib::to_multiset_update(entries, i, entries[j]);
    vstd::seq_lib::to_multiset_update(half, j, entries[i]);
    assert(entries.to_multiset().count(entries[i]) > 0);
    assert(entries.to_multiset().count(entries[j]) > 0);
}

/// In a heap the root is due no later than any entry.
proof fn lemma_root_is_due_first<T: Time, A>(entries: Seq<Event<T, A>>, i: int)
    requires
        heap_ordered(entries),
        0 <= i < entries.len(),
    ensures
        entries[0].due_by(entries[i]),
    decreases i,
{
    if i > 0 {
        assert(above_parent(entries, i));
        lemma_root_is_due_first(entries, (i - 1) / 2);
    }
}

/// The root of a heap is an earliest event of what the heap holds.
proof fn lemma_root_is_earliest<T: Time, A>(entries: Seq<Event<T, A>>)
    requires
        heap_ordered(entries),
        entries.len() > 0,
    ensures
        entries[0].earliest_in(entries.to_multiset()),
{
    broadcast use vstd::seq_lib::group_to_multiset_ensures;

    let held = entries.to_multiset();
    assert(held.count(entries[0]) > 0);
    assert forall|other: Event<T, A>| #[trigger] held.contains(other) implies entries[0].due_by(
        other,
    ) by {
        let i = choose|i: int| 0 <= i < entries.len() && entries[i] == other;
        lemma_root_is_due_first(entries, i);
    }
}

/// Exchanges the entries at `i` and `j`.
///
/// `Vec` has no verified exchange of two places, and an entry cannot be
/// copied, so the last entry is taken out and serves as the spare value that
/// the exchange needs.
fn swap_entries<E>(entries: &mut Vec<E>, i: usize, j: usize)
    requires
        i < old(entries).len(),
        j < old(entries).len(),
    ensures
        final(entries)@ == exchanged(old(entries)@, i as int, j as int),
{
    if i != j {
        let mut spare = entries.pop().unwrap();
        let last = entries.len();
        if i == last {
            entries.set_and_swap(j, &mut spare);
        } else if j == last {
            entries.set_and_swap(i, &mut spare);
        } else {
            entries.set_and_swap(i, &mut spare);
            entries.set_and_swap(j, &mut spare);
            entries.set_and_swap(i, &mut spare);
        }
        entries.push(spare);
    }
}

/// Moves the entry at `start` up until its parent is due no later than it.
fn sift_up<T: Time, A>(entries: &mut Vec<Event<T, A>>, start: usize)
    requires
        start < old(entries).len(),
        ordered_but_rising(old(entries)@, start as int),
    ensures
        heap_ordered(final(entries)@),
        final(entries)@.to_multiset() == old(entries)@.to_multiset(),
{
    let mut rising = start;
    while rising > 0
        invariant_except_break
            rising < entries.len(),
            ordered_but_rising(entries@, rising as int),
            entries@.to_multiset() == old(entries)@.to_multiset(),
        ensures
            heap_ordered(entries@),
            entries@.to_multiset() == old(entries)@.to_multiset(),
        decreases rising,
    {
        let parent = (rising - 1) / 2;
        if !entries[rising].execution_time.earlier_than(entries[parent].execution_time) {
            break ;
        }
        let ghost before = entries@;
        swap_entries(entries, rising, parent);
        proof {
            let after = entries@;
            lemma_exchange_keeps_entries(before, rising as int, parent as int);
            assert forall|i: int| 0 <= i < after.len() && i != parent implies #[trigger] above_parent(
                after,
                i,
            ) by {
                if (i - 1) / 2 == rising {
                    assert(above_grandparent(before, i));
                } else if i != rising {
                    assert(above_parent(before, i));
                }
            }
            assert forall|i: int|
                0 <= i < after.len() && (i - 1) / 2 == parent implies #[trigger] above_grandparent(
                after,
                i,
            ) by {
                assert(above_parent(before, parent as int));
                if i != rising {
                    assert(above_parent(before, i));
                }
            }
        }
        rising = parent;
    }
}

/// Moves the root down until neither of its children is due before it.
fn sift_down<T: Time, A>(entries: &mut Vec<Event<T, A>>)
    requires
        ordered_but_sinking(old(entries)@, 0),
    ensures
        heap_ordered(final(entries)@),
        final(entries)@.to_multiset() == old(entries)@.to_multiset(),
{
    let len = entries.len();
    let mut sinking: usize = 0;
    while sinking < len / 2
        invariant_except_break
            len == entries.len(),
            ordered_but_sinking(entries@, sinking as int),
            entries@.to_multiset() == old(entries)@.to_multiset(),
        ensures
            heap_ordered(entries@),
            entries@.to_multiset() == old(entries)@.to_multiset(),
        decreases len - sinking,
    {
        let left = 2 * sinking + 1;
        let mut child = left;
        if left + 1 < len && entries[left + 1].execution_time.earlier_than(
            entries[left].execution_time,
        ) {
            child = left + 1;
        }
        if !entries[child].execution_time.earlier_than(entries[sinking].execution_time) {
            break ;
        }
        let ghost before = entries@;
        swap_entries(entries, sinking, child);
        proof {
            let after = entries@;
            lemma_exchange_keeps_entries(before, sinking as int, child as int);
            assert forall|i: int|
                0 <= i < after.len() && (i - 1) / 2 != child implies #[trigger] above_parent(
                after,
                i,
            ) by {
                if i == sinking {
                    assert(above_grandparent(before, child as int));
                } else if (i - 1) / 2 != sinking {
                    assert(above_parent(before, i));
                }
            }
            assert forall|i: int|
                0 <= i < after.len() && (i - 1) / 2 == child implies #[trigger] above_grandparent(
                after,
                i,
            ) by {
                assert(above_parent(before, i));
            }
        }
        sinking = child;
    }
}

/// A priority queue of events in which the event with the smallest
/// `execution_time` has the highest priority. Events that are due at the same
/// time leave in no particular order.
pub struct EventHeap<T: Time, A> {
    entries: Vec<Event<T, A>>,
}

impl<T: Time, A> View for EventHeap<T, A> {
    type V = Multiset<Event<T, A>>;

    /// The events that the heap holds.
    closed spec fn view(&self) -> Multiset<Event<T, A>> {
        self.entries@.to_multiset()
    }
}

impl<T: Time, A> EventHeap<T, A> {
    /// What every heap keeps to: its entries stand in heap order, so that the
    /// entry at the root is due first.
    #[verifier::type_invariant]
    spec fn well_formed(self) -> bool {
        heap_ordered(self.entries@)
    }

    /// A heap that holds nothing.
    pub fn new() -> (heap: Self)
        ensures
            heap@ == Multiset::<Event<T, A>>::empty(),
    {
        proof {
            broadcast use vstd::seq_lib::group_to_multiset_ensures;

        }
        EventHeap { entries: Vec::new() }
    }

    /// The number of events held.
    pub fn len(&self) -> (len: usize)
        ensures
            len == self@.len(),
    {
        proof {
            broadcast use vstd::seq_lib::group_to_multiset_ensures;

        }
        self.entries.len()
    }

    /// Puts `event` into the heap.
    pub fn push(&mut self, event: Event<T, A>)
        ensures
            final(self)@ == old(self)@.insert(event),
    {
        proof {
            use_type_invariant(&*self);
        }
        let mut entries = Vec::new();
        core::mem::swap(&mut entries, &mut self.entries);
        let ghost before = entries@;
        let last = entries.len();
        entries.push(event);
        proof {
            broadcast use vstd::seq_lib::group_to_multiset_ensures;

            let held = entries@;
            assert forall|i: int| 0 <= i < held.len() && i != last implies #[trigger] above_parent(
                held,
                i,
            ) by {
                assert(above_parent(before, i));
            }
        }
        sift_up(&mut entries, last);
        self.entries = entries;
    }

    /// Takes out an event that is due first, if the heap holds any.
    pub fn pop(&mut self) -> (earliest: Option<Event<T, A>>)
        ensures
            earliest.is_some() <==> old(self)@.len() > 0,
            match earliest {
                Some(event) => event.earliest_in(old(self)@) && final(self)@ == old(self)@.remove(
                    event,
                ),
                None => final(self)@ == old(self)@,
            },
    {
        proof {
            use_type_invariant(&*self);
            broadcast use vstd::seq_lib::group_to_multiset_ensures;

        }
        if self.entries.len() == 0 {
            return None;
        }
        let mut entries = Vec::new();
        core::mem::swap(&mut entries, &mut self.entries);
        let ghost before = entries@;
        // The last entry takes the place of the root, and the root leaves.
        let mut earliest = entries.pop().unwrap();
        if entries.len() > 0 {
            entries.set_and_swap(0, &mut earliest);
        }
        proof {
            let held = entries@;
            let last = before.len() - 1;
            lemma_root_is_earliest(before);
            assert(before.drop_last() =~= before.remove(last));
            if last > 0 {
                vstd::seq_lib::to_multiset_update(before.drop_last(), 0, before[last]);
            }
            assert forall|i: int|
                0 <= i < held.len() && (i - 1) / 2 != 0 implies #[trigger] above_parent(held, i) by {
                assert(above_parent(before, i));
            }
        }
        sift_down(&mut entries);
        self.entries = entries;
        Some(earliest)
    }
}

} // verus!
