//! A bounded first-in, first-out record of recent rates.

use std::collections::VecDeque;
use vstd::prelude::*;

verus! {

/// The newest `capacity` items of `all`, in their order; all of them where
/// there are no more than that.
pub open spec fn newest(all: Seq<u64>, capacity: nat) -> Seq<u64> {
    if all.len() <= capacity {
        all
    } else {
        all.subrange(all.len() - capacity, all.len() as int)
    }
}

/// What a bounded record holds after `value` arrives: `items` followed by
/// `value`, cut down from the front to the newest `capacity` of them.
pub open spec fn push_bounded(items: Seq<u64>, capacity: nat, value: u64) -> Seq<u64> {
    newest(items.push(value), capacity)
}

/// What a bounded record holds after the items of `values` have arrived one
/// by one, in order.
pub open spec fn push_all_bounded(items: Seq<u64>, capacity: nat, values: Seq<u64>) -> Seq<u64>
    decreases values.len(),
{
    if values.len() == 0 {
        items
    } else {
        push_bounded(push_all_bounded(items, capacity, values.drop_last()), capacity, values.last())
    }
}

/// A push never lets a record grow beyond its capacity, and below the
/// capacity it loses nothing.
pub proof fn lemma_push_bounded(items: Seq<u64>, capacity: nat, value: u64)
    ensures
        push_bounded(items, capacity, value).len() <= capacity,
        items.len() < capacity ==> push_bounded(items, capacity, value) == items.push(value),
        items.len() == capacity && capacity > 0 ==> push_bounded(items, capacity, value)
            == items.drop_first().push(value),
{
    if items.len() == capacity && capacity > 0 {
        assert(push_bounded(items, capacity, value) =~= items.drop_first().push(value));
    }
}

/// First in, first out: a record within its capacity that takes `values` one
/// by one ends up with the newest of what it held and what arrived, as many
/// as its capacity allows and in the order of arrival.
pub proof fn lemma_push_all_keeps_newest(items: Seq<u64>, capacity: nat, values: Seq<u64>)
    requires
        items.len() <= capacity,
    ensures
        push_all_bounded(items, capacity, values) == newest(items + values, capacity),
    decreases values.len(),
{
    if values.len() == 0 {
        assert(items + values =~= items);
    } else {
        let front = values.drop_last();
        lemma_push_all_keeps_newest(items, capacity, front);
        assert((items + front).push(values.last()) =~= items + values);
        assert(newest(newest(items + front, capacity).push(values.last()), capacity) =~= newest(
            items + values,
            capacity,
        ));
    }
}

/// A record of capacity above zero that was empty and took one value more
/// than it can hold is full, and its oldest item is the second that arrived.
pub proof fn lemma_overflow_by_one_drops_first(capacity: nat, values: Seq<u64>)
    requires
        capacity >= 1,
        values.len() == capacity + 1,
    ensures
        push_all_bounded(Seq::empty(), capacity, values).len() == capacity,
        push_all_bounded(Seq::empty(), capacity, values)[0] == values[1],
        push_all_bounded(Seq::empty(), capacity, values) == values.drop_first(),
{
    lemma_push_all_keeps_newest(Seq::empty(), capacity, values);
    assert(Seq::<u64>::empty() + values =~= values);
    assert(newest(values, capacity) =~= values.drop_first());
}

/// The most recent rates, oldest first, never more than a fixed number.
pub struct History {
    capacity: usize,
    items: VecDeque<u64>,
}

impl View for History {
    type V = Seq<u64>;

    /// The rates held, oldest first.
    closed spec fn view(&self) -> Seq<u64> {
        self.items@
    }
}

impl History {
    /// The largest number of rates that the record holds.
    pub closed spec fn spec_capacity(&self) -> nat {
        self.capacity as nat
    }

    /// The record holds no more rates than its capacity.
    pub open spec fn wf(&self) -> bool {
        self@.len() <= self.spec_capacity()
    }

    /// An empty record that will hold at most `capacity` rates.
    pub fn new(capacity: usize) -> (history: History)
        ensures
            history.wf(),
            history@ == Seq::<u64>::empty(),
            history.spec_capacity() == capacity,
    {
        History { capacity, items: VecDeque::new() }
    }

    /// The largest number of rates that the record holds.
    pub fn capacity(&self) -> (capacity: usize)
        ensures
            capacity == self.spec_capacity(),
    {
        self.capacity
    }

    /// The number of rates held now.
    pub fn len(&self) -> (len: usize)
        requires
            self.wf(),
        ensures
            len == self@.len(),
            len <= self.spec_capacity(),
    {
        self.items.len()
    }

    /// The rate at position `index`, counted from the oldest.
    pub fn get(&self, index: usize) -> (value: u64)
        requires
            index < self@.len(),
        ensures
            value == self@[index as int],
    {
        self.items[index]
    }

    /// Appends `value`; a full record first gives up its oldest rate.
    pub fn push(&mut self, value: u64)
        requires
            old(self).wf(),
        ensures
            final(self).wf(),
            final(self)@ == push_bounded(old(self)@, old(self).spec_capacity(), value),
            final(self).spec_capacity() == old(self).spec_capacity(),
    {
        if self.capacity == 0 {
            assert(push_bounded(self@, 0, value) =~= self@);
            return;
        }
        if self.items.len() == self.capacity {
            let _ = self.items.pop_front();
        }
        self.items.push_back(value);
        assert(self@ =~= push_bounded(old(self)@, old(self).spec_capacity(), value));
    }

    /// An independent copy of the rates held, oldest first.
    pub fn snapshot(&self) -> (copy: Vec<u64>)
        ensures
            copy@ == self@,
    {
        let mut copy: Vec<u64> = Vec::new();
        let mut i: usize = 0;
        while i < self.items.len()
            invariant
                i <= self.items@.len(),
                copy@ == self.items@.subrange(0, i as int),
            decreases self.items@.len() - i,
        {
            copy.push(self.items[i]);
            i += 1;
            assert(copy@ =~= self.items@.subrange(0, i as int));
        }
        assert(copy@ =~= self.items@);
        copy
    }
}

} // verus!
