//! The append-only vector built on the shared lock.
//!
//! The protected state is [`BfVecShared`]: a buffer of constructed
//! elements together with the capacity of its allocation. The handle
//! type [`BfVec`] carries the operations a pusher performs: reserve a
//! slot, write the element, and grow the buffer when the reserved slot
//! falls beyond the capacity.

use vstd::prelude::*;

verus! {

/// The capacity a grow step asks for: double the current capacity,
/// but never less than eight slots.
pub open spec fn spec_grow_capacity(capacity: nat) -> nat {
    if 2 * capacity > 8 {
        2 * capacity
    } else {
        8
    }
}

/// Computes the capacity for the next grow step.
pub fn grow_capacity(capacity: usize) -> (new_capacity: usize)
    requires
        capacity <= usize::MAX / 2,
    ensures
        new_capacity == spec_grow_capacity(capacity as nat),
{
    let doubled: usize = capacity * 2;
    if doubled > 8 {
        doubled
    } else {
        8
    }
}

/// Each grow step strictly enlarges the capacity, so capacity grows
/// strictly monotonically across reserves.
pub proof fn lemma_grow_capacity_strict(capacity: nat)
    ensures
        spec_grow_capacity(capacity) > capacity,
        capacity == 0 ==> spec_grow_capacity(capacity) == 8,
{
}

/// What a pusher does with the slot index it reserved: write the
/// element there, or grow the buffer first and reserve again.
#[derive(Clone, Copy, PartialEq, Eq, Structural, Debug)]
pub enum PushStep {
    /// The reserved index is backed by capacity: write the element.
    Write(usize),
    /// The reserved index fell beyond the capacity: grow to the given
    /// capacity, then retry the reservation.
    Grow(usize),
}

/// Decides a pusher's next move from its reserved slot index and the
/// capacity it observed.
pub fn push_plan(reserved: usize, capacity: usize) -> (step: PushStep)
    requires
        reserved < capacity || capacity <= usize::MAX / 2,
    ensures
        reserved < capacity ==> step == PushStep::Write(reserved),
        reserved >= capacity ==> (step matches PushStep::Grow(c)
            && c == spec_grow_capacity(capacity as nat)),
{
    if reserved < capacity {
        PushStep::Write(reserved)
    } else {
        PushStep::Grow(grow_capacity(capacity))
    }
}

/// The state protected by the lock: the constructed elements and the
/// capacity of the allocation that backs them.
pub struct BfVecShared<T> {
    /// The elements written so far, in slot order.
    pub buffer: Vec<T>,
    /// How many slots the allocation can hold.
    pub capacity: usize,
}

impl<T> View for BfVecShared<T> {
    type V = Seq<T>;

    open spec fn view(&self) -> Seq<T> {
        self.buffer@
    }
}

impl<T> BfVecShared<T> {
    /// Every element sits in an allocated slot.
    pub open spec fn wf(self) -> bool {
        self.buffer@.len() <= self.capacity
    }

    /// Drops the elements but keeps the capacity.
    pub fn clear(&mut self)
        requires
            old(self).wf(),
        ensures
            final(self).wf(),
            final(self)@ == Seq::<T>::empty(),
            final(self).capacity == old(self).capacity,
    {
        self.buffer.clear();
    }
}

/// The append-only vector: a handle over the lock-protected state.
pub struct BfVec<T> {
    /// The state all handles of the vector share under the lock.
    pub shared: BfVecShared<T>,
}

impl<T> View for BfVec<T> {
    type V = Seq<T>;

    open spec fn view(&self) -> Seq<T> {
        self.shared.buffer@
    }
}

impl<T> BfVec<T> {
    pub open spec fn wf(self) -> bool {
        self.shared.wf()
    }

    /// Creates an empty vector with zero capacity.
    pub fn new() -> (v: BfVec<T>)
        ensures
            v.wf(),
            v@ == Seq::<T>::empty(),
            v.shared.capacity == 0,
    {
        BfVec { shared: BfVecShared { buffer: Vec::new(), capacity: 0 } }
    }

    /// Appends one element: reserve the next slot, grow the buffer
    /// first when the reserved slot is not backed by capacity. No push
    /// is lost and no element is torn: the new contents are exactly
    /// the old contents with the value at the end.
    pub fn push(&mut self, value: T)
        requires
            old(self).wf(),
            old(self)@.len() < old(self).shared.capacity || old(self).shared.capacity
                <= usize::MAX / 2,
        ensures
            final(self).wf(),
            final(self)@ == old(self)@.push(value),
            final(self).shared.capacity == if old(self)@.len() < old(self).shared.capacity {
                old(self).shared.capacity as nat
            } else {
                spec_grow_capacity(old(self).shared.capacity as nat)
            },
    {
        let reserved = self.shared.buffer.len();
        match push_plan(reserved, self.shared.capacity) {
            PushStep::Write(_) => {},
            PushStep::Grow(new_capacity) => {
                self.reserve(new_capacity);
            },
        }
        self.shared.buffer.push(value);
    }

    /// Grows the allocation to the given capacity; obsolete when
    /// another grow got there first. The elements are kept.
    fn reserve(&mut self, capacity: usize)
        requires
            old(self).wf(),
        ensures
            final(self).wf(),
            final(self)@ == old(self)@,
            final(self).shared.capacity == if capacity <= old(self).shared.capacity {
                old(self).shared.capacity
            } else {
                capacity
            },
    {
        if capacity <= self.shared.capacity {
            return ;
        }
        self.shared.capacity = capacity;
    }

    /// The number of elements.
    pub fn len(&self) -> (n: usize)
        ensures
            n == self@.len(),
    {
        self.shared.buffer.len()
    }

    pub fn is_empty(&self) -> (e: bool)
        ensures
            e == (self@.len() == 0),
    {
        self.len() == 0
    }

    /// Drops all elements, keeps the capacity.
    pub fn clear(&mut self)
        requires
            old(self).wf(),
        ensures
            final(self).wf(),
            final(self)@ == Seq::<T>::empty(),
            final(self).shared.capacity == old(self).shared.capacity,
    {
        self.shared.clear();
    }
}

/// No lost pushes and no torn elements: a chain of states that starts
/// empty and where each state extends the previous one by one pushed
/// value — which is exactly what [`BfVec::push`] guarantees of every
/// interleaved pusher's call — ends with one slot per push, holding
/// exactly the pushed values.
pub proof fn lemma_no_lost_pushes<T>(states: Seq<Seq<T>>, values: Seq<T>)
    requires
        states.len() == values.len() + 1,
        states[0].len() == 0,
        forall|n: int|
            0 <= n < values.len() ==> states[n + 1] == #[trigger] states[n].push(values[n]),
    ensures
        states[values.len() as int].len() == values.len(),
        forall|j: int| 0 <= j < values.len() ==> states[values.len() as int][j] == values[j],
    decreases values.len(),
{
    if values.len() > 0 {
        let m = (values.len() - 1) as int;
        let head_states = states.subrange(0, m + 1);
        let head_values = values.subrange(0, m);
        assert forall|n: int| 0 <= n < head_values.len() implies head_states[n + 1]
            == #[trigger] head_states[n].push(head_values[n]) by {
            assert(states[n + 1] == states[n].push(values[n]));
        }
        lemma_no_lost_pushes(head_states, head_values);
        assert(states[m + 1] == states[m].push(values[m]));
        assert(head_states[m] == states[m]);
        assert forall|j: int| 0 <= j < values.len() implies states[values.len() as int][j]
            == values[j] by {
            if j < m {
                assert(head_states[m][j] == head_values[j]);
            }
        }
    }
}

impl<T> Default for BfVec<T> {
    /// The default vector is empty with zero capacity.
    fn default() -> (v: Self)
        ensures
            v.wf(),
            v@ == Seq::<T>::empty(),
            v.shared.capacity == 0,
    {
        BfVec::new()
    }
}

} // verus!
