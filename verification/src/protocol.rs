//! The busy-forbidden protocol as a state machine.
//!
//! A lock instance is a roster of control words, one per handle, an
//! administrative mutex, and the protected payload. Every atomic
//! access of the protocol is one transition of the machine: readers
//! raise their own `busy` flag, observe their own `forbidden` flag and
//! either enter or retreat; writers take the administrative mutex,
//! raise `forbidden` on every roster entry, and wait for every other
//! entry's `busy` flag to be observed clear.
//!
//! [`ProtocolState`] carries the whole instance; the executable
//! methods below perform one transition each and their contracts tie
//! them to the spec-level relations `step_*`. The inductive invariant
//! over the machine and the safety theorems proved from it (mutual
//! exclusion, writer serialization, scoped release) are in
//! [`crate::safety`].

use vstd::prelude::*;

verus! {

/// Where a handle stands in the protocol.
#[derive(Clone, Copy, PartialEq, Eq, Structural, Debug)]
pub enum Phase {
    /// Not engaged in any operation.
    Idle,
    /// Shared acquisition: `busy` is raised and the handle is about to
    /// observe its own `forbidden` flag.
    Check,
    /// Shared access: a read guard is live.
    Reading,
    /// Shared acquisition observed `forbidden`; the handle will clear
    /// its own `busy` flag.
    Retreat,
    /// Retreated; the handle waits for the administrative mutex purely
    /// as a rendezvous with the active writer.
    AwaitMutex,
    /// Holding the administrative mutex for the rendezvous; `busy`
    /// will be raised again.
    Rendezvous,
    /// `busy` raised again under the administrative mutex; the mutex
    /// will be released and the `forbidden` flag observed once more.
    RendezvousDone,
    /// Exclusive acquisition: holding the administrative mutex,
    /// raising `forbidden` entry by entry; entries below the index are
    /// already marked.
    Forbidding(usize),
    /// Exclusive acquisition: every entry is forbidden; the `busy`
    /// flags of entries below the index were observed clear.
    WaitBusy(usize),
    /// Exclusive access: a write guard is live.
    Writing,
    /// Write guard drop: clearing `forbidden` entry by entry; entries
    /// below the index are already clear.
    Unforbidding(usize),
    /// Holding the administrative mutex to append a fresh roster entry
    /// for a cloned handle.
    CloneHold,
    /// Holding the administrative mutex to vacate the handle's own
    /// roster slot.
    DropHold,
    /// The handle was destroyed; its roster slot is a tombstone.
    Dropped,
}

impl Phase {
    /// Phases in which the handle holds the administrative mutex.
    pub open spec fn is_mutex_phase(self) -> bool {
        match self {
            Phase::Rendezvous => true,
            Phase::RendezvousDone => true,
            Phase::Forbidding(_) => true,
            Phase::WaitBusy(_) => true,
            Phase::Writing => true,
            Phase::Unforbidding(_) => true,
            Phase::CloneHold => true,
            Phase::DropHold => true,
            _ => false,
        }
    }

    /// Phases in which the handle's own `busy` flag is raised.
    pub open spec fn is_busy_phase(self) -> bool {
        match self {
            Phase::Check => true,
            Phase::Reading => true,
            Phase::Retreat => true,
            Phase::RendezvousDone => true,
            _ => false,
        }
    }

    /// Phases of the exclusive path, from the first `forbidden` mark
    /// to the last one cleared.
    pub open spec fn is_writer_phase(self) -> bool {
        match self {
            Phase::Forbidding(_) => true,
            Phase::WaitBusy(_) => true,
            Phase::Writing => true,
            Phase::Unforbidding(_) => true,
            _ => false,
        }
    }

    /// Phases a handle can sit in while its `forbidden` flag is raised
    /// and the administrative mutex is taken by a writer. From these a
    /// handle cannot reach `Reading` without observing `forbidden`.
    pub open spec fn is_held_back(self) -> bool {
        match self {
            Phase::Idle => true,
            Phase::Check => true,
            Phase::Retreat => true,
            Phase::AwaitMutex => true,
            _ => false,
        }
    }

    /// Which roster entries a writer in this phase keeps forbidden.
    pub open spec fn forbids(self, i: int) -> bool {
        match self {
            Phase::Forbidding(k) => i < k,
            Phase::WaitBusy(_) => true,
            Phase::Writing => true,
            Phase::Unforbidding(k) => i >= k,
            _ => false,
        }
    }

    /// Which roster entries a writer in this phase has confirmed to be
    /// out of, and barred from, their shared critical section.
    pub open spec fn excludes(self, i: int) -> bool {
        match self {
            Phase::WaitBusy(k) => i < k,
            Phase::Writing => true,
            Phase::Unforbidding(k) => i >= k,
            _ => false,
        }
    }

    /// The scan indices carried by the exclusive-path phases never
    /// pass the roster length.
    pub open spec fn counter_in_bounds(self, n: int) -> bool {
        match self {
            Phase::Forbidding(k) => k <= n,
            Phase::WaitBusy(k) => k <= n,
            Phase::Unforbidding(k) => k <= n,
            _ => true,
        }
    }
}

/// One roster entry: the control word of a handle — its `busy` and
/// `forbidden` flags — or a tombstone, together with the position of
/// the owning handle in the protocol.
#[derive(Clone, Copy, PartialEq, Eq, Structural, Debug)]
pub struct Slot {
    /// The entry holds a control word; cleared when the handle drops.
    pub live: bool,
    /// Raised by the owning handle around its shared critical section.
    pub busy: bool,
    /// Raised by an active writer to veto shared acquisition.
    pub forbidden: bool,
    /// The owning handle's position in the protocol.
    pub phase: Phase,
}

/// A fresh roster entry: live, both flags clear, handle idle.
pub open spec fn fresh_slot() -> Slot {
    Slot { live: true, busy: false, forbidden: false, phase: Phase::Idle }
}

/// A whole lock instance: the roster, the administrative mutex and the
/// protected payload.
#[derive(Clone)]
pub struct ProtocolState<T> {
    /// The roster; indices are handle slot numbers and only grow.
    pub slots: Vec<Slot>,
    /// The handle currently holding the administrative mutex.
    pub holder: Option<usize>,
    /// The protected datum; read in `Reading`, replaced in `Writing`.
    pub payload: T,
}

impl<T> ProtocolState<T> {
    pub open spec fn slot(self, i: int) -> Slot {
        self.slots@[i]
    }

    pub open spec fn in_range(self, i: int) -> bool {
        0 <= i < self.slots@.len()
    }

    /// The slot belongs to a handle that was not dropped.
    pub open spec fn live(self, i: int) -> bool {
        self.in_range(i) && self.slot(i).live
    }

    pub open spec fn holds_mutex(self, i: int) -> bool {
        match self.holder {
            Some(h) => h as int == i,
            None => false,
        }
    }

    /// The handle on the exclusive path holding the administrative
    /// mutex, if any.
    pub open spec fn active_writer(self) -> Option<int> {
        match self.holder {
            Some(h) => if self.in_range(h as int) && self.slot(h as int).phase.is_writer_phase() {
                Some(h as int)
            } else {
                None
            },
            None => None,
        }
    }

    /// The administrative mutex is held exactly by the handles whose
    /// phase says so, and by at most one handle.
    pub open spec fn inv_holder(self) -> bool {
        &&& (self.holder matches Some(h) ==> self.live(h as int)
            && self.slot(h as int).phase.is_mutex_phase())
        &&& (forall|i: int|
            self.in_range(i) && (#[trigger] self.slot(i)).phase.is_mutex_phase()
                ==> self.holds_mutex(i))
    }

    /// Slot-local facts: tombstones carry no flags, `busy` follows the
    /// owning handle's phase, scan indices stay in bounds.
    pub open spec fn inv_slots(self) -> bool {
        forall|i: int| self.in_range(i) ==> {
            let s = #[trigger] self.slot(i);
            &&& (s.live <==> !(s.phase is Dropped))
            &&& (!s.live ==> !s.busy && !s.forbidden)
            &&& (s.live ==> (s.busy <==> s.phase.is_busy_phase()))
            &&& s.phase.counter_in_bounds(self.slots@.len() as int)
        }
    }

    /// `forbidden` flags are raised exactly where the active writer's
    /// phase says; with no active writer every flag is clear.
    pub open spec fn inv_forbidden(self) -> bool {
        match self.active_writer() {
            Some(w) => forall|i: int|
                self.live(i) ==> ((#[trigger] self.slot(i)).forbidden
                    <==> self.slot(w).phase.forbids(i)),
            None => forall|i: int| self.live(i) ==> !(#[trigger] self.slot(i)).forbidden,
        }
    }

    /// Every entry the active writer has confirmed clear stays out of
    /// its shared critical section.
    pub open spec fn inv_exclusion(self) -> bool {
        match self.active_writer() {
            Some(w) => forall|i: int|
                self.live(i) && i != w && self.slot(w).phase.excludes(i)
                    ==> (#[trigger] self.slot(i)).phase.is_held_back(),
            None => true,
        }
    }

    /// The inductive invariant of the protocol.
    pub open spec fn inv(self) -> bool {
        &&& self.inv_holder()
        &&& self.inv_slots()
        &&& self.inv_forbidden()
        &&& self.inv_exclusion()
    }

    /// A freshly created instance: one idle handle, mutex free.
    pub open spec fn is_init(self) -> bool {
        &&& self.slots@ == seq![fresh_slot()]
        &&& self.holder is None
    }

    // ----- the transition relations, one per atomic protocol action -----

    /// Everything but the roster entries is unchanged.
    pub open spec fn frame(pre: Self, post: Self) -> bool {
        &&& post.holder == pre.holder
        &&& post.payload == pre.payload
    }

    /// Shared acquisition, first action: the handle publishes intent
    /// by raising its own `busy` flag.
    pub open spec fn step_begin_read(pre: Self, post: Self, i: int) -> bool {
        &&& pre.live(i)
        &&& pre.slot(i).phase is Idle
        &&& post.slots@ == pre.slots@.update(i, Slot { busy: true, phase: Phase::Check, ..pre.slot(i) })
        &&& Self::frame(pre, post)
    }

    /// Shared acquisition, second action, clear case: the handle
    /// observes its own `forbidden` flag clear and enters the shared
    /// critical section.
    pub open spec fn step_check_enter(pre: Self, post: Self, i: int) -> bool {
        &&& pre.live(i)
        &&& pre.slot(i).phase is Check
        &&& !pre.slot(i).forbidden
        &&& post.slots@ == pre.slots@.update(i, Slot { phase: Phase::Reading, ..pre.slot(i) })
        &&& Self::frame(pre, post)
    }

    /// Shared acquisition, second action, vetoed case: the handle
    /// observes its own `forbidden` flag raised and starts retreating.
    pub open spec fn step_check_retreat(pre: Self, post: Self, i: int) -> bool {
        &&& pre.live(i)
        &&& pre.slot(i).phase is Check
        &&& pre.slot(i).forbidden
        &&& post.slots@ == pre.slots@.update(i, Slot { phase: Phase::Retreat, ..pre.slot(i) })
        &&& Self::frame(pre, post)
    }

    /// Retreat: the handle clears its own `busy` flag so the writer's
    /// scan can pass it.
    pub open spec fn step_retreat_clear(pre: Self, post: Self, i: int) -> bool {
        &&& pre.live(i)
        &&& pre.slot(i).phase is Retreat
        &&& post.slots@ == pre.slots@.update(i, Slot { busy: false, phase: Phase::AwaitMutex, ..pre.slot(i) })
        &&& Self::frame(pre, post)
    }

    /// Retreat: the handle takes the administrative mutex as a
    /// rendezvous; possible only once the writer released it.
    pub open spec fn step_retreat_lock(pre: Self, post: Self, i: int) -> bool {
        &&& pre.live(i)
        &&& pre.slot(i).phase is AwaitMutex
        &&& pre.holder is None
        &&& post.slots@ == pre.slots@.update(i, Slot { phase: Phase::Rendezvous, ..pre.slot(i) })
        &&& post.holder is Some
        &&& post.holds_mutex(i)
        &&& post.payload == pre.payload
    }

    /// Retreat: the handle raises `busy` again under the mutex.
    pub open spec fn step_retreat_publish(pre: Self, post: Self, i: int) -> bool {
        &&& pre.live(i)
        &&& pre.slot(i).phase is Rendezvous
        &&& post.slots@ == pre.slots@.update(i, Slot { busy: true, phase: Phase::RendezvousDone, ..pre.slot(i) })
        &&& Self::frame(pre, post)
    }

    /// Retreat: the handle releases the mutex and will observe its
    /// `forbidden` flag once more.
    pub open spec fn step_retreat_unlock(pre: Self, post: Self, i: int) -> bool {
        &&& pre.live(i)
        &&& pre.slot(i).phase is RendezvousDone
        &&& pre.holds_mutex(i)
        &&& post.slots@ == pre.slots@.update(i, Slot { phase: Phase::Check, ..pre.slot(i) })
        &&& post.holder is None
        &&& post.payload == pre.payload
    }

    /// Read guard drop: the handle clears its own `busy` flag.
    pub open spec fn step_end_read(pre: Self, post: Self, i: int) -> bool {
        &&& pre.live(i)
        &&& pre.slot(i).phase is Reading
        &&& post.slots@ == pre.slots@.update(i, Slot { busy: false, phase: Phase::Idle, ..pre.slot(i) })
        &&& Self::frame(pre, post)
    }

    /// Exclusive acquisition, first action: take the administrative
    /// mutex, which admits only one writer.
    pub open spec fn step_begin_write(pre: Self, post: Self, i: int) -> bool {
        &&& pre.live(i)
        &&& pre.slot(i).phase is Idle
        &&& pre.holder is None
        &&& post.slots@ == pre.slots@.update(i, Slot { phase: Phase::Forbidding(0), ..pre.slot(i) })
        &&& post.holder is Some
        &&& post.holds_mutex(i)
        &&& post.payload == pre.payload
    }

    /// Exclusive acquisition: raise `forbidden` on the roster entry at
    /// the scan index (a tombstone is skipped).
    pub open spec fn step_forbid_advance(pre: Self, post: Self, i: int, k: int) -> bool {
        let marked = if pre.slot(k).live {
            pre.slots@.update(k, Slot { forbidden: true, ..pre.slot(k) })
        } else {
            pre.slots@
        };
        &&& pre.live(i)
        &&& pre.slot(i).phase == Phase::Forbidding(k as usize)
        &&& 0 <= k < pre.slots@.len()
        &&& post.slots@ == marked.update(i, Slot { phase: Phase::Forbidding((k + 1) as usize), ..marked[i] })
        &&& Self::frame(pre, post)
    }

    /// Exclusive acquisition: every entry is marked; start waiting for
    /// the `busy` flags.
    pub open spec fn step_forbid_done(pre: Self, post: Self, i: int) -> bool {
        &&& pre.live(i)
        &&& pre.slot(i).phase == Phase::Forbidding(pre.slots@.len() as usize)
        &&& post.slots@ == pre.slots@.update(i, Slot { phase: Phase::WaitBusy(0), ..pre.slot(i) })
        &&& Self::frame(pre, post)
    }

    /// Exclusive acquisition: the entry at the scan index was observed
    /// out of its shared critical section — its `busy` flag is clear,
    /// or it is the writer's own entry, or a tombstone.
    pub open spec fn step_wait_advance(pre: Self, post: Self, i: int, k: int) -> bool {
        &&& pre.live(i)
        &&& pre.slot(i).phase == Phase::WaitBusy(k as usize)
        &&& 0 <= k < pre.slots@.len()
        &&& (k == i || !pre.slot(k).live || !pre.slot(k).busy)
        &&& post.slots@ == pre.slots@.update(i, Slot { phase: Phase::WaitBusy((k + 1) as usize), ..pre.slot(i) })
        &&& Self::frame(pre, post)
    }

    /// Exclusive acquisition complete: every other entry was observed
    /// clear; the write guard is live.
    pub open spec fn step_wait_done(pre: Self, post: Self, i: int) -> bool {
        &&& pre.live(i)
        &&& pre.slot(i).phase == Phase::WaitBusy(pre.slots@.len() as usize)
        &&& post.slots@ == pre.slots@.update(i, Slot { phase: Phase::Writing, ..pre.slot(i) })
        &&& Self::frame(pre, post)
    }

    /// The payload is replaced; only a handle whose write guard is
    /// live can do so.
    pub open spec fn step_mutate(pre: Self, post: Self, i: int) -> bool {
        &&& pre.live(i)
        &&& pre.slot(i).phase is Writing
        &&& post.slots@ == pre.slots@
        &&& post.holder == pre.holder
    }

    /// Write guard drop begins: the `forbidden` flags will be cleared.
    pub open spec fn step_end_write(pre: Self, post: Self, i: int) -> bool {
        &&& pre.live(i)
        &&& pre.slot(i).phase is Writing
        &&& post.slots@ == pre.slots@.update(i, Slot { phase: Phase::Unforbidding(0), ..pre.slot(i) })
        &&& Self::frame(pre, post)
    }

    /// Write guard drop: clear `forbidden` on the roster entry at the
    /// scan index (a tombstone is skipped).
    pub open spec fn step_unforbid_advance(pre: Self, post: Self, i: int, k: int) -> bool {
        let cleared = if pre.slot(k).live {
            pre.slots@.update(k, Slot { forbidden: false, ..pre.slot(k) })
        } else {
            pre.slots@
        };
        &&& pre.live(i)
        &&& pre.slot(i).phase == Phase::Unforbidding(k as usize)
        &&& 0 <= k < pre.slots@.len()
        &&& post.slots@ == cleared.update(i, Slot { phase: Phase::Unforbidding((k + 1) as usize), ..cleared[i] })
        &&& Self::frame(pre, post)
    }

    /// Write guard drop complete: every `forbidden` flag is clear and
    /// only then is the administrative mutex released.
    pub open spec fn step_unforbid_done(pre: Self, post: Self, i: int) -> bool {
        &&& pre.live(i)
        &&& pre.slot(i).phase == Phase::Unforbidding(pre.slots@.len() as usize)
        &&& pre.holds_mutex(i)
        &&& post.slots@ == pre.slots@.update(i, Slot { phase: Phase::Idle, ..pre.slot(i) })
        &&& post.holder is None
        &&& post.payload == pre.payload
    }

    /// Cloning, first action: take the administrative mutex.
    pub open spec fn step_begin_clone(pre: Self, post: Self, i: int) -> bool {
        &&& pre.live(i)
        &&& pre.slot(i).phase is Idle
        &&& pre.holder is None
        &&& post.slots@ == pre.slots@.update(i, Slot { phase: Phase::CloneHold, ..pre.slot(i) })
        &&& post.holder is Some
        &&& post.holds_mutex(i)
        &&& post.payload == pre.payload
    }

    /// Cloning, second action: append a fresh control word to the
    /// roster and release the mutex; the new handle owns the new slot.
    pub open spec fn step_finish_clone(pre: Self, post: Self, i: int) -> bool {
        &&& pre.live(i)
        &&& pre.slot(i).phase is CloneHold
        &&& pre.holds_mutex(i)
        &&& post.slots@ == pre.slots@.update(i, Slot { phase: Phase::Idle, ..pre.slot(i) }).push(fresh_slot())
        &&& post.holder is None
        &&& post.payload == pre.payload
    }

    /// Handle drop, first action: take the administrative mutex.
    pub open spec fn step_begin_drop(pre: Self, post: Self, i: int) -> bool {
        &&& pre.live(i)
        &&& pre.slot(i).phase is Idle
        &&& pre.holder is None
        &&& post.slots@ == pre.slots@.update(i, Slot { phase: Phase::DropHold, ..pre.slot(i) })
        &&& post.holder is Some
        &&& post.holds_mutex(i)
        &&& post.payload == pre.payload
    }

    /// Handle drop, second action: tombstone the handle's own slot and
    /// release the mutex. The roster keeps its length.
    pub open spec fn step_finish_drop(pre: Self, post: Self, i: int) -> bool {
        &&& pre.live(i)
        &&& pre.slot(i).phase is DropHold
        &&& pre.holds_mutex(i)
        &&& post.slots@ == pre.slots@.update(i, Slot { live: false, busy: false, forbidden: false, phase: Phase::Dropped })
        &&& post.holder is None
        &&& post.payload == pre.payload
    }

    /// Some handle performs one atomic protocol action.
    pub open spec fn step(pre: Self, post: Self, i: int) -> bool {
        ||| Self::step_begin_read(pre, post, i)
        ||| Self::step_check_enter(pre, post, i)
        ||| Self::step_check_retreat(pre, post, i)
        ||| Self::step_retreat_clear(pre, post, i)
        ||| Self::step_retreat_lock(pre, post, i)
        ||| Self::step_retreat_publish(pre, post, i)
        ||| Self::step_retreat_unlock(pre, post, i)
        ||| Self::step_end_read(pre, post, i)
        ||| Self::step_begin_write(pre, post, i)
        ||| (exists|k: int| Self::step_forbid_advance(pre, post, i, k))
        ||| Self::step_forbid_done(pre, post, i)
        ||| (exists|k: int| Self::step_wait_advance(pre, post, i, k))
        ||| Self::step_wait_done(pre, post, i)
        ||| Self::step_mutate(pre, post, i)
        ||| Self::step_end_write(pre, post, i)
        ||| (exists|k: int| Self::step_unforbid_advance(pre, post, i, k))
        ||| Self::step_unforbid_done(pre, post, i)
        ||| Self::step_begin_clone(pre, post, i)
        ||| Self::step_finish_clone(pre, post, i)
        ||| Self::step_begin_drop(pre, post, i)
        ||| Self::step_finish_drop(pre, post, i)
    }

    /// The transition relation of the machine: any interleaving of the
    /// handles' actions is a sequence of these.
    pub open spec fn next(pre: Self, post: Self) -> bool {
        exists|i: int| #[trigger] Self::step(pre, post, i)
    }

    /// `post` is reached from `pre` by `n` transitions: an execution
    /// of the machine.
    pub open spec fn reaches(pre: Self, post: Self, n: nat) -> bool
        decreases n,
    {
        if n == 0 {
            post == pre
        } else {
            exists|mid: Self|
                Self::reaches(pre, mid, (n - 1) as nat) && #[trigger] Self::next(mid, post)
        }
    }
}

impl<T> ProtocolState<T> {
    /// Creates a lock instance over an initial payload; the creator
    /// owns roster slot zero.
    pub fn new(payload: T) -> (s: Self)
        ensures
            s.inv(),
            s.is_init(),
            s.payload == payload,
            s.live(0),
            s.slot(0).phase is Idle,
    {
        let mut slots: Vec<Slot> = Vec::new();
        slots.push(Slot { live: true, busy: false, forbidden: false, phase: Phase::Idle });
        let s = ProtocolState { slots, holder: None, payload };
        proof {
            assert(s.slots@ =~= seq![fresh_slot()]);
            crate::safety::lemma_init_inv(s);
        }
        s
    }

    /// Shared acquisition, first access: raise the handle's own `busy`
    /// flag.
    pub fn begin_read(&mut self, i: usize)
        requires
            old(self).inv(),
            old(self).live(i as int),
            old(self).slot(i as int).phase is Idle,
        ensures
            final(self).inv(),
            Self::step_begin_read(*old(self), *final(self), i as int),
            final(self).slot(i as int).phase is Check,
    {
        let slot = self.slots[i];
        self.slots[i] = Slot { busy: true, phase: Phase::Check, ..slot };
        proof {
            assert(Self::step(*old(self), *self, i as int));
            crate::safety::lemma_step_preserves_inv(*old(self), *self, i as int);
        }
    }

    /// Shared acquisition, second access: observe the handle's own
    /// `forbidden` flag. Clear — the read guard is live; raised — the
    /// handle retreats.
    pub fn check_forbidden(&mut self, i: usize) -> (entered: bool)
        requires
            old(self).inv(),
            old(self).live(i as int),
            old(self).slot(i as int).phase is Check,
        ensures
            final(self).inv(),
            entered == !old(self).slot(i as int).forbidden,
            entered ==> Self::step_check_enter(*old(self), *final(self), i as int)
                && final(self).slot(i as int).phase is Reading,
            !entered ==> Self::step_check_retreat(*old(self), *final(self), i as int)
                && final(self).slot(i as int).phase is Retreat,
    {
        let slot = self.slots[i];
        if !slot.forbidden {
            self.slots[i] = Slot { phase: Phase::Reading, ..slot };
            proof {
                assert(Self::step(*old(self), *self, i as int));
                crate::safety::lemma_step_preserves_inv(*old(self), *self, i as int);
            }
            true
        } else {
            self.slots[i] = Slot { phase: Phase::Retreat, ..slot };
            proof {
                assert(Self::step(*old(self), *self, i as int));
                crate::safety::lemma_step_preserves_inv(*old(self), *self, i as int);
            }
            false
        }
    }

    /// Retreat: clear the handle's own `busy` flag so the writer's
    /// scan can pass it.
    pub fn retreat_clear(&mut self, i: usize)
        requires
            old(self).inv(),
            old(self).live(i as int),
            old(self).slot(i as int).phase is Retreat,
        ensures
            final(self).inv(),
            Self::step_retreat_clear(*old(self), *final(self), i as int),
            final(self).slot(i as int).phase is AwaitMutex,
            !final(self).slot(i as int).busy,
    {
        let slot = self.slots[i];
        self.slots[i] = Slot { busy: false, phase: Phase::AwaitMutex, ..slot };
        proof {
            assert(Self::step(*old(self), *self, i as int));
            crate::safety::lemma_step_preserves_inv(*old(self), *self, i as int);
        }
    }

    /// Retreat: take the administrative mutex as a rendezvous with the
    /// writer; enabled only once the mutex is free.
    pub fn retreat_lock(&mut self, i: usize)
        requires
            old(self).inv(),
            old(self).live(i as int),
            old(self).slot(i as int).phase is AwaitMutex,
            old(self).holder is None,
        ensures
            final(self).inv(),
            Self::step_retreat_lock(*old(self), *final(self), i as int),
            final(self).slot(i as int).phase is Rendezvous,
    {
        let slot = self.slots[i];
        self.slots[i] = Slot { phase: Phase::Rendezvous, ..slot };
        self.holder = Some(i);
        proof {
            assert(Self::step(*old(self), *self, i as int));
            crate::safety::lemma_step_preserves_inv(*old(self), *self, i as int);
        }
    }

    /// Retreat: raise `busy` again while holding the mutex.
    pub fn retreat_publish(&mut self, i: usize)
        requires
            old(self).inv(),
            old(self).live(i as int),
            old(self).slot(i as int).phase is Rendezvous,
        ensures
            final(self).inv(),
            Self::step_retreat_publish(*old(self), *final(self), i as int),
            final(self).slot(i as int).phase is RendezvousDone,
    {
        let slot = self.slots[i];
        self.slots[i] = Slot { busy: true, phase: Phase::RendezvousDone, ..slot };
        proof {
            assert(Self::step(*old(self), *self, i as int));
            crate::safety::lemma_step_preserves_inv(*old(self), *self, i as int);
        }
    }

    /// Retreat: release the mutex; the handle will observe `forbidden`
    /// once more.
    pub fn retreat_unlock(&mut self, i: usize)
        requires
            old(self).inv(),
            old(self).live(i as int),
            old(self).slot(i as int).phase is RendezvousDone,
        ensures
            final(self).inv(),
            Self::step_retreat_unlock(*old(self), *final(self), i as int),
            final(self).slot(i as int).phase is Check,
            final(self).holder is None,
    {
        proof {
            assert(old(self).slot(i as int).phase.is_mutex_phase());
            assert(old(self).holds_mutex(i as int));
        }
        let slot = self.slots[i];
        self.slots[i] = Slot { phase: Phase::Check, ..slot };
        self.holder = None;
        proof {
            assert(Self::step(*old(self), *self, i as int));
            crate::safety::lemma_step_preserves_inv(*old(self), *self, i as int);
        }
    }

    /// Read guard drop: clear the handle's own `busy` flag.
    pub fn end_read(&mut self, i: usize)
        requires
            old(self).inv(),
            old(self).live(i as int),
            old(self).slot(i as int).phase is Reading,
        ensures
            final(self).inv(),
            Self::step_end_read(*old(self), *final(self), i as int),
            final(self).slot(i as int).phase is Idle,
            !final(self).slot(i as int).busy,
    {
        let slot = self.slots[i];
        self.slots[i] = Slot { busy: false, phase: Phase::Idle, ..slot };
        proof {
            assert(Self::step(*old(self), *self, i as int));
            crate::safety::lemma_step_preserves_inv(*old(self), *self, i as int);
        }
    }

    /// Exclusive acquisition, first action: take the administrative
    /// mutex, which admits only one writer; enabled only once the
    /// mutex is free.
    pub fn begin_write(&mut self, i: usize)
        requires
            old(self).inv(),
            old(self).live(i as int),
            old(self).slot(i as int).phase is Idle,
            old(self).holder is None,
        ensures
            final(self).inv(),
            Self::step_begin_write(*old(self), *final(self), i as int),
            final(self).slot(i as int).phase == Phase::Forbidding(0usize),
    {
        let slot = self.slots[i];
        self.slots[i] = Slot { phase: Phase::Forbidding(0), ..slot };
        self.holder = Some(i);
        proof {
            assert(Self::step(*old(self), *self, i as int));
            crate::safety::lemma_step_preserves_inv(*old(self), *self, i as int);
        }
    }

    /// Exclusive acquisition: raise `forbidden` on the roster entry at
    /// the scan index, or, past the end, move on to waiting for the
    /// `busy` flags.
    pub fn forbid_step(&mut self, i: usize)
        requires
            old(self).inv(),
            old(self).live(i as int),
            old(self).slot(i as int).phase is Forbidding,
        ensures
            final(self).inv(),
            (old(self).slot(i as int).phase matches Phase::Forbidding(k) ==> (
                if (k as int) < old(self).slots@.len() {
                    Self::step_forbid_advance(*old(self), *final(self), i as int, k as int)
                } else {
                    Self::step_forbid_done(*old(self), *final(self), i as int)
                        && final(self).slot(i as int).phase == Phase::WaitBusy(0usize)
                })),
    {
        proof {
            assert(old(self).slot(i as int).phase.counter_in_bounds(old(self).slots@.len() as int));
        }
        let n = self.slots.len();
        let slot = self.slots[i];
        match slot.phase {
            Phase::Forbidding(k) => {
                if k < n {
                    let target = self.slots[k];
                    if target.live {
                        self.slots[k] = Slot { forbidden: true, ..target };
                    }
                    let marked = self.slots[i];
                    self.slots[i] = Slot { phase: Phase::Forbidding(k + 1), ..marked };
                    proof {
                        assert(Self::step_forbid_advance(*old(self), *self, i as int, k as int));
                        assert(Self::step(*old(self), *self, i as int));
                        crate::safety::lemma_step_preserves_inv(*old(self), *self, i as int);
                    }
                } else {
                    self.slots[i] = Slot { phase: Phase::WaitBusy(0), ..slot };
                    proof {
                        assert(Self::step(*old(self), *self, i as int));
                        crate::safety::lemma_step_preserves_inv(*old(self), *self, i as int);
                    }
                }
            }
            _ => {
                proof {
                    assert(false);
                }
            }
        }
    }

    /// Exclusive acquisition: probe the `busy` flag of the roster
    /// entry at the scan index. The scan advances when the entry is
    /// the writer's own, a tombstone, or observed clear; otherwise the
    /// writer spins and the state is unchanged. Past the end the write
    /// guard is live.
    pub fn wait_step(&mut self, i: usize) -> (advanced: bool)
        requires
            old(self).inv(),
            old(self).live(i as int),
            old(self).slot(i as int).phase is WaitBusy,
        ensures
            final(self).inv(),
            (old(self).slot(i as int).phase matches Phase::WaitBusy(k) ==> (
                if (k as int) == old(self).slots@.len() {
                    advanced && Self::step_wait_done(*old(self), *final(self), i as int)
                        && final(self).slot(i as int).phase is Writing
                } else if (k as int == i as int || !old(self).slot(k as int).live
                    || !old(self).slot(k as int).busy) {
                    advanced && Self::step_wait_advance(*old(self), *final(self), i as int, k as int)
                } else {
                    !advanced && *final(self) == *old(self)
                })),
    {
        proof {
            assert(old(self).slot(i as int).phase.counter_in_bounds(old(self).slots@.len() as int));
        }
        let n = self.slots.len();
        let slot = self.slots[i];
        match slot.phase {
            Phase::WaitBusy(k) => {
                if k == n {
                    self.slots[i] = Slot { phase: Phase::Writing, ..slot };
                    proof {
                        assert(Self::step(*old(self), *self, i as int));
                        crate::safety::lemma_step_preserves_inv(*old(self), *self, i as int);
                    }
                    true
                } else {
                    let target = self.slots[k];
                    if k == i || !target.live || !target.busy {
                        self.slots[i] = Slot { phase: Phase::WaitBusy(k + 1), ..slot };
                        proof {
                            assert(Self::step_wait_advance(*old(self), *self, i as int, k as int));
                            assert(Self::step(*old(self), *self, i as int));
                            crate::safety::lemma_step_preserves_inv(*old(self), *self, i as int);
                        }
                        true
                    } else {
                        false
                    }
                }
            }
            _ => {
                proof {
                    assert(false);
                }
                false
            }
        }
    }

    /// Replace the payload; only a handle whose write guard is live
    /// may do so.
    pub fn set_payload(&mut self, i: usize, value: T)
        requires
            old(self).inv(),
            old(self).live(i as int),
            old(self).slot(i as int).phase is Writing,
        ensures
            final(self).inv(),
            Self::step_mutate(*old(self), *final(self), i as int),
            final(self).payload == value,
            final(self).slots@ == old(self).slots@,
            final(self).holder == old(self).holder,
    {
        self.payload = value;
        proof {
            assert(Self::step(*old(self), *self, i as int));
            crate::safety::lemma_step_preserves_inv(*old(self), *self, i as int);
        }
    }

    /// Observe the payload; possible while the handle's read or write
    /// guard is live.
    pub fn get_payload(&self, i: usize) -> (r: &T)
        requires
            self.live(i as int),
            self.slot(i as int).phase is Reading || self.slot(i as int).phase is Writing,
        ensures
            *r == self.payload,
    {
        &self.payload
    }

    /// Write guard drop begins: the `forbidden` flags will now be
    /// cleared one by one.
    pub fn end_write(&mut self, i: usize)
        requires
            old(self).inv(),
            old(self).live(i as int),
            old(self).slot(i as int).phase is Writing,
        ensures
            final(self).inv(),
            Self::step_end_write(*old(self), *final(self), i as int),
            final(self).slot(i as int).phase == Phase::Unforbidding(0usize),
    {
        let slot = self.slots[i];
        self.slots[i] = Slot { phase: Phase::Unforbidding(0), ..slot };
        proof {
            assert(Self::step(*old(self), *self, i as int));
            crate::safety::lemma_step_preserves_inv(*old(self), *self, i as int);
        }
    }

    /// Write guard drop: clear `forbidden` on the roster entry at the
    /// scan index; past the end, release the administrative mutex —
    /// in that order, so a rendezvousing reader retries with its
    /// `forbidden` flag already clear.
    pub fn unforbid_step(&mut self, i: usize)
        requires
            old(self).inv(),
            old(self).live(i as int),
            old(self).slot(i as int).phase is Unforbidding,
        ensures
            final(self).inv(),
            (old(self).slot(i as int).phase matches Phase::Unforbidding(k) ==> (
                if (k as int) < old(self).slots@.len() {
                    Self::step_unforbid_advance(*old(self), *final(self), i as int, k as int)
                } else {
                    Self::step_unforbid_done(*old(self), *final(self), i as int)
                        && final(self).slot(i as int).phase is Idle
                        && final(self).holder is None
                        // Scoped release: the whole roster leaves the
                        // exclusive section with `forbidden` clear.
                        && (forall|j: int|
                            final(self).live(j) ==> !(#[trigger] final(self).slot(j)).forbidden)
                })),
    {
        proof {
            assert(old(self).slot(i as int).phase.counter_in_bounds(old(self).slots@.len() as int));
            assert(old(self).slot(i as int).phase.is_mutex_phase());
            assert(old(self).holds_mutex(i as int));
        }
        let n = self.slots.len();
        let slot = self.slots[i];
        match slot.phase {
            Phase::Unforbidding(k) => {
                if k < n {
                    let target = self.slots[k];
                    if target.live {
                        self.slots[k] = Slot { forbidden: false, ..target };
                    }
                    let cleared = self.slots[i];
                    self.slots[i] = Slot { phase: Phase::Unforbidding(k + 1), ..cleared };
                    proof {
                        assert(Self::step_unforbid_advance(*old(self), *self, i as int, k as int));
                        assert(Self::step(*old(self), *self, i as int));
                        crate::safety::lemma_step_preserves_inv(*old(self), *self, i as int);
                    }
                } else {
                    self.slots[i] = Slot { phase: Phase::Idle, ..slot };
                    self.holder = None;
                    proof {
                        assert(Self::step(*old(self), *self, i as int));
                        crate::safety::lemma_step_preserves_inv(*old(self), *self, i as int);
                        crate::safety::lemma_no_writer_no_forbidden(*self);
                    }
                }
            }
            _ => {
                proof {
                    assert(false);
                }
            }
        }
    }

    /// Cloning, first action: take the administrative mutex; enabled
    /// only once the mutex is free.
    pub fn begin_clone(&mut self, i: usize)
        requires
            old(self).inv(),
            old(self).live(i as int),
            old(self).slot(i as int).phase is Idle,
            old(self).holder is None,
        ensures
            final(self).inv(),
            Self::step_begin_clone(*old(self), *final(self), i as int),
            final(self).slot(i as int).phase is CloneHold,
    {
        let slot = self.slots[i];
        self.slots[i] = Slot { phase: Phase::CloneHold, ..slot };
        self.holder = Some(i);
        proof {
            assert(Self::step(*old(self), *self, i as int));
            crate::safety::lemma_step_preserves_inv(*old(self), *self, i as int);
        }
    }

    /// Cloning, second action: append a fresh control word to the
    /// roster and release the mutex. The returned index is the new
    /// handle's roster slot, freshly occupied and idle.
    pub fn finish_clone(&mut self, i: usize) -> (new_slot: usize)
        requires
            old(self).inv(),
            old(self).live(i as int),
            old(self).slot(i as int).phase is CloneHold,
        ensures
            final(self).inv(),
            Self::step_finish_clone(*old(self), *final(self), i as int),
            new_slot as int == old(self).slots@.len(),
            final(self).slots@.len() == old(self).slots@.len() + 1,
            final(self).live(new_slot as int),
            final(self).slot(new_slot as int) == crate::protocol::fresh_slot(),
            final(self).slot(i as int).phase is Idle,
            final(self).holder is None,
    {
        proof {
            assert(old(self).slot(i as int).phase.is_mutex_phase());
            assert(old(self).holds_mutex(i as int));
        }
        let slot = self.slots[i];
        self.slots[i] = Slot { phase: Phase::Idle, ..slot };
        self.slots.push(Slot { live: true, busy: false, forbidden: false, phase: Phase::Idle });
        self.holder = None;
        let new_slot = self.slots.len() - 1;
        proof {
            assert(Self::step(*old(self), *self, i as int));
            crate::safety::lemma_step_preserves_inv(*old(self), *self, i as int);
        }
        new_slot
    }

    /// Handle drop, first action: take the administrative mutex;
    /// enabled only once the mutex is free.
    pub fn begin_drop(&mut self, i: usize)
        requires
            old(self).inv(),
            old(self).live(i as int),
            old(self).slot(i as int).phase is Idle,
            old(self).holder is None,
        ensures
            final(self).inv(),
            Self::step_begin_drop(*old(self), *final(self), i as int),
            final(self).slot(i as int).phase is DropHold,
    {
        let slot = self.slots[i];
        self.slots[i] = Slot { phase: Phase::DropHold, ..slot };
        self.holder = Some(i);
        proof {
            assert(Self::step(*old(self), *self, i as int));
            crate::safety::lemma_step_preserves_inv(*old(self), *self, i as int);
        }
    }

    /// Handle drop, second action: tombstone the handle's own roster
    /// slot and release the mutex. The roster keeps its length.
    pub fn finish_drop(&mut self, i: usize)
        requires
            old(self).inv(),
            old(self).live(i as int),
            old(self).slot(i as int).phase is DropHold,
        ensures
            final(self).inv(),
            Self::step_finish_drop(*old(self), *final(self), i as int),
            final(self).slots@.len() == old(self).slots@.len(),
            !final(self).live(i as int),
            final(self).holder is None,
    {
        proof {
            assert(old(self).slot(i as int).phase.is_mutex_phase());
            assert(old(self).holds_mutex(i as int));
        }
        self.slots[i] = Slot { live: false, busy: false, forbidden: false, phase: Phase::Dropped };
        self.holder = None;
        proof {
            assert(Self::step(*old(self), *self, i as int));
            crate::safety::lemma_step_preserves_inv(*old(self), *self, i as int);
        }
    }

    /// Mutable access to the payload without locking: a mutable
    /// borrow of the whole instance proves nobody else can observe it.
    /// The invariant survives, since it never reads the payload — see
    /// [`crate::safety::lemma_inv_untouched_by_payload`].
    pub fn get_mut(&mut self) -> (r: &mut T)
        ensures
            *r == old(self).payload,
            final(self).payload == *final(r),
            final(self).slots@ == old(self).slots@,
            final(self).holder == old(self).holder,
    {
        &mut self.payload
    }

    /// The roster length.
    pub fn roster_len(&self) -> (n: usize)
        ensures
            n as int == self.slots@.len(),
    {
        self.slots.len()
    }

    /// The phase of the handle owning the given slot.
    pub fn phase_of(&self, i: usize) -> (p: Phase)
        requires
            (i as int) < self.slots@.len(),
        ensures
            p == self.slot(i as int).phase,
    {
        self.slots[i].phase
    }

    /// Whether the slot still holds a control word.
    pub fn live_of(&self, i: usize) -> (l: bool)
        requires
            (i as int) < self.slots@.len(),
        ensures
            l == self.slot(i as int).live,
    {
        self.slots[i].live
    }

    /// The `busy` flag of the slot's control word.
    pub fn busy_of(&self, i: usize) -> (b: bool)
        requires
            (i as int) < self.slots@.len(),
        ensures
            b == self.slot(i as int).busy,
    {
        self.slots[i].busy
    }

    /// The `forbidden` flag of the slot's control word.
    pub fn forbidden_of(&self, i: usize) -> (f: bool)
        requires
            (i as int) < self.slots@.len(),
        ensures
            f == self.slot(i as int).forbidden,
    {
        self.slots[i].forbidden
    }

    /// The current holder of the administrative mutex.
    pub fn mutex_holder(&self) -> (h: Option<usize>)
        ensures
            h == self.holder,
    {
        self.holder
    }
}

} // verus!
