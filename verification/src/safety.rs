//! The correctness proof of the busy-forbidden protocol.
//!
//! The inductive invariant [`ProtocolState::inv`] holds of a fresh
//! instance and is preserved by every transition of the machine, over
//! any number of handles and any interleaving. From it follow the
//! safety theorems: no handle reads while a writer writes, at most
//! one write guard is live, releases leave the flags clear, and the
//! roster never shrinks.

use vstd::prelude::*;

use crate::protocol::{Phase, ProtocolState};

verus! {

broadcast use vstd::std_specs::vec::axiom_spec_len;

/// The roster is a vector, so its length fits a machine word; the
/// scan indices of the exclusive path inherit that bound.
proof fn lemma_roster_len_bound<T>(s: ProtocolState<T>)
    ensures
        s.slots@.len() <= usize::MAX,
{
    assert(s.slots.len() == s.slots@.len());
}

/// A fresh instance satisfies the invariant.
pub proof fn lemma_init_inv<T>(s: ProtocolState<T>)
    requires
        s.is_init(),
    ensures
        s.inv(),
{
    assert(s.slots@.len() == 1);
    assert(s.slot(0) == crate::protocol::fresh_slot());
}

/// Frame facts of a transition that rewrites the single roster entry
/// at `i`.
proof fn lemma_point_update<T>(pre: ProtocolState<T>, post: ProtocolState<T>, i: int)
    requires
        0 <= i < pre.slots@.len(),
        post.slots@ == pre.slots@.update(i, post.slots@[i]),
    ensures
        post.slots@.len() == pre.slots@.len(),
        forall|j: int| 0 <= j < pre.slots@.len() && j != i ==> post.slot(j) == pre.slot(j),
{
}

proof fn lemma_begin_read_preserves<T>(pre: ProtocolState<T>, post: ProtocolState<T>, i: int)
    requires
        pre.inv(),
        ProtocolState::step_begin_read(pre, post, i),
    ensures
        post.inv(),
{
    lemma_point_update(pre, post, i);
}

proof fn lemma_check_enter_preserves<T>(pre: ProtocolState<T>, post: ProtocolState<T>, i: int)
    requires
        pre.inv(),
        ProtocolState::step_check_enter(pre, post, i),
    ensures
        post.inv(),
{
    lemma_point_update(pre, post, i);
}

proof fn lemma_check_retreat_preserves<T>(pre: ProtocolState<T>, post: ProtocolState<T>, i: int)
    requires
        pre.inv(),
        ProtocolState::step_check_retreat(pre, post, i),
    ensures
        post.inv(),
{
    lemma_point_update(pre, post, i);
}

proof fn lemma_retreat_clear_preserves<T>(pre: ProtocolState<T>, post: ProtocolState<T>, i: int)
    requires
        pre.inv(),
        ProtocolState::step_retreat_clear(pre, post, i),
    ensures
        post.inv(),
{
    lemma_point_update(pre, post, i);
}

proof fn lemma_end_read_preserves<T>(pre: ProtocolState<T>, post: ProtocolState<T>, i: int)
    requires
        pre.inv(),
        ProtocolState::step_end_read(pre, post, i),
    ensures
        post.inv(),
{
    lemma_point_update(pre, post, i);
}

proof fn lemma_retreat_lock_preserves<T>(pre: ProtocolState<T>, post: ProtocolState<T>, i: int)
    requires
        pre.inv(),
        ProtocolState::step_retreat_lock(pre, post, i),
    ensures
        post.inv(),
{
    lemma_point_update(pre, post, i);
}

proof fn lemma_retreat_publish_preserves<T>(pre: ProtocolState<T>, post: ProtocolState<T>, i: int)
    requires
        pre.inv(),
        ProtocolState::step_retreat_publish(pre, post, i),
    ensures
        post.inv(),
{
    lemma_point_update(pre, post, i);
}

proof fn lemma_retreat_unlock_preserves<T>(pre: ProtocolState<T>, post: ProtocolState<T>, i: int)
    requires
        pre.inv(),
        ProtocolState::step_retreat_unlock(pre, post, i),
    ensures
        post.inv(),
{
    lemma_point_update(pre, post, i);
}

proof fn lemma_begin_write_preserves<T>(pre: ProtocolState<T>, post: ProtocolState<T>, i: int)
    requires
        pre.inv(),
        ProtocolState::step_begin_write(pre, post, i),
    ensures
        post.inv(),
{
    lemma_point_update(pre, post, i);
}

proof fn lemma_forbid_advance_preserves<T>(pre: ProtocolState<T>, post: ProtocolState<T>, i: int, k: int)
    requires
        pre.inv(),
        ProtocolState::step_forbid_advance(pre, post, i, k),
    ensures
        post.inv(),
{
    lemma_roster_len_bound(pre);
    assert(post.slots@.len() == pre.slots@.len());
    assert forall|j: int| 0 <= j < pre.slots@.len() && j != i && j != k implies post.slot(j)
        == pre.slot(j) by {}
    assert(pre.holds_mutex(i));
    assert(pre.active_writer() == Some(i));
    assert(post.active_writer() == Some(i));
    assert forall|j: int| post.live(j) implies ((#[trigger] post.slot(j)).forbidden
        <==> post.slot(i).phase.forbids(j)) by {
        assert(pre.live(j));
        assert(pre.slot(j).forbidden <==> pre.slot(i).phase.forbids(j));
        if j == k {
            assert(post.slot(j).forbidden);
        } else {
            assert(post.slot(j).forbidden == pre.slot(j).forbidden);
        }
    }
}

proof fn lemma_forbid_done_preserves<T>(pre: ProtocolState<T>, post: ProtocolState<T>, i: int)
    requires
        pre.inv(),
        ProtocolState::step_forbid_done(pre, post, i),
    ensures
        post.inv(),
{
    lemma_roster_len_bound(pre);
    lemma_point_update(pre, post, i);
    assert(pre.holds_mutex(i));
    assert(post.active_writer() == Some(i));
    assert forall|j: int| post.live(j) implies (#[trigger] post.slot(j)).forbidden by {
        assert(pre.live(j));
        assert(pre.slot(j).forbidden <==> pre.slot(i).phase.forbids(j));
    }
}

proof fn lemma_wait_advance_preserves<T>(pre: ProtocolState<T>, post: ProtocolState<T>, i: int, k: int)
    requires
        pre.inv(),
        ProtocolState::step_wait_advance(pre, post, i, k),
    ensures
        post.inv(),
{
    lemma_roster_len_bound(pre);
    lemma_point_update(pre, post, i);
    assert(pre.holds_mutex(i));
    assert(post.active_writer() == Some(i));
    if k != i && pre.slot(k).live {
        assert(!pre.slot(k).phase.is_busy_phase());
        assert(!pre.slot(k).phase.is_mutex_phase());
        assert(pre.slot(k).phase.is_held_back());
    }
    assert forall|j: int| post.live(j) implies ((#[trigger] post.slot(j)).forbidden
        <==> post.slot(i).phase.forbids(j)) by {
        assert(pre.live(j));
        assert(pre.slot(j).forbidden <==> pre.slot(i).phase.forbids(j));
    }
    assert forall|j: int| post.live(j) && j != i && post.slot(i).phase.excludes(j)
        implies (#[trigger] post.slot(j)).phase.is_held_back() by {
        assert(pre.live(j));
        if j != k {
            assert(pre.slot(i).phase.excludes(j));
            assert(pre.slot(j).phase.is_held_back());
        }
    }
}

proof fn lemma_wait_done_preserves<T>(pre: ProtocolState<T>, post: ProtocolState<T>, i: int)
    requires
        pre.inv(),
        ProtocolState::step_wait_done(pre, post, i),
    ensures
        post.inv(),
{
    lemma_roster_len_bound(pre);
    lemma_point_update(pre, post, i);
    assert(pre.holds_mutex(i));
    assert(post.active_writer() == Some(i));
    assert forall|j: int| post.live(j) implies ((#[trigger] post.slot(j)).forbidden
        <==> post.slot(i).phase.forbids(j)) by {
        assert(pre.live(j));
        assert(pre.slot(j).forbidden <==> pre.slot(i).phase.forbids(j));
    }
    assert forall|j: int| post.live(j) && j != i && post.slot(i).phase.excludes(j)
        implies (#[trigger] post.slot(j)).phase.is_held_back() by {
        assert(pre.live(j));
        assert(pre.slot(i).phase.excludes(j));
        assert(pre.slot(j).phase.is_held_back());
    }
}

proof fn lemma_mutate_preserves<T>(pre: ProtocolState<T>, post: ProtocolState<T>, i: int)
    requires
        pre.inv(),
        ProtocolState::step_mutate(pre, post, i),
    ensures
        post.inv(),
{
    lemma_roster_len_bound(pre);
    assert forall|j: int| 0 <= j < pre.slots@.len() implies post.slot(j) == pre.slot(j) by {}
}

proof fn lemma_end_write_preserves<T>(pre: ProtocolState<T>, post: ProtocolState<T>, i: int)
    requires
        pre.inv(),
        ProtocolState::step_end_write(pre, post, i),
    ensures
        post.inv(),
{
    lemma_roster_len_bound(pre);
    lemma_point_update(pre, post, i);
    assert(pre.holds_mutex(i));
    assert(post.active_writer() == Some(i));
    assert forall|j: int| post.live(j) implies ((#[trigger] post.slot(j)).forbidden
        <==> post.slot(i).phase.forbids(j)) by {
        assert(pre.live(j));
        assert(pre.slot(j).forbidden <==> pre.slot(i).phase.forbids(j));
    }
    assert forall|j: int| post.live(j) && j != i && post.slot(i).phase.excludes(j)
        implies (#[trigger] post.slot(j)).phase.is_held_back() by {
        assert(pre.live(j));
        assert(pre.slot(i).phase.excludes(j));
        assert(pre.slot(j).phase.is_held_back());
    }
}

proof fn lemma_unforbid_advance_preserves<T>(pre: ProtocolState<T>, post: ProtocolState<T>, i: int, k: int)
    requires
        pre.inv(),
        ProtocolState::step_unforbid_advance(pre, post, i, k),
    ensures
        post.inv(),
{
    lemma_roster_len_bound(pre);
    assert(post.slots@.len() == pre.slots@.len());
    assert forall|j: int| 0 <= j < pre.slots@.len() && j != i && j != k implies post.slot(j)
        == pre.slot(j) by {}
    assert(pre.holds_mutex(i));
    assert(post.active_writer() == Some(i));
    assert forall|j: int| post.live(j) implies ((#[trigger] post.slot(j)).forbidden
        <==> post.slot(i).phase.forbids(j)) by {
        assert(pre.live(j));
        assert(pre.slot(j).forbidden <==> pre.slot(i).phase.forbids(j));
        if j == k {
            assert(!post.slot(j).forbidden);
        } else {
            assert(post.slot(j).forbidden == pre.slot(j).forbidden);
        }
    }
    assert forall|j: int| post.live(j) && j != i && post.slot(i).phase.excludes(j)
        implies (#[trigger] post.slot(j)).phase.is_held_back() by {
        assert(pre.live(j));
        assert(pre.slot(i).phase.excludes(j));
        assert(pre.slot(j).phase.is_held_back());
        assert(post.slot(j).phase == pre.slot(j).phase);
    }
}

proof fn lemma_unforbid_done_preserves<T>(pre: ProtocolState<T>, post: ProtocolState<T>, i: int)
    requires
        pre.inv(),
        ProtocolState::step_unforbid_done(pre, post, i),
    ensures
        post.inv(),
{
    lemma_roster_len_bound(pre);
    lemma_point_update(pre, post, i);
    assert(pre.holds_mutex(i));
    assert(pre.active_writer() == Some(i));
    assert forall|j: int| post.live(j) implies !(#[trigger] post.slot(j)).forbidden by {
        assert(pre.live(j));
        assert(pre.slot(j).forbidden <==> pre.slot(i).phase.forbids(j));
    }
}

proof fn lemma_begin_clone_preserves<T>(pre: ProtocolState<T>, post: ProtocolState<T>, i: int)
    requires
        pre.inv(),
        ProtocolState::step_begin_clone(pre, post, i),
    ensures
        post.inv(),
{
    lemma_point_update(pre, post, i);
}

proof fn lemma_finish_clone_preserves<T>(pre: ProtocolState<T>, post: ProtocolState<T>, i: int)
    requires
        pre.inv(),
        ProtocolState::step_finish_clone(pre, post, i),
    ensures
        post.inv(),
{
    assert(post.slots@.len() == pre.slots@.len() + 1);
    assert forall|j: int| 0 <= j < pre.slots@.len() && j != i implies post.slot(j) == pre.slot(
        j,
    ) by {}
    assert(post.slot(pre.slots@.len() as int) == crate::protocol::fresh_slot());
}

proof fn lemma_begin_drop_preserves<T>(pre: ProtocolState<T>, post: ProtocolState<T>, i: int)
    requires
        pre.inv(),
        ProtocolState::step_begin_drop(pre, post, i),
    ensures
        post.inv(),
{
    lemma_point_update(pre, post, i);
}

proof fn lemma_finish_drop_preserves<T>(pre: ProtocolState<T>, post: ProtocolState<T>, i: int)
    requires
        pre.inv(),
        ProtocolState::step_finish_drop(pre, post, i),
    ensures
        post.inv(),
{
    lemma_point_update(pre, post, i);
}

/// Every transition of the machine preserves the invariant: under any
/// interleaving of any number of handles, a reachable state satisfies
/// it. Contains the whole case analysis of the protocol.
pub proof fn lemma_step_preserves_inv<T>(pre: ProtocolState<T>, post: ProtocolState<T>, i: int)
    requires
        pre.inv(),
        ProtocolState::step(pre, post, i),
    ensures
        post.inv(),
{
    if ProtocolState::step_begin_read(pre, post, i) {
        lemma_begin_read_preserves(pre, post, i);
    } else if ProtocolState::step_check_enter(pre, post, i) {
        lemma_check_enter_preserves(pre, post, i);
    } else if ProtocolState::step_check_retreat(pre, post, i) {
        lemma_check_retreat_preserves(pre, post, i);
    } else if ProtocolState::step_retreat_clear(pre, post, i) {
        lemma_retreat_clear_preserves(pre, post, i);
    } else if ProtocolState::step_retreat_lock(pre, post, i) {
        lemma_retreat_lock_preserves(pre, post, i);
    } else if ProtocolState::step_retreat_publish(pre, post, i) {
        lemma_retreat_publish_preserves(pre, post, i);
    } else if ProtocolState::step_retreat_unlock(pre, post, i) {
        lemma_retreat_unlock_preserves(pre, post, i);
    } else if ProtocolState::step_end_read(pre, post, i) {
        lemma_end_read_preserves(pre, post, i);
    } else if ProtocolState::step_begin_write(pre, post, i) {
        lemma_begin_write_preserves(pre, post, i);
    } else if exists|k: int| ProtocolState::step_forbid_advance(pre, post, i, k) {
        let k = choose|k: int| ProtocolState::step_forbid_advance(pre, post, i, k);
        lemma_forbid_advance_preserves(pre, post, i, k);
    } else if ProtocolState::step_forbid_done(pre, post, i) {
        lemma_forbid_done_preserves(pre, post, i);
    } else if exists|k: int| ProtocolState::step_wait_advance(pre, post, i, k) {
        let k = choose|k: int| ProtocolState::step_wait_advance(pre, post, i, k);
        lemma_wait_advance_preserves(pre, post, i, k);
    } else if ProtocolState::step_wait_done(pre, post, i) {
        lemma_wait_done_preserves(pre, post, i);
    } else if ProtocolState::step_mutate(pre, post, i) {
        lemma_mutate_preserves(pre, post, i);
    } else if ProtocolState::step_end_write(pre, post, i) {
        lemma_end_write_preserves(pre, post, i);
    } else if exists|k: int| ProtocolState::step_unforbid_advance(pre, post, i, k) {
        let k = choose|k: int| ProtocolState::step_unforbid_advance(pre, post, i, k);
        lemma_unforbid_advance_preserves(pre, post, i, k);
    } else if ProtocolState::step_unforbid_done(pre, post, i) {
        lemma_unforbid_done_preserves(pre, post, i);
    } else if ProtocolState::step_begin_clone(pre, post, i) {
        lemma_begin_clone_preserves(pre, post, i);
    } else if ProtocolState::step_finish_clone(pre, post, i) {
        lemma_finish_clone_preserves(pre, post, i);
    } else if ProtocolState::step_begin_drop(pre, post, i) {
        lemma_begin_drop_preserves(pre, post, i);
    } else {
        lemma_finish_drop_preserves(pre, post, i);
    }
}

/// The invariant is inductive over the transition relation.
pub proof fn lemma_next_preserves_inv<T>(pre: ProtocolState<T>, post: ProtocolState<T>)
    requires
        pre.inv(),
        ProtocolState::next(pre, post),
    ensures
        post.inv(),
{
    let i = choose|i: int| ProtocolState::step(pre, post, i);
    lemma_step_preserves_inv(pre, post, i);
}

/// Mutual exclusion: while a handle's write guard is live, no other
/// live handle is inside a critical section — so the payload is never
/// mutated while a read guard of the same instance is live, and never
/// observed shared while it is being mutated.
pub proof fn lemma_mutual_exclusion<T>(s: ProtocolState<T>, w: int, i: int)
    requires
        s.inv(),
        s.live(w),
        s.slot(w).phase is Writing,
        s.live(i),
        i != w,
    ensures
        !(s.slot(i).phase is Reading),
        !(s.slot(i).phase is Writing),
{
    assert(s.holds_mutex(w));
    assert(s.active_writer() == Some(w));
    assert(s.slot(w).phase.excludes(i));
    assert(s.slot(i).phase.is_held_back());
}

/// Writer serialization: at most one write guard of an instance is
/// live at any point, because only the administrative-mutex holder can
/// be in the `Writing` phase.
pub proof fn lemma_writer_serialization<T>(s: ProtocolState<T>, w1: int, w2: int)
    requires
        s.inv(),
        s.live(w1),
        s.live(w2),
        s.slot(w1).phase is Writing,
        s.slot(w2).phase is Writing,
    ensures
        w1 == w2,
{
    assert(s.holds_mutex(w1));
    assert(s.holds_mutex(w2));
}

/// Scoped release, writer side: once the administrative mutex is free
/// — in particular after a write guard finished dropping — no live
/// control word carries a `forbidden` flag. Hence a reader observing
/// the mutex free always enters: with no writer, shared acquisition
/// takes exactly its two flag accesses and never retreats.
pub proof fn lemma_no_writer_no_forbidden<T>(s: ProtocolState<T>)
    requires
        s.inv(),
        s.holder is None,
    ensures
        forall|i: int| s.live(i) ==> !(#[trigger] s.slot(i)).forbidden,
{
}

/// The `busy` flag keeps its discipline: it is raised exactly between
/// a handle's shared acquisition steps and the drop of its read guard
/// (including the republish inside a retreat).
pub proof fn lemma_busy_flag_discipline<T>(s: ProtocolState<T>, i: int)
    requires
        s.inv(),
        s.live(i),
    ensures
        s.slot(i).busy <==> s.slot(i).phase.is_busy_phase(),
{
}

/// The `forbidden` flag keeps its discipline: it is raised only while
/// some handle holds the administrative mutex on the exclusive path.
pub proof fn lemma_forbidden_flag_discipline<T>(s: ProtocolState<T>, i: int)
    requires
        s.inv(),
        s.live(i),
        s.slot(i).forbidden,
    ensures
        s.active_writer() is Some,
        s.holder is Some,
{
    if s.active_writer() is None {
        assert(!s.slot(i).forbidden);
    }
}

/// Mutual exclusion, stated on the transition relation: a transition
/// that changes the payload is a mutation step by a handle whose
/// write guard is live, and at that point no other live handle of the
/// instance is inside a critical section.
pub proof fn lemma_mutation_only_under_write_guard<T>(
    pre: ProtocolState<T>,
    post: ProtocolState<T>,
    i: int,
)
    requires
        pre.inv(),
        ProtocolState::step(pre, post, i),
        post.payload != pre.payload,
    ensures
        pre.live(i),
        pre.slot(i).phase is Writing,
        forall|j: int|
            pre.live(j) && j != i ==> !((#[trigger] pre.slot(j)).phase is Reading) && !(pre.slot(
                j,
            ).phase is Writing),
{
    assert(ProtocolState::step_mutate(pre, post, i));
    assert forall|j: int| pre.live(j) && j != i implies !((#[trigger] pre.slot(j)).phase
        is Reading) && !(pre.slot(j).phase is Writing) by {
        lemma_mutual_exclusion(pre, i, j);
    }
}

/// Every state an execution of the machine reaches from a fresh
/// instance satisfies the invariant — under any interleaving, with any
/// number of handles: the flag disciplines and the exclusion property
/// hold of every reachable state.
pub proof fn lemma_reachable_states_satisfy_inv<T>(
    init: ProtocolState<T>,
    s: ProtocolState<T>,
    n: nat,
)
    requires
        init.is_init(),
        ProtocolState::reaches(init, s, n),
    ensures
        s.inv(),
    decreases n,
{
    if n == 0 {
        lemma_init_inv(init);
    } else {
        let mid = choose|mid: ProtocolState<T>|
            ProtocolState::reaches(init, mid, (n - 1) as nat) && #[trigger] ProtocolState::next(
                mid,
                s,
            );
        lemma_reachable_states_satisfy_inv(init, mid, (n - 1) as nat);
        lemma_next_preserves_inv(mid, s);
    }
}

/// A handle entering the exclusive path finds its own control word
/// completely clear: the entry checks of the acquisition — no shared
/// guard held, not inside an exclusive section — can never fire on a
/// conforming caller.
pub proof fn lemma_write_entry_clean<T>(s: ProtocolState<T>, i: int)
    requires
        s.inv(),
        s.live(i),
        s.slot(i).phase is Idle,
        s.holder is None,
    ensures
        !s.slot(i).busy,
        !s.slot(i).forbidden,
{
}

/// While a writer marks the roster, the entries its scan has not
/// reached are still unforbidden: a second writer cannot have marked
/// them, because the administrative mutex admits only one.
pub proof fn lemma_forbid_scan_fresh<T>(s: ProtocolState<T>, w: int, k: usize, j: int)
    requires
        s.inv(),
        s.live(w),
        s.slot(w).phase == Phase::Forbidding(k),
        s.live(j),
        j >= k as int,
    ensures
        !s.slot(j).forbidden,
{
    assert(s.holds_mutex(w));
    assert(s.active_writer() == Some(w));
}

/// The invariant never reads the payload: two states with the same
/// roster and mutex holder satisfy it alike. This is what lets
/// [`ProtocolState::get_mut`] hand out the payload through a mutable
/// borrow of the whole instance.
pub proof fn lemma_inv_untouched_by_payload<T>(s1: ProtocolState<T>, s2: ProtocolState<T>)
    requires
        s1.inv(),
        s2.slots@ == s1.slots@,
        s2.holder == s1.holder,
    ensures
        s2.inv(),
{
    assert forall|j: int| 0 <= j < s1.slots@.len() implies s2.slot(j) == s1.slot(j) by {}
}

/// The roster never shrinks: every transition keeps or grows it.
pub proof fn lemma_roster_monotone<T>(pre: ProtocolState<T>, post: ProtocolState<T>)
    requires
        ProtocolState::next(pre, post),
    ensures
        post.slots@.len() >= pre.slots@.len(),
{
    let i = choose|i: int| ProtocolState::step(pre, post, i);
}

} // verus!
