use bf_sharedmutex::protocol::{Phase, ProtocolState};

/// Drives one handle through a complete exclusive acquisition.
fn acquire_write(s: &mut ProtocolState<u64>, i: usize) {
    assert!(s.mutex_holder().is_none());
    s.begin_write(i);
    loop {
        match s.phase_of(i) {
            Phase::Forbidding(_) => s.forbid_step(i),
            _ => break,
        }
    }
    loop {
        match s.phase_of(i) {
            Phase::WaitBusy(_) => {
                let advanced = s.wait_step(i);
                assert!(advanced, "no other handle is busy in this test");
            }
            _ => break,
        }
    }
    assert_eq!(s.phase_of(i), Phase::Writing);
}

/// Drives one handle through a complete write-guard drop.
fn release_write(s: &mut ProtocolState<u64>, i: usize) {
    s.end_write(i);
    loop {
        match s.phase_of(i) {
            Phase::Unforbidding(_) => s.unforbid_step(i),
            _ => break,
        }
    }
    assert_eq!(s.phase_of(i), Phase::Idle);
}

#[test]
fn reader_enters_and_releases() {
    let mut s = ProtocolState::new(5u64);
    s.begin_read(0);
    assert!(s.busy_of(0));
    let entered = s.check_forbidden(0);
    assert!(entered);
    assert_eq!(s.phase_of(0), Phase::Reading);
    assert_eq!(*s.get_payload(0), 5);
    s.end_read(0);
    // Scoped release: after the guard scope ends, `busy` is clear.
    assert!(!s.busy_of(0));
    assert_eq!(s.phase_of(0), Phase::Idle);
}

#[test]
fn writer_full_cycle_clears_forbidden() {
    let mut s = ProtocolState::new(5u64);
    s.begin_clone(0);
    s.finish_clone(0);
    acquire_write(&mut s, 0);
    // While the write guard is live every live entry is forbidden.
    assert!(s.forbidden_of(0));
    assert!(s.forbidden_of(1));
    let v = *s.get_payload(0);
    s.set_payload(0, v + 5);
    release_write(&mut s, 0);
    // Scoped release: forbidden is clear across the roster, mutex free.
    assert!(!s.forbidden_of(0));
    assert!(!s.forbidden_of(1));
    assert!(s.mutex_holder().is_none());
    s.begin_read(1);
    assert!(s.check_forbidden(1));
    assert_eq!(*s.get_payload(1), 10);
    s.end_read(1);
}

#[test]
fn clone_occupies_slot_and_drop_vacates() {
    let mut s = ProtocolState::new(0u64);
    assert_eq!(s.roster_len(), 1);
    s.begin_clone(0);
    let new_slot = s.finish_clone(0);
    assert_eq!(new_slot, 1);
    // After clone the new handle's roster slot is occupied.
    assert!(s.live_of(1));
    assert_eq!(s.roster_len(), 2);
    s.begin_drop(1);
    s.finish_drop(1);
    // After drop the slot is vacant; the roster length never shrinks.
    assert!(!s.live_of(1));
    assert_eq!(s.roster_len(), 2);
    // The remaining handle still works.
    s.begin_read(0);
    assert!(s.check_forbidden(0));
    s.end_read(0);
}

#[test]
fn many_readers_concurrently() {
    let mut s = ProtocolState::new(7u64);
    for _ in 0..9 {
        s.begin_clone(0);
        s.finish_clone(0);
    }
    // All ten handles enter their shared critical sections together.
    for i in 0..10 {
        s.begin_read(i);
        let entered = s.check_forbidden(i);
        assert!(entered);
    }
    for i in 0..10 {
        assert_eq!(s.phase_of(i), Phase::Reading);
        assert_eq!(*s.get_payload(i), 7);
    }
    for i in 0..10 {
        s.end_read(i);
        assert!(!s.busy_of(i));
    }
}

#[test]
fn reads_without_writers_never_retreat() {
    // Progress: with no writers, a read costs exactly its two flag
    // accesses — the first check always enters.
    let mut s = ProtocolState::new(0u64);
    for _ in 0..4 {
        s.begin_clone(0);
        s.finish_clone(0);
    }
    for round in 0..100 {
        for i in 0..5 {
            s.begin_read(i);
            let entered = s.check_forbidden(i);
            assert!(entered, "round {round}: reader {i} had to retreat");
            s.end_read(i);
        }
    }
}

#[test]
fn reader_retreats_while_writer_active() {
    let mut s = ProtocolState::new(5u64);
    s.begin_clone(0);
    s.finish_clone(0);
    // Handle 0 takes the write guard.
    acquire_write(&mut s, 0);
    // Handle 1 attempts a read: it must observe `forbidden` and retreat.
    s.begin_read(1);
    let entered = s.check_forbidden(1);
    assert!(!entered);
    s.retreat_clear(1);
    assert_eq!(s.phase_of(1), Phase::AwaitMutex);
    // The rendezvous mutex is taken by the writer, so the reader waits.
    assert_eq!(s.mutex_holder(), Some(0));
    // The writer mutates and releases.
    s.set_payload(0, 99);
    release_write(&mut s, 0);
    // Now the reader rendezvouses and succeeds; it sees the mutation.
    s.retreat_lock(1);
    s.retreat_publish(1);
    s.retreat_unlock(1);
    let entered = s.check_forbidden(1);
    assert!(entered);
    assert_eq!(*s.get_payload(1), 99);
    s.end_read(1);
}

#[test]
fn clone_waits_for_writer() {
    let mut s = ProtocolState::new(1u64);
    s.begin_clone(0);
    s.finish_clone(0);
    // Handle 0 holds the write guard; the administrative mutex is taken,
    // so handle 1 cannot even start its clone until the release.
    acquire_write(&mut s, 0);
    assert!(s.mutex_holder().is_some());
    release_write(&mut s, 0);
    assert!(s.mutex_holder().is_none());
    s.begin_clone(1);
    let fresh = s.finish_clone(1);
    assert_eq!(fresh, 2);
    // The clone that waited is a usable handle.
    s.begin_read(fresh);
    assert!(s.check_forbidden(fresh));
    assert_eq!(*s.get_payload(fresh), 1);
    s.end_read(fresh);
}

#[test]
fn get_mut_without_locking() {
    let mut s = ProtocolState::new(5u64);
    // A mutable borrow of the whole instance needs no guard.
    *s.get_mut() += 1;
    s.begin_read(0);
    assert!(s.check_forbidden(0));
    assert_eq!(*s.get_payload(0), 6);
    s.end_read(0);
}

#[test]
fn writer_waits_for_reader() {
    let mut s = ProtocolState::new(3u64);
    s.begin_clone(0);
    s.finish_clone(0);
    // Handle 1 holds a read guard.
    s.begin_read(1);
    assert!(s.check_forbidden(1));
    // Handle 0 starts the exclusive path and forbids everyone.
    s.begin_write(0);
    loop {
        match s.phase_of(0) {
            Phase::Forbidding(_) => s.forbid_step(0),
            _ => break,
        }
    }
    // The scan passes the writer's own entry but spins on the reader.
    assert!(s.wait_step(0));
    assert!(!s.wait_step(0), "the reader's busy flag blocks the scan");
    assert!(matches!(s.phase_of(0), Phase::WaitBusy(1)));
    // The reader leaves its critical section; the writer gets through.
    s.end_read(1);
    assert!(s.wait_step(0));
    assert!(s.wait_step(0));
    assert_eq!(s.phase_of(0), Phase::Writing);
    s.set_payload(0, 4);
    release_write(&mut s, 0);
}

#[test]
fn writer_skips_tombstones() {
    let mut s = ProtocolState::new(0u64);
    s.begin_clone(0);
    s.finish_clone(0);
    s.begin_clone(0);
    s.finish_clone(0);
    // The middle handle goes away; its slot stays as a tombstone.
    s.begin_drop(1);
    s.finish_drop(1);
    assert!(!s.live_of(1));
    // The writer's scans pass the vacant slot without touching it.
    acquire_write(&mut s, 2);
    assert!(!s.forbidden_of(1));
    assert!(s.forbidden_of(0));
    s.set_payload(2, 8);
    s.end_write(2);
    loop {
        match s.phase_of(2) {
            Phase::Unforbidding(_) => s.unforbid_step(2),
            _ => break,
        }
    }
    assert!(!s.forbidden_of(0));
    s.begin_read(0);
    assert!(s.check_forbidden(0));
    assert_eq!(*s.get_payload(0), 8);
    s.end_read(0);
}

#[test]
fn many_handles_single_additions() {
    // Three hundred handles, one exclusive addition of 5 each, over a
    // payload starting at 5.
    let handles: usize = 300;
    let mut s = ProtocolState::new(5u64);
    for _ in 1..handles {
        s.begin_clone(0);
        s.finish_clone(0);
    }
    for i in 0..handles {
        acquire_write(&mut s, i);
        let v = *s.get_payload(i);
        s.set_payload(i, v + 5);
        release_write(&mut s, i);
    }
    s.begin_read(0);
    assert!(s.check_forbidden(0));
    assert_eq!(*s.get_payload(0), (handles * 5 + 5) as u64);
    s.end_read(0);
}
