//! Exhaustive interleaving exploration: two handles, each performing
//! one read followed by one write, under every scheduling. Every
//! reached state is checked against the flag disciplines and mutual
//! exclusion; every complete execution must apply both writes.

use std::collections::HashSet;

use bf_sharedmutex::protocol::{Phase, ProtocolState};

const READ_OP: usize = 0;
const WRITE_OP: usize = 1;
const DONE: usize = 2;

#[derive(Clone)]
struct World {
    s: ProtocolState<u64>,
    pc: [usize; 2],
    did_set: [bool; 2],
}

fn busy_phase(p: Phase) -> bool {
    matches!(p, Phase::Check | Phase::Reading | Phase::Retreat | Phase::RendezvousDone)
}

fn writer_phase(p: Phase) -> bool {
    matches!(
        p,
        Phase::Forbidding(_) | Phase::WaitBusy(_) | Phase::Writing | Phase::Unforbidding(_)
    )
}

fn check_invariants(w: &World) {
    let s = &w.s;
    for i in 0..2 {
        // busy is raised exactly between shared acquisition and the
        // drop of the read guard.
        assert_eq!(s.busy_of(i), busy_phase(s.phase_of(i)));
        // forbidden is raised only while a writer holds the
        // administrative mutex.
        if s.forbidden_of(i) {
            let h = s.mutex_holder().expect("forbidden without a mutex holder");
            assert!(writer_phase(s.phase_of(h)));
        }
    }
    // While a write guard is live, no read guard of the instance is
    // live and no second write guard exists.
    for w1 in 0..2 {
        if s.phase_of(w1) == Phase::Writing {
            let other = 1 - w1;
            assert_ne!(s.phase_of(other), Phase::Reading);
            assert_ne!(s.phase_of(other), Phase::Writing);
        }
    }
}

fn enabled(w: &World, i: usize) -> bool {
    match w.s.phase_of(i) {
        Phase::Idle => match w.pc[i] {
            READ_OP => true,
            WRITE_OP => w.s.mutex_holder().is_none(),
            _ => false,
        },
        Phase::AwaitMutex => w.s.mutex_holder().is_none(),
        Phase::WaitBusy(k) => {
            k == w.s.roster_len() || k == i || !w.s.live_of(k) || !w.s.busy_of(k)
        }
        Phase::Dropped => false,
        _ => true,
    }
}

fn advance(w: &mut World, i: usize) {
    match w.s.phase_of(i) {
        Phase::Idle => {
            if w.pc[i] == READ_OP {
                w.s.begin_read(i);
            } else {
                w.s.begin_write(i);
            }
        }
        Phase::Check => {
            w.s.check_forbidden(i);
        }
        Phase::Reading => {
            let v = *w.s.get_payload(i);
            assert!(v <= 2, "payload is the number of writes applied so far");
            w.s.end_read(i);
            w.pc[i] = WRITE_OP;
        }
        Phase::Retreat => w.s.retreat_clear(i),
        Phase::AwaitMutex => w.s.retreat_lock(i),
        Phase::Rendezvous => w.s.retreat_publish(i),
        Phase::RendezvousDone => w.s.retreat_unlock(i),
        Phase::Forbidding(_) => w.s.forbid_step(i),
        Phase::WaitBusy(_) => {
            let advanced = w.s.wait_step(i);
            assert!(advanced, "only enabled probes are scheduled");
        }
        Phase::Writing => {
            if !w.did_set[i] {
                let v = *w.s.get_payload(i);
                w.s.set_payload(i, v + 1);
                w.did_set[i] = true;
            } else {
                w.s.end_write(i);
            }
        }
        Phase::Unforbidding(_) => {
            w.s.unforbid_step(i);
            if w.s.phase_of(i) == Phase::Idle {
                w.pc[i] = DONE;
            }
        }
        _ => panic!("a dropped handle is never scheduled"),
    }
}

fn fingerprint(w: &World) -> String {
    let s = &w.s;
    let mut out = String::new();
    for i in 0..s.roster_len() {
        out.push_str(&format!(
            "{:?},{},{},{};",
            s.phase_of(i),
            s.live_of(i),
            s.busy_of(i),
            s.forbidden_of(i)
        ));
    }
    out.push_str(&format!("|{:?}|{:?}|{:?}", s.mutex_holder(), w.pc, w.did_set));
    out
}

#[test]
fn explore_two_handles_read_then_write() {
    let mut s = ProtocolState::new(0u64);
    s.begin_clone(0);
    s.finish_clone(0);
    let root = World { s, pc: [READ_OP; 2], did_set: [false; 2] };

    let mut seen: HashSet<String> = HashSet::new();
    let mut stack: Vec<World> = vec![root];
    let mut states: u64 = 0;
    let mut completions: u64 = 0;

    while let Some(w) = stack.pop() {
        if !seen.insert(fingerprint(&w)) {
            continue;
        }
        states += 1;
        check_invariants(&w);
        let mut stuck = true;
        for i in 0..2 {
            if w.pc[i] != DONE && enabled(&w, i) {
                stuck = false;
                let mut next = w.clone();
                advance(&mut next, i);
                stack.push(next);
            }
        }
        if stuck {
            // Both scripts ran to completion: no deadlock, and both
            // exclusive additions reached the payload.
            assert_eq!(w.pc, [DONE; 2]);
            assert!(w.s.mutex_holder().is_none());
            let mut probe = w.s.clone();
            probe.begin_read(0);
            assert!(probe.check_forbidden(0));
            assert_eq!(*probe.get_payload(0), 2);
            completions += 1;
        }
    }
    assert!(states > 100, "the exploration visited {states} states");
    assert!(completions > 0);
}
