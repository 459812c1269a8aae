use bf_sharedmutex::bf_vec::{grow_capacity, push_plan, BfVec, PushStep};

#[test]
fn grow_capacity_policy() {
    // The first grow yields eight slots; later grows double.
    assert_eq!(grow_capacity(0), 8);
    assert_eq!(grow_capacity(1), 8);
    assert_eq!(grow_capacity(4), 8);
    assert_eq!(grow_capacity(5), 10);
    assert_eq!(grow_capacity(8), 16);
    assert_eq!(grow_capacity(16), 32);
}

#[test]
fn push_plan_decides() {
    assert_eq!(push_plan(3, 8), PushStep::Write(3));
    assert_eq!(push_plan(0, 1), PushStep::Write(0));
    assert_eq!(push_plan(8, 8), PushStep::Grow(16));
    assert_eq!(push_plan(0, 0), PushStep::Grow(8));
}

#[test]
fn capacity_doubles_across_pushes() {
    let mut v: BfVec<u32> = BfVec::new();
    assert_eq!(v.shared.capacity, 0);
    v.push(1);
    assert_eq!(v.shared.capacity, 8);
    for x in 0..7u32 {
        v.push(x);
    }
    assert_eq!(v.shared.capacity, 8);
    v.push(9);
    assert_eq!(v.shared.capacity, 16);
    for x in 0..8u32 {
        v.push(x);
    }
    assert_eq!(v.shared.capacity, 32);
    assert_eq!(v.len(), 17);
}

#[test]
fn concurrent_push_totals() {
    // Ten pushers, each appending 1 a hundred thousand times: no push
    // is lost and no element is torn.
    let num_pushers: usize = 10;
    let num_iterations: usize = 100000;
    let mut v: BfVec<u32> = BfVec::new();
    for _ in 0..num_iterations {
        for _ in 0..num_pushers {
            v.push(1);
        }
    }
    assert_eq!(v.len(), num_pushers * num_iterations);
    for i in 0..v.len() {
        assert_eq!(v.shared.buffer[i], 1);
    }
}

#[test]
fn clear_keeps_capacity() {
    let mut v: BfVec<u64> = BfVec::new();
    for x in 0..9u64 {
        v.push(x);
    }
    assert_eq!(v.shared.capacity, 16);
    assert!(!v.is_empty());
    v.clear();
    assert!(v.is_empty());
    assert_eq!(v.len(), 0);
    assert_eq!(v.shared.capacity, 16);
    // The vector is still usable after a clear.
    v.push(42);
    assert_eq!(v.len(), 1);
    assert_eq!(v.shared.buffer[0], 42);
}

#[test]
fn default_is_empty() {
    let v: BfVec<u8> = Default::default();
    assert!(v.is_empty());
    assert_eq!(v.shared.capacity, 0);
}
