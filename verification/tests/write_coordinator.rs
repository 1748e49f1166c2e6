use std::sync::Arc;

use agent_workbench::write_coordinator::WriteCoordinator;

#[test]
fn test_buffer_lock_serializes_same_buffer() {
    let mut coordinator = WriteCoordinator::new();
    let (id_a, id_b) = (7u64, 8u64);

    let lock_a1 = coordinator.buffer_lock(id_a);
    let lock_a2 = coordinator.buffer_lock(id_a);
    let lock_b = coordinator.buffer_lock(id_b);

    assert!(
        Arc::ptr_eq(&lock_a1, &lock_a2),
        "the same buffer must map to the same lock"
    );
    assert!(
        !Arc::ptr_eq(&lock_a1, &lock_b),
        "different buffers must map to different locks"
    );

    let guard = lock_a1.lock_arc_blocking();
    assert!(
        lock_a2.try_lock_arc().is_none(),
        "a second edit of the same buffer must wait"
    );
    assert!(
        lock_b.try_lock_arc().is_some(),
        "a different buffer can be edited in parallel"
    );

    drop(guard);
    assert!(
        lock_a2.try_lock_arc().is_some(),
        "the lock must be released when the session ends"
    );
}

#[test]
fn a_lock_stays_with_its_buffer() {
    let mut coordinator = WriteCoordinator::new();
    let first = coordinator.buffer_lock(1);
    for other in 2..50u64 {
        let lock = coordinator.buffer_lock(other);
        assert!(!Arc::ptr_eq(&first, &lock));
    }
    let again = coordinator.buffer_lock(1);
    assert!(Arc::ptr_eq(&first, &again));
}

#[test]
fn locks_are_equal_exactly_for_equal_buffers() {
    let mut coordinator = WriteCoordinator::new();
    let buffers = [3u64, 1, 3, 2, 1, 1, 3, 0, u64::MAX, 2];
    let locks: Vec<_> = buffers.iter().map(|buffer| coordinator.buffer_lock(*buffer)).collect();
    for i in 0..buffers.len() {
        for j in 0..buffers.len() {
            assert_eq!(Arc::ptr_eq(&locks[i], &locks[j]), buffers[i] == buffers[j]);
        }
    }
}
