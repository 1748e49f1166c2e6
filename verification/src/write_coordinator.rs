//! Coordinates concurrent file edits across all agents, so they never apply edits
//! to the same buffer at the same time.
use std::collections::HashMap;
use std::sync::Arc;

use vstd::prelude::*;

verus! {

broadcast use vstd::std_specs::hash::group_hash_axioms;

/// The async mutex of `async_lock`. Two locks are equal when they are the same lock.
#[verifier::external_type_specification]
#[verifier::external_body]
#[verifier::reject_recursive_types(T)]
pub struct ExMutex<T: ?Sized>(async_lock::Mutex<T>);

/// Calls `async_lock::Mutex::new` and puts the lock behind an `Arc`. The new lock is
/// none of the locks that are held already.
#[verifier::external_body]
fn new_lock(held: &HashMap<u64, Arc<async_lock::Mutex<()>>>) -> (lock: Arc<async_lock::Mutex<()>>)
    ensures
        !held@.contains_value(lock),
{
    Arc::new(async_lock::Mutex::new(()))
}

/// Whether no lock guards two buffers.
pub open spec fn one_buffer_per_lock(locks: Map<u64, Arc<async_lock::Mutex<()>>>) -> bool {
    forall|a: u64, b: u64| #[trigger]
        locks.contains_key(a) && #[trigger] locks.contains_key(b) && locks[a] == locks[b] ==> a == b
}

/// Whether asking for the lock of `buffer_id` turns the locks `before` into `after` and
/// yields `lock`: the lock that the buffer has, or a new one that it keeps.
pub open spec fn grants(
    before: Map<u64, Arc<async_lock::Mutex<()>>>,
    buffer_id: u64,
    after: Map<u64, Arc<async_lock::Mutex<()>>>,
    lock: Arc<async_lock::Mutex<()>>,
) -> bool {
    if before.contains_key(buffer_id) {
        after == before && lock == before[buffer_id]
    } else {
        after == before.insert(buffer_id, lock)
    }
}

/// Each buffer gets its own async mutex. An edit session holds the buffer's lock for
/// its entire lifetime, so:
/// - concurrent edit sessions targeting the **same** buffer serialize, while
/// - sessions on **different** buffers proceed in parallel.
pub struct WriteCoordinator {
    pub buffer_locks: HashMap<u64, Arc<async_lock::Mutex<()>>>,
}

impl WriteCoordinator {
    /// No lock guards two buffers.
    pub open spec fn wf(self) -> bool {
        one_buffer_per_lock(self.buffer_locks@)
    }

    /// A coordinator without locks.
    pub fn new() -> (coordinator: WriteCoordinator)
        ensures
            coordinator.wf(),
            coordinator.buffer_locks@ == Map::<u64, Arc<async_lock::Mutex<()>>>::empty(),
    {
        WriteCoordinator { buffer_locks: HashMap::new() }
    }

    /// Returns the lock guarding edits to the given buffer, creating it on first use.
    /// Hold it for the duration of the edit.
    pub fn buffer_lock(&mut self, buffer_id: u64) -> (lock: Arc<async_lock::Mutex<()>>)
        requires
            old(self).wf(),
        ensures
            final(self).wf(),
            grants(old(self).buffer_locks@, buffer_id, final(self).buffer_locks@, lock),
    {
        match self.buffer_locks.get(&buffer_id) {
            Some(lock) => lock.clone(),
            None => {
                let lock = new_lock(&self.buffer_locks);
                self.buffer_locks.insert(buffer_id, lock.clone());
                lock
            },
        }
    }
}

/// Whether the requests, each for a buffer and with the lock that it yielded, were made
/// one after another and led from each of the states to the next.
pub open spec fn requested(
    states: Seq<Map<u64, Arc<async_lock::Mutex<()>>>>,
    requests: Seq<(u64, Arc<async_lock::Mutex<()>>)>,
) -> bool {
    &&& states.len() == requests.len() + 1
    &&& forall|i: int|
        0 <= i < requests.len() ==> grants(
            states[i],
            (#[trigger] requests[i]).0,
            states[i + 1],
            requests[i].1,
        )
}

/// A lock that was yielded is still that of its buffer in every later state.
proof fn lemma_lock_is_kept(
    states: Seq<Map<u64, Arc<async_lock::Mutex<()>>>>,
    requests: Seq<(u64, Arc<async_lock::Mutex<()>>)>,
    request: int,
    later: int,
)
    requires
        requested(states, requests),
        0 <= request < later < states.len(),
    ensures
        states[later].contains_key(requests[request].0),
        states[later][requests[request].0] == requests[request].1,
    decreases later,
{
    if later > request + 1 {
        lemma_lock_is_kept(states, requests, request, later - 1);
        let step = requests[later - 1];
        assert(grants(states[later - 1], step.0, states[later], step.1));
    } else {
        let step = requests[request];
        assert(grants(states[request], step.0, states[later], step.1));
    }
}

/// However often locks are asked for, and for whichever buffers: two requests yield the
/// same lock exactly when they are for the same buffer.
pub proof fn law_one_lock_per_buffer(
    states: Seq<Map<u64, Arc<async_lock::Mutex<()>>>>,
    requests: Seq<(u64, Arc<async_lock::Mutex<()>>)>,
    first: int,
    second: int,
)
    requires
        requested(states, requests),
        one_buffer_per_lock(states.last()),
        0 <= first < requests.len(),
        0 <= second < requests.len(),
    ensures
        requests[first].1 == requests[second].1 <==> requests[first].0 == requests[second].0,
{
    let end = states.len() - 1;
    lemma_lock_is_kept(states, requests, first, end);
    lemma_lock_is_kept(states, requests, second, end);
    assert(states.last().contains_key(requests[first].0));
    assert(states.last().contains_key(requests[second].0));
}

/// A request for a buffer's lock gives the lock that is kept for the buffer from then
/// on. One that was kept before is given again and nothing changes, and the locks of
/// other buffers are left alone.
pub proof fn law_granted_lock_is_kept(
    before: Map<u64, Arc<async_lock::Mutex<()>>>,
    buffer_id: u64,
    after: Map<u64, Arc<async_lock::Mutex<()>>>,
    lock: Arc<async_lock::Mutex<()>>,
    other: u64,
)
    requires
        grants(before, buffer_id, after, lock),
    ensures
        after.contains_key(buffer_id),
        after[buffer_id] == lock,
        before.contains_key(buffer_id) ==> lock == before[buffer_id] && after == before,
        after.dom() == before.dom().insert(buffer_id),
        other != buffer_id && before.contains_key(other) ==> after[other] == before[other],
{
    assert(after.dom() =~= before.dom().insert(buffer_id));
}

/// Where no two buffers share a lock, different buffers have different locks.
pub proof fn law_buffers_do_not_share(
    locks: Map<u64, Arc<async_lock::Mutex<()>>>,
    a: u64,
    b: u64,
)
    requires
        one_buffer_per_lock(locks),
        locks.contains_key(a),
        locks.contains_key(b),
        a != b,
    ensures
        locks[a] != locks[b],
{
}

} // verus!
