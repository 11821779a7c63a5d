use vstd::prelude::*;
use vstd::rwlock::RwLock;

use crate::memory::{DefaultMemory, Memory};

verus! {

/// The invariant kept by the lock around the shared table.
pub open spec fn shared_table_inv() -> spec_fn(DefaultMemory) -> bool {
    |m: DefaultMemory| m.wf()
}

/// A process-wide mutable scratch store usable across concurrent agent
/// invocations.
///
/// The whole associative table sits behind one reader/writer lock:
/// concurrent readers never block each other, writers are exclusive, and
/// the lock is held only for the duration of a single `get` or `set` call.
pub struct SharedState {
    data: RwLock<DefaultMemory, spec_fn(DefaultMemory) -> bool>,
}

impl SharedState {
    /// Well-formedness: the lock guards exactly the table invariant.
    pub closed spec fn wf(&self) -> bool {
        self.data.pred() == shared_table_inv()
    }

    /// Creates an empty shared store.
    pub fn new() -> (r: Self)
        ensures
            r.wf(),
    {
        let table = DefaultMemory::new();
        SharedState { data: RwLock::new(table, Ghost(shared_table_inv())) }
    }

    /// Writes `value` under `key`, overwriting any previous value. The
    /// write takes the lock exclusively and never fails.
    pub fn set(&self, key: &str, value: String) -> (r: Result<(), String>)
        requires
            self.wf(),
        ensures
            r is Ok,
    {
        let (mut table, handle) = self.data.acquire_write();
        table.set(key, value);
        proof {
            assert(shared_table_inv()(table));
        }
        handle.release_write(table);
        Ok(())
    }

    /// Reads the value under `key` as the table stands at the moment the
    /// read lock is held, or `None` if the key is absent. Reads do not
    /// block other reads and never fail.
    pub fn get(&self, key: &str) -> (r: Result<Option<String>, String>)
        requires
            self.wf(),
        ensures
            r is Ok,
    {
        let handle = self.data.acquire_read();
        let table = handle.borrow();
        proof {
            assert(shared_table_inv()(*table));
        }
        let value = table.get(key);
        handle.release_read();
        Ok(value)
    }
}

} // verus!
