use vstd::prelude::*;
use vstd::rwlock::RwLock;

verus! {

/// The association written by a sequence of key/value pairs, later pairs
/// winning over earlier ones (store is an unconditional overwrite).
pub open spec fn kv_map(s: Seq<(String, String)>) -> Map<Seq<char>, Seq<char>>
    decreases s.len(),
{
    if s.len() == 0 {
        Map::empty()
    } else {
        kv_map(s.drop_last()).insert(s.last().0@, s.last().1@)
    }
}

/// If no pair at or after position `i` carries key `k`, the pairs from `i`
/// on do not change what the association says about `k`.
proof fn lemma_kv_map_tail_irrelevant(s: Seq<(String, String)>, k: Seq<char>, i: int)
    requires
        0 <= i <= s.len(),
        forall|j: int| i <= j < s.len() ==> #[trigger] s[j].0@ != k,
    ensures
        kv_map(s).contains_key(k) == kv_map(s.take(i)).contains_key(k),
        kv_map(s).contains_key(k) ==> kv_map(s)[k] == kv_map(s.take(i))[k],
    decreases s.len() - i,
{
    if i == s.len() {
        assert(s.take(i) =~= s);
    } else {
        let s1 = s.drop_last();
        assert(s1.take(i) =~= s.take(i));
        lemma_kv_map_tail_irrelevant(s1, k, i);
    }
}

/// An associative store for string keys and string values.
///
/// `set` overwrites unconditionally and cannot fail for a well-formed key;
/// `get` returns the stored value or an explicit absence signal, never an
/// error. Any associative store satisfying this contract is interchangeable.
pub trait Memory {
    /// The association currently held by the store.
    spec fn model(&self) -> Map<Seq<char>, Seq<char>>;

    /// Internal well-formedness of the store.
    spec fn wf(&self) -> bool;

    /// Returns the value stored under `key`, or `None` if the key was
    /// never stored.
    fn get(&self, key: &str) -> (r: Option<String>)
        requires
            self.wf(),
        ensures
            match r {
                Some(v) => self.model().contains_key(key@) && v@ == self.model()[key@],
                None => !self.model().contains_key(key@),
            },
    ;

    /// Stores `value` under `key`, overwriting any previous value.
    fn set(&mut self, key: &str, value: String)
        requires
            old(self).wf(),
        ensures
            final(self).wf(),
            final(self).model() == old(self).model().insert(key@, value@),
    ;
}

/// The default in-process implementation of [`Memory`]: a plain associative
/// table kept as a sequence of key/value pairs, the most recent pair for a
/// key being the one that counts.
pub struct DefaultMemory {
    entries: Vec<(String, String)>,
}

impl DefaultMemory {
    /// Creates an empty store.
    pub fn new() -> (r: Self)
        ensures
            r.wf(),
            r.model() == Map::<Seq<char>, Seq<char>>::empty(),
    {
        DefaultMemory { entries: Vec::new() }
    }
}

impl Memory for DefaultMemory {
    closed spec fn model(&self) -> Map<Seq<char>, Seq<char>> {
        kv_map(self.entries@)
    }

    closed spec fn wf(&self) -> bool {
        true
    }

    fn get(&self, key: &str) -> (r: Option<String>) {
        let k: String = key.to_owned();
        let n = self.entries.len();
        let mut i = n;
        while i > 0
            invariant
                i <= n,
                n == self.entries@.len(),
                k@ == key@,
                forall|j: int| i <= j < n ==> #[trigger] self.entries@[j].0@ != key@,
            decreases i,
        {
            i = i - 1;
            if self.entries[i].0 == k {
                proof {
                    let s = self.entries@;
                    lemma_kv_map_tail_irrelevant(s, key@, i + 1);
                    assert(s.take(i + 1).drop_last() =~= s.take(i as int));
                    assert(s.take(i + 1).last() == s[i as int]);
                }
                return Some(self.entries[i].1.clone());
            }
        }
        proof {
            lemma_kv_map_tail_irrelevant(self.entries@, key@, 0);
            assert(self.entries@.take(0) =~= Seq::<(String, String)>::empty());
        }
        None
    }

    fn set(&mut self, key: &str, value: String) {
        let k: String = key.to_owned();
        self.entries.push((k, value));
        proof {
            assert(self.entries@.drop_last() =~= old(self).entries@);
        }
    }
}

/// Creates the default memory: an empty in-process associative table.
pub fn memory() -> (r: DefaultMemory)
    ensures
        r.wf(),
        r.model() == Map::<Seq<char>, Seq<char>>::empty(),
{
    DefaultMemory::new()
}

/// The invariant the lock of a memory handle maintains.
pub open spec fn memory_lock_inv<M: Memory>() -> spec_fn(M) -> bool {
    |m: M| m.wf()
}

/// A shareable handle around a memory implementation: the store sits
/// behind a reader/writer lock. Readers never block readers, writers are
/// exclusive, and the lock scope is a single `get` or `set` call; it is
/// never held across anything that could suspend.
#[verifier::reject_recursive_types(M)]
pub struct MemoryHandle<M: Memory> {
    lock: RwLock<M, spec_fn(M) -> bool>,
}

impl<M: Memory> MemoryHandle<M> {
    /// Well-formedness: the lock guards exactly the store's invariant.
    pub closed spec fn wf(&self) -> bool {
        self.lock.pred() == memory_lock_inv::<M>()
    }

    /// Wraps a store in a handle.
    pub fn new(store: M) -> (r: Self)
        requires
            store.wf(),
        ensures
            r.wf(),
    {
        MemoryHandle { lock: RwLock::new(store, Ghost(memory_lock_inv::<M>())) }
    }

    /// Stores `value` under `key` through the lock, taken exclusively for
    /// the duration of this one write.
    pub fn set(&self, key: &str, value: String)
        requires
            self.wf(),
    {
        let (mut store, handle) = self.lock.acquire_write();
        store.set(key, value);
        proof {
            assert(memory_lock_inv::<M>()(store));
        }
        handle.release_write(store);
    }

    /// Reads the value under `key` as the store stands while the read
    /// lock is held.
    pub fn get(&self, key: &str) -> (r: Option<String>)
        requires
            self.wf(),
    {
        let handle = self.lock.acquire_read();
        let store = handle.borrow();
        proof {
            assert(memory_lock_inv::<M>()(*store));
        }
        let value = store.get(key);
        handle.release_read();
        value
    }
}

/// Law: storing a value and then retrieving the same key yields exactly that
/// value, and a key never stored is reported absent.
pub proof fn lemma_memory_round_trip(
    m: Map<Seq<char>, Seq<char>>,
    k: Seq<char>,
    v: Seq<char>,
)
    ensures
        m.insert(k, v).contains_key(k),
        m.insert(k, v)[k] == v,
        !Map::<Seq<char>, Seq<char>>::empty().contains_key(k),
{
}

/// Law: two writers that touch distinct keys do not lose each other's
/// update, in whichever order their writes land.
pub proof fn lemma_distinct_writes_preserved(
    m: Map<Seq<char>, Seq<char>>,
    k1: Seq<char>,
    v1: Seq<char>,
    k2: Seq<char>,
    v2: Seq<char>,
)
    requires
        k1 != k2,
    ensures
        m.insert(k1, v1).insert(k2, v2)[k1] == v1,
        m.insert(k1, v1).insert(k2, v2)[k2] == v2,
        m.insert(k2, v2).insert(k1, v1)[k1] == v1,
        m.insert(k2, v2).insert(k1, v1)[k2] == v2,
{
}

} // verus!
