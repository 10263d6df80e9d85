//! The transaction's queue of pending refreshes, and the set of entities
//! already checked for post-crash truncation.
use vstd::prelude::*;
use crate::queue::key::{KeyView, RefreshKey};

verus! {

pub open spec fn key_views(s: Seq<RefreshKey>) -> Seq<KeyView> {
    s.map_values(|k: RefreshKey| k@)
}

/// `q` with `k` added at the end, unless already present.
pub open spec fn queue_insert(q: Seq<KeyView>, k: KeyView) -> Seq<KeyView> {
    if q.contains(k) {
        q
    } else {
        q.push(k)
    }
}

/// Enqueueing is idempotent: a key that is already queued leaves the queue
/// as it is. After an enqueue the key is queued, every key queued before
/// keeps its place, and no key is queued twice.
pub proof fn law_queue_insert_dedups(q: Seq<KeyView>, k: KeyView)
    requires
        q.no_duplicates(),
    ensures
        queue_insert(q, k).contains(k),
        queue_insert(queue_insert(q, k), k) == queue_insert(q, k),
        queue_insert(q, k).no_duplicates(),
        queue_insert(q, k).take(q.len() as int) == q,
        queue_insert(q, k).len() == q.len() + (if q.contains(k) { 0int } else { 1int }),
{
    if !q.contains(k) {
        assert(q.push(k)[q.len() as int] == k);
        assert(q.push(k).take(q.len() as int) =~= q);
        assert forall|a: int, b: int| 0 <= a < b < q.push(k).len() implies q.push(k)[a] != q.push(k)[b] by {
            if b == q.len() {
                assert(q.contains(q[a]));
            }
        }
    } else {
        assert(q.take(q.len() as int) =~= q);
    }
}

/// Transaction-local queue of refresh requests: a set of keys, kept in the
/// order in which they were first enqueued.
#[derive(Debug)]
pub struct RefreshQueue {
    keys: Vec<RefreshKey>,
}

impl View for RefreshQueue {
    type V = Seq<KeyView>;

    closed spec fn view(&self) -> Seq<KeyView> {
        key_views(self.keys@)
    }
}

impl RefreshQueue {
    #[verifier::type_invariant]
    closed spec fn no_repeats(self) -> bool {
        key_views(self.keys@).no_duplicates()
    }

    /// An empty queue.
    pub fn new() -> (q: Self)
        ensures
            q@ == Seq::<KeyView>::empty(),
    {
        let q = RefreshQueue { keys: Vec::new() };
        assert(key_views(q.keys@) =~= Seq::<KeyView>::empty());
        q
    }

    /// Number of queued keys.
    pub fn len(&self) -> (r: usize)
        ensures
            r == self@.len(),
            self@.no_duplicates(),
    {
        proof {
            use_type_invariant(self);
        }
        self.keys.len()
    }

    /// Whether nothing is queued.
    pub fn is_empty(&self) -> (r: bool)
        ensures
            r == (self@.len() == 0),
    {
        self.keys.len() == 0
    }

    /// Whether `key` is queued.
    pub fn contains(&self, key: &RefreshKey) -> (r: bool)
        ensures
            r == self@.contains(key@),
    {
        let mut i: usize = 0;
        while i < self.keys.len()
            invariant
                i <= self.keys@.len(),
                self@ == key_views(self.keys@),
                forall|j: int| 0 <= j < i ==> #[trigger] self@[j] != key@,
            decreases self.keys.len() - i,
        {
            if self.keys[i].same_key(key) {
                assert(self@[i as int] == key@);
                return true;
            }
            i += 1;
        }
        false
    }

    /// Add `key` unless it is already queued.
    pub fn insert(&mut self, key: RefreshKey) -> (fresh: bool)
        ensures
            fresh == !old(self)@.contains(key@),
            final(self)@ == queue_insert(old(self)@, key@),
    {
        proof {
            use_type_invariant(&*self);
        }
        if self.contains(&key) {
            false
        } else {
            let ghost before = self@;
            let mut keys: Vec<RefreshKey> = Vec::new();
            std::mem::swap(&mut keys, &mut self.keys);
            keys.push(key);
            proof {
                assert(key_views(keys@) =~= before.push(key@));
            }
            self.keys = keys;
            true
        }
    }

    /// The queued keys, in queue order.
    pub fn to_vec(&self) -> (v: Vec<RefreshKey>)
        ensures
            key_views(v@) == self@,
    {
        let mut v: Vec<RefreshKey> = Vec::new();
        let mut i: usize = 0;
        while i < self.keys.len()
            invariant
                i <= self.keys@.len(),
                self@ == key_views(self.keys@),
                key_views(v@) == self@.take(i as int),
            decreases self.keys.len() - i,
        {
            let ghost before = key_views(v@);
            let k = self.keys[i].duplicate();
            v.push(k);
            proof {
                assert(key_views(v@) =~= before.push(self@[i as int]));
                assert(self@.take(i + 1) =~= self@.take(i as int).push(self@[i as int]));
            }
            i += 1;
        }
        assert(self@.take(self@.len() as int) =~= self@);
        v
    }

    /// Empty the queue.
    pub fn clear(&mut self)
        ensures
            final(self)@ == Seq::<KeyView>::empty(),
    {
        self.keys = Vec::new();
        assert(self@ =~= Seq::<KeyView>::empty());
    }

    /// Move the whole queue out, leaving this one empty.
    pub fn take(&mut self) -> (taken: Self)
        ensures
            taken@ == old(self)@,
            final(self)@ == Seq::<KeyView>::empty(),
    {
        let mut fresh = RefreshQueue::new();
        std::mem::swap(self, &mut fresh);
        fresh
    }
}

/// Entities already checked for post-crash truncation in this transaction.
#[derive(Debug)]
pub struct CheckedEntities {
    names: Vec<String>,
}

pub open spec fn string_seq(s: Seq<String>) -> Seq<Seq<char>> {
    s.map_values(|x: String| x@)
}

impl View for CheckedEntities {
    type V = Set<Seq<char>>;

    closed spec fn view(&self) -> Set<Seq<char>> {
        string_seq(self.names@).to_set()
    }
}

impl CheckedEntities {
    /// No entity checked yet.
    pub fn new() -> (c: Self)
        ensures
            c@ == Set::<Seq<char>>::empty(),
    {
        let c = CheckedEntities { names: Vec::new() };
        assert(string_seq(c.names@).to_set() =~= Set::<Seq<char>>::empty());
        c
    }

    /// Whether `entity` was checked.
    pub fn contains(&self, entity: &str) -> (r: bool)
        ensures
            r == self@.contains(entity@),
    {
        let e = entity.to_owned();
        let mut i: usize = 0;
        while i < self.names.len()
            invariant
                i <= self.names@.len(),
                e@ == entity@,
                forall|j: int| 0 <= j < i ==> #[trigger] self.names@[j]@ != entity@,
            decreases self.names.len() - i,
        {
            if self.names[i] == e {
                assert(string_seq(self.names@)[i as int] == entity@);
                return true;
            }
            i += 1;
        }
        proof {
            if self@.contains(entity@) {
                let j = choose|j: int|
                    0 <= j < self.names@.len() && #[trigger] string_seq(self.names@)[j]
                        == entity@;
                assert(self.names@[j]@ == entity@);
            }
        }
        false
    }

    /// Record `entity` as checked.
    pub fn insert(&mut self, entity: &str)
        ensures
            final(self)@ == old(self)@.insert(entity@),
    {
        if !self.contains(entity) {
            let ghost before = string_seq(self.names@);
            self.names.push(entity.to_owned());
            proof {
                assert(string_seq(self.names@) =~= before.push(entity@));
                before.lemma_push_to_set_commute(entity@);
            }
        } else {
            assert(self@.insert(entity@) =~= self@);
        }
    }

    /// Forget every checked entity.
    pub fn clear(&mut self)
        ensures
            final(self)@ == Set::<Seq<char>>::empty(),
    {
        self.names = Vec::new();
        assert(string_seq(self.names@).to_set() =~= Set::<Seq<char>>::empty());
    }
}

/// Replace the current queue with another (savepoint rollback).
pub fn replace_queue(queue: &mut RefreshQueue, new_queue: RefreshQueue)
    ensures
        final(queue)@ == new_queue@,
{
    *queue = new_queue;
}

/// The number of queued keys.
pub fn get_queue_size(queue: &RefreshQueue) -> (r: usize)
    ensures
        r == queue@.len(),
{
    queue.len()
}

/// A copy of the queued keys.
pub fn get_queue_contents(queue: &RefreshQueue) -> (v: Vec<RefreshKey>)
    ensures
        key_views(v@) == queue@,
{
    queue.to_vec()
}

} // verus!
