//! Load-balancing over several backing stubs: round robin, and consistent hashing of requests.

use vstd::prelude::*;
use std::sync::Arc;
use std::sync::atomic::{AtomicUsize, Ordering};

verus! {

/// The slot of a cycle over `len` elements that position `position` falls on.
pub open spec fn cycle_slot(position: usize, len: nat) -> int {
    (position as nat % len) as int
}

/// The shared state of an [`AtomicCycle`].
#[derive(Debug)]
pub struct State<T> {
    elements: Vec<T>,
    next: AtomicUsize,
}

/// Cycles endlessly and atomically over a collection of elements.
#[derive(Clone, Debug)]
pub struct AtomicCycle<T>(Arc<State<T>>);

impl<T> State<T> {
    /// The elements cycled over.
    pub closed spec fn elements(&self) -> Seq<T> {
        self.elements@
    }

    /// The element that position `position` of the endless cycle holds.
    pub fn element_at(&self, position: usize) -> (r: &T)
        requires
            self.elements().len() > 0,
        ensures
            *r == self.elements()[cycle_slot(position, self.elements().len())],
    {
        &self.elements[position % self.elements.len()]
    }

    /// Returns the element at the shared position, and moves the position on by one. The
    /// position is an atomic counter shared by every clone of the cycle; its value is not
    /// visible to contracts, so only that some position's element comes back is stated.
    pub fn next(&self) -> (r: &T)
        requires
            self.elements().len() > 0,
        ensures
            exists|position: usize| *r == #[trigger] self.elements()[cycle_slot(position, self.elements().len())],
    {
        let position = self.next.fetch_add(1, Ordering::Relaxed);
        self.element_at(position)
    }
}

impl<T> AtomicCycle<T> {
    /// The elements cycled over.
    pub closed spec fn elements(&self) -> Seq<T> {
        self.0.elements()
    }

    /// A cycle over `elements`, starting at the first.
    pub fn new(elements: Vec<T>) -> (c: AtomicCycle<T>)
        ensures
            c.elements() == elements@,
    {
        AtomicCycle(Arc::new(State { elements, next: AtomicUsize::new(0) }))
    }

    /// The element that position `position` of the endless cycle holds.
    pub fn element_at(&self, position: usize) -> (r: &T)
        requires
            self.elements().len() > 0,
        ensures
            *r == self.elements()[cycle_slot(position, self.elements().len())],
    {
        self.0.element_at(position)
    }

    /// Returns the next element of the cycle.
    pub fn next(&self) -> (r: &T)
        requires
            self.elements().len() > 0,
        ensures
            exists|position: usize| *r == #[trigger] self.elements()[cycle_slot(position, self.elements().len())],
    {
        self.0.next()
    }
}

/// A stub that sends each request to the backing stub its hash selects; equal requests go to
/// the same stub.
#[derive(Clone, Debug)]
pub struct ConsistentHash<Stub, S> {
    stubs: Vec<Stub>,
    stubs_len: u64,
    hasher: S,
}

/// A hasher builder with fresh random keys (`std::collections::hash_map::RandomState::new`).
/// Its keys depend on the process; nothing is stated of them.
#[verifier::external_body]
fn random_state() -> (s: std::collections::hash_map::RandomState) {
    std::collections::hash_map::RandomState::new()
}

impl<Stub> ConsistentHash<Stub, std::collections::hash_map::RandomState> {
    /// A stub over `stubs` that hashes with a randomly keyed hasher. The number of stubs always
    /// fits a `u64` on the platforms Rust supports, so this succeeds.
    pub fn new(stubs: Vec<Stub>) -> (r: Result<
        ConsistentHash<Stub, std::collections::hash_map::RandomState>,
        std::num::TryFromIntError,
    >)
        ensures
            r matches Ok(c) && c.wf() && c.stubs() == stubs@,
    {
        ConsistentHash::with_hasher(stubs, random_state())
    }
}

impl<Stub, S> ConsistentHash<Stub, S> {
    /// The backing stubs.
    pub closed spec fn stubs(&self) -> Seq<Stub> {
        self.stubs@
    }

    /// The hasher requests are hashed with.
    pub closed spec fn hasher_spec(&self) -> S {
        self.hasher
    }

    /// The number of stubs is recorded as a `u64`.
    pub closed spec fn wf(&self) -> bool {
        self.stubs_len == self.stubs@.len()
    }

    /// A stub over `stubs` that hashes with `hasher`. The number of stubs always fits a `u64`
    /// on the platforms Rust supports, so this succeeds.
    pub fn with_hasher(stubs: Vec<Stub>, hasher: S) -> (r: Result<
        ConsistentHash<Stub, S>,
        std::num::TryFromIntError,
    >)
        ensures
            r matches Ok(c) && c.wf() && c.stubs() == stubs@ && c.hasher_spec() == hasher,
    {
        let len = u64::try_from(stubs.len());
        match len {
            Ok(stubs_len) => Ok(ConsistentHash { stubs, stubs_len, hasher }),
            Err(e) => Err(e),
        }
    }

    /// The hasher requests are hashed with.
    pub fn hasher(&self) -> (h: &S)
        ensures
            *h == self.hasher_spec(),
    {
        &self.hasher
    }

    /// The index of the stub that a request with hash `hash` goes to: the hash modulo the
    /// number of stubs.
    pub fn index_for_hash(&self, hash: u64) -> (i: usize)
        requires
            self.wf(),
            self.stubs().len() > 0,
        ensures
            i == hash % (self.stubs().len() as u64),
            i < self.stubs().len(),
    {
        let r = hash % self.stubs_len;
        let n = self.stubs.len();
        assert(r < n);
        match usize::try_from(r) {
            Ok(i) => i,
            Err(_) => 0,
        }
    }

    /// The stub that a request with hash `hash` goes to.
    pub fn stub_for_hash(&self, hash: u64) -> (s: &Stub)
        requires
            self.wf(),
            self.stubs().len() > 0,
        ensures
            *s == self.stubs()[(hash % (self.stubs().len() as u64)) as int],
    {
        let i = self.index_for_hash(hash);
        &self.stubs[i]
    }
}

} // verus!
