//! The storage of a queue of delayed items: the keys it hands out, the slots that hold the items
//! with their deadlines, the intrusive stacks that chain items together through their slots, and
//! the entries it yields once they expire.

use vstd::prelude::*;
use vstd::std_specs::convert::FromSpecImpl;
use std::marker::PhantomData;

verus! {

/// An entry that has expired and been removed from the queue.
#[derive(Debug)]
pub struct Expired<T> {
    /// The data stored in the queue.
    data: T,
}

impl<T> Expired<T> {
    /// The data held.
    pub closed spec fn data(&self) -> T {
        self.data
    }

    /// An expired entry holding `data`.
    pub fn new(data: T) -> (e: Expired<T>)
        ensures
            e.data() == data,
    {
        Expired { data }
    }

    /// Returns the data held.
    pub fn into_inner(self) -> (t: T)
        ensures
            t == self.data(),
    {
        self.data
    }
}

/// A token for a value stored in the queue, handed out on insertion.
#[derive(Debug, Clone, Copy, PartialEq, Eq, Structural, Hash)]
pub struct Key {
    index: usize,
}

/// The queue's own key type; handed-out keys and internal keys correspond one to one.
#[derive(Debug, Clone, Copy, PartialEq, Eq, Structural, Hash)]
pub struct KeyInternal {
    index: usize,
}

impl Key {
    /// The slot a key names.
    pub closed spec fn index(&self) -> usize {
        self.index
    }

    /// The key for slot `index`.
    pub fn new(index: usize) -> (k: Key)
        ensures
            k.index() == index,
    {
        Key { index }
    }
}

impl KeyInternal {
    /// The slot an internal key names.
    pub closed spec fn index(&self) -> usize {
        self.index
    }

    /// The internal key for slot `index`.
    pub fn new(index: usize) -> (k: KeyInternal)
        ensures
            k.index() == index,
    {
        KeyInternal { index }
    }
}

impl From<Key> for KeyInternal {
    fn from(item: Key) -> (k: KeyInternal)
        ensures
            k.index() == item.index(),
    {
        KeyInternal::new(item.index)
    }
}

impl FromSpecImpl<Key> for KeyInternal {
    open spec fn obeys_from_spec() -> bool {
        true
    }

    closed spec fn from_spec(item: Key) -> KeyInternal {
        KeyInternal { index: item.index }
    }
}

impl From<KeyInternal> for Key {
    fn from(item: KeyInternal) -> (k: Key)
        ensures
            k.index() == item.index(),
    {
        Key::new(item.index)
    }
}

impl FromSpecImpl<KeyInternal> for Key {
    open spec fn obeys_from_spec() -> bool {
        true
    }

    closed spec fn from_spec(item: KeyInternal) -> Key {
        Key { index: item.index }
    }
}

/// An item stored in the queue, with its deadline and its links in the stack it is on.
#[derive(Debug)]
pub struct Data<T> {
    /// The data being stored in the queue, returned at the requested instant.
    pub inner: T,
    /// The instant at which the item is returned, in the queue's time units.
    pub when: u64,
    /// Whether the item is on the queue's stack of expired items.
    pub expired: bool,
    /// The next entry in the stack.
    pub next: Option<Key>,
    /// The previous entry in the stack.
    pub prev: Option<Key>,
}

#[verifier::external_type_specification]
#[verifier::external_body]
#[verifier::reject_recursive_types(T)]
pub struct ExSlab<T>(slab::Slab<T>);

/// The keys that hold a value in a `slab::Slab<()>`.
pub uninterp spec fn slab_keys(s: slab::Slab<()>) -> Set<usize>;

/// The key that a `slab::Slab<()>` hands out on its next insertion (`Slab::vacant_key`).
pub uninterp spec fn slab_vacant_key(s: slab::Slab<()>) -> usize;

/// `slab::Slab::with_capacity`: an empty slab, whose first insertion takes key 0.
#[verifier::external_body]
fn slab_with_capacity(capacity: usize) -> (s: slab::Slab<()>)
    ensures
        slab_keys(s) == Set::<usize>::empty(),
        slab_vacant_key(s) == 0,
{
    slab::Slab::with_capacity(capacity)
}

/// `slab::Slab::insert`: the value goes under the slab's vacant key, which held nothing, and that
/// key is returned.
#[verifier::external_body]
fn slab_insert(s: &mut slab::Slab<()>) -> (key: usize)
    ensures
        key == slab_vacant_key(*old(s)),
        !slab_keys(*old(s)).contains(key),
        slab_keys(*final(s)) == slab_keys(*old(s)).insert(key),
{
    s.insert(())
}

/// `slab::Slab::remove` on a key that holds a value (it panics on any other): the key is freed
/// and becomes the slab's vacant key, the next to be handed out.
#[verifier::external_body]
fn slab_remove(s: &mut slab::Slab<()>, key: usize)
    requires
        slab_keys(*old(s)).contains(key),
    ensures
        slab_keys(*final(s)) == slab_keys(*old(s)).remove(key),
        slab_vacant_key(*final(s)) == key,
{
    s.remove(key)
}

/// `slab::Slab::contains`: whether `key` holds a value.
#[verifier::external_body]
fn slab_contains(s: &slab::Slab<()>, key: usize) -> (b: bool)
    ensures
        b == slab_keys(*s).contains(key),
{
    s.contains(key)
}

/// Slots that hold the queue's items, keyed by the slot index. A slab hands out the keys: a freed
/// key is the next one handed out.
pub struct SlabStorage<T> {
    inner: Vec<Option<Data<T>>>,
    slots: slab::Slab<()>,
}

impl<T> SlabStorage<T> {
    /// The items stored, by key.
    pub closed spec fn entries(&self) -> Map<Key, Data<T>> {
        Map::new(
            |k: Key| k.index < self.inner@.len() && self.inner@[k.index as int] is Some,
            |k: Key| self.inner@[k.index as int]->0,
        )
    }

    /// The key that the next insertion hands out.
    pub closed spec fn next_key(&self) -> usize {
        slab_vacant_key(self.slots)
    }

    /// The slab holds exactly the keys of the stored items.
    pub closed spec fn wf(&self) -> bool {
        forall|i: usize|
            #![trigger slab_keys(self.slots).contains(i)]
            #![trigger self.inner@[i as int]]
            slab_keys(self.slots).contains(i) <==> (i < self.inner@.len()
                && self.inner@[i as int] is Some)
    }

    /// Empty storage with room for `capacity` items before it grows; the first key is slot 0.
    pub fn with_capacity(capacity: usize) -> (s: SlabStorage<T>)
        ensures
            s.wf(),
            s.next_key() == 0,
            s.entries() == Map::<Key, Data<T>>::empty(),
    {
        let s = SlabStorage { inner: Vec::with_capacity(capacity), slots: slab_with_capacity(capacity) };
        assert(s.entries() =~= Map::<Key, Data<T>>::empty());
        s
    }

    /// Stores `val` under the slab's next key, which it returns.
    pub fn insert(&mut self, val: Data<T>) -> (key: Key)
        requires
            old(self).wf(),
        ensures
            final(self).wf(),
            key.index() == old(self).next_key(),
            !old(self).entries().contains_key(key),
            final(self).entries() == old(self).entries().insert(key, val),
    {
        let i = slab_insert(&mut self.slots);
        let key = Key::new(i);
        let ghost old_inner = self.inner@;
        let ghost new_slots = self.slots;
        if i < self.inner.len() {
            self.inner.set(i, Some(val));
        } else {
            while self.inner.len() < i
                invariant
                    self.slots == new_slots,
                    old_inner.len() <= self.inner@.len() <= i,
                    forall|j: int| 0 <= j < old_inner.len() ==> self.inner@[j] == old_inner[j],
                    forall|j: int| old_inner.len() <= j < self.inner@.len() ==> self.inner@[j] is None,
                decreases i - self.inner@.len(),
            {
                self.inner.push(None);
            }
            self.inner.push(Some(val));
        }
        proof {
            assert forall|j: usize| #![trigger slab_keys(self.slots).contains(j)] #![trigger self.inner@[j as int]]
                slab_keys(self.slots).contains(j) <==> (j < self.inner@.len() && self.inner@[j as int] is Some) by {
                if j != i && j < old_inner.len() {
                    assert(old_inner[j as int] == self.inner@[j as int]);
                }
                if j != i && old(self).wf() {
                    assert(slab_keys(old(self).slots).contains(j) <==> (j < old_inner.len()
                        && old_inner[j as int] is Some));
                }
            }
            assert(self.entries() =~= old(self).entries().insert(key, val));
        }
        key
    }

    /// Whether an item is stored under `key`.
    pub fn contains(&self, key: &Key) -> (b: bool)
        requires
            self.wf(),
        ensures
            b == self.entries().contains_key(*key),
    {
        slab_contains(&self.slots, key.index)
    }

    /// The item stored under `key`.
    pub fn get(&self, key: Key) -> (d: &Data<T>)
        requires
            self.entries().contains_key(key),
        ensures
            *d == self.entries()[key],
    {
        match &self.inner[key.index] {
            Some(d) => d,
            None => vstd::pervasive::unreached(),
        }
    }

    /// Removes and returns the item stored under `key`; its key is the next one handed out.
    pub fn remove(&mut self, key: &Key) -> (d: Data<T>)
        requires
            old(self).wf(),
            old(self).entries().contains_key(*key),
        ensures
            final(self).wf(),
            final(self).next_key() == key.index(),
            d == old(self).entries()[*key],
            final(self).entries() == old(self).entries().remove(*key),
    {
        let mut slot: Option<Data<T>> = None;
        std::mem::swap(&mut slot, &mut self.inner[key.index]);
        proof {
            assert(slab_keys(self.slots).contains(key.index));
        }
        slab_remove(&mut self.slots, key.index);
        proof {
            assert forall|j: usize| #![trigger slab_keys(self.slots).contains(j)] #![trigger self.inner@[j as int]]
                slab_keys(self.slots).contains(j) <==> (j < self.inner@.len() && self.inner@[j as int] is Some) by {
                if j != key.index {
                    assert(slab_keys(old(self).slots).contains(j) <==> (j < old(self).inner@.len()
                        && old(self).inner@[j as int] is Some));
                }
            }
            assert(self.entries() =~= old(self).entries().remove(*key));
        }
        match slot {
            Some(d) => d,
            None => vstd::pervasive::unreached(),
        }
    }
    /// Sets the link to the next entry of the item under `key`.
    pub fn set_next(&mut self, key: Key, next: Option<Key>)
        requires
            old(self).wf(),
            old(self).entries().contains_key(key),
        ensures
            final(self).wf(),
            final(self).entries() == old(self).entries().insert(
                key,
                Data { next, ..old(self).entries()[key] },
            ),
            final(self).next_key() == old(self).next_key(),
    {
        match &mut self.inner[key.index] {
            Some(d) => {
                d.next = next;
            },
            None => {},
        }
        proof {
            assert(self.entries() =~= old(self).entries().insert(
                key,
                Data { next, ..old(self).entries()[key] },
            ));
        }
    }

    /// Sets the link to the previous entry of the item under `key`.
    pub fn set_prev(&mut self, key: Key, prev: Option<Key>)
        requires
            old(self).wf(),
            old(self).entries().contains_key(key),
        ensures
            final(self).wf(),
            final(self).entries() == old(self).entries().insert(
                key,
                Data { prev, ..old(self).entries()[key] },
            ),
            final(self).next_key() == old(self).next_key(),
    {
        match &mut self.inner[key.index] {
            Some(d) => {
                d.prev = prev;
            },
            None => {},
        }
        proof {
            assert(self.entries() =~= old(self).entries().insert(
                key,
                Data { prev, ..old(self).entries()[key] },
            ));
        }
    }

    /// Marks whether the item under `key` is on the stack of expired items.
    pub fn set_expired(&mut self, key: Key, expired: bool)
        requires
            old(self).wf(),
            old(self).entries().contains_key(key),
        ensures
            final(self).wf(),
            final(self).entries() == old(self).entries().insert(
                key,
                Data { expired, ..old(self).entries()[key] },
            ),
            final(self).next_key() == old(self).next_key(),
    {
        match &mut self.inner[key.index] {
            Some(d) => {
                d.expired = expired;
            },
            None => {},
        }
        proof {
            assert(self.entries() =~= old(self).entries().insert(
                key,
                Data { expired, ..old(self).entries()[key] },
            ));
        }
    }
}

/// `keys` are the items of a stack whose head is `head`, top first, each linked to its
/// neighbours through its slot in `entries`.
pub open spec fn is_stack<T>(entries: Map<Key, Data<T>>, head: Option<Key>, keys: Seq<Key>) -> bool {
    &&& keys.no_duplicates()
    &&& head == if keys.len() == 0 {
        None::<Key>
    } else {
        Some(keys[0])
    }
    &&& forall|i: int| 0 <= i < keys.len() ==> #[trigger] entries.contains_key(keys[i])
    &&& forall|i: int|
        0 <= i < keys.len() ==> (#[trigger] entries[keys[i]]).next == if i + 1 < keys.len() {
            Some(keys[i + 1])
        } else {
            None::<Key>
        }
    &&& forall|i: int|
        0 <= i < keys.len() ==> (#[trigger] entries[keys[i]]).prev == if i > 0 {
            Some(keys[i - 1])
        } else {
            None::<Key>
        }
}

/// What pushing `item` onto the stack `keys` with head `head` does: the item goes on top, its
/// `next` link points at the old head, the old head's `prev` link points at the item, and no
/// other slot changes.
pub open spec fn pushed<T>(
    e0: Map<Key, Data<T>>,
    keys0: Seq<Key>,
    head0: Option<Key>,
    item: Key,
    e1: Map<Key, Data<T>>,
    keys1: Seq<Key>,
) -> bool {
    &&& keys1 == seq![item] + keys0
    &&& e1.dom() == e0.dom()
    &&& e1[item] == (Data { next: head0, ..e0[item] })
    &&& head0 matches Some(h) ==> e1[h] == (Data { prev: Some(item), ..e0[h] })
    &&& forall|k: Key|
        k != item && head0 != Some(k) && e0.contains_key(k) ==> #[trigger] e1[k] == e0[k]
}

/// What popping the stack `keys` does: nothing when it is empty; otherwise the top item `r`
/// comes off with its `next` link cleared, the item below loses its `prev` link, and no other
/// slot changes.
pub open spec fn popped<T>(
    e0: Map<Key, Data<T>>,
    keys0: Seq<Key>,
    e1: Map<Key, Data<T>>,
    keys1: Seq<Key>,
    r: Option<Key>,
) -> bool {
    &&& e1.dom() == e0.dom()
    &&& keys0.len() == 0 ==> {
        &&& r is None
        &&& keys1 == keys0
        &&& e1 == e0
    }
    &&& keys0.len() > 0 ==> {
        let k = keys0[0];
        &&& r == Some(k)
        &&& keys1 == keys0.drop_first()
        &&& e1[k] == (Data { next: None, ..e0[k] })
        &&& keys0.len() > 1 ==> e1[keys0[1]] == (Data { prev: None, ..e0[keys0[1]] })
        &&& forall|j: Key|
            j != k && (keys0.len() > 1 ==> j != keys0[1]) && e0.contains_key(j) ==> #[trigger] e1[j]
                == e0[j]
    }
}

/// Popping right after pushing gives the pushed item back and leaves the stack and every slot
/// exactly as they were.
pub proof fn lemma_push_then_pop<T>(
    e0: Map<Key, Data<T>>,
    keys0: Seq<Key>,
    head0: Option<Key>,
    item: Key,
    e1: Map<Key, Data<T>>,
    keys1: Seq<Key>,
    e2: Map<Key, Data<T>>,
    keys2: Seq<Key>,
    r: Option<Key>,
)
    requires
        is_stack(e0, head0, keys0),
        e0.contains_key(item),
        e0[item].next is None,
        e0[item].prev is None,
        !keys0.contains(item),
        pushed(e0, keys0, head0, item, e1, keys1),
        popped(e1, keys1, e2, keys2, r),
    ensures
        r == Some(item),
        keys2 == keys0,
        e2 == e0,
{
    assert(keys1[0] == item);
    assert(keys1.drop_first() =~= keys0);
    if keys0.len() > 0 {
        assert(keys1[1] == keys0[0]);
        assert(e0[keys0[0]].prev is None);
        assert(keys0[0] != item);
    }
    assert forall|k: Key| #[trigger] e2.contains_key(k) implies e2[k] == e0[k] by {
        if k == item {
        } else if keys0.len() > 0 && k == keys0[0] {
        } else {
            assert(e1[k] == e0[k]);
        }
    }
    assert(e2 =~= e0);
}

/// A stack of stored items, chained through the `next` and `prev` links of their slots.
pub struct Stack<T> {
    head: Option<Key>,
    keys: Ghost<Seq<Key>>,
    _p: PhantomData<T>,
}

impl<T> Stack<T> {
    /// The items on the stack, top first.
    pub closed spec fn keys(&self) -> Seq<Key> {
        self.keys@
    }

    /// The top of the stack.
    pub closed spec fn head(&self) -> Option<Key> {
        self.head
    }

    /// The stack's links in `store` chain exactly its items.
    pub open spec fn wf(&self, store: SlabStorage<T>) -> bool {
        is_stack(store.entries(), self.head(), self.keys())
    }

    /// An empty stack.
    pub fn new() -> (s: Stack<T>)
        ensures
            s.keys() == Seq::<Key>::empty(),
            s.head() is None,
    {
        Stack { head: None, keys: Ghost(Seq::empty()), _p: PhantomData }
    }

    /// Whether the stack holds no item.
    pub fn is_empty(&self) -> (b: bool)
        ensures
            b == (self.head() is None),
    {
        self.head.is_none()
    }

    /// The deadline of a stored item.
    pub fn when(item: &Key, store: &SlabStorage<T>) -> (w: u64)
        requires
            store.entries().contains_key(*item),
        ensures
            w == store.entries()[*item].when,
    {
        store.get(*item).when
    }

    /// Puts `item`, which is stored and on no stack, on top.
    pub fn push(&mut self, item: Key, store: &mut SlabStorage<T>)
        requires
            old(store).wf(),
            old(self).wf(*old(store)),
            old(store).entries().contains_key(item),
            old(store).entries()[item].next is None,
            old(store).entries()[item].prev is None,
            !old(self).keys().contains(item),
        ensures
            final(store).wf(),
            final(self).wf(*final(store)),
            final(store).next_key() == old(store).next_key(),
            pushed(
                old(store).entries(),
                old(self).keys(),
                old(self).head(),
                item,
                final(store).entries(),
                final(self).keys(),
            ),
    {
        let old_head = self.head;
        if let Some(idx) = old_head {
            store.set_prev(idx, Some(item));
        }
        store.set_next(item, old_head);
        self.head = Some(item);
        let ghost old_keys = old(self).keys();
        proof {
            self.keys = Ghost(seq![item] + old_keys);
        }
        proof {
            let keys = self.keys@;
            let e = store.entries();
            let oe = old(store).entries();
            assert(keys.no_duplicates()) by {
                assert forall|a: int, b: int| 0 <= a < b < keys.len() implies keys[a] != keys[b] by {
                    if a == 0 {
                        assert(old_keys.contains(keys[b]));
                    } else {
                        assert(keys[a] == old_keys[a - 1] && keys[b] == old_keys[b - 1]);
                    }
                }
            }
            assert forall|i: int| 0 <= i < keys.len() implies #[trigger] e.contains_key(keys[i]) by {
                if i > 0 {
                    assert(keys[i] == old_keys[i - 1]);
                }
            }
            assert forall|i: int| 0 <= i < keys.len() implies (#[trigger] e[keys[i]]).next == if i
                + 1 < keys.len() {
                Some(keys[i + 1])
            } else {
                None::<Key>
            } by {
                if i > 0 {
                    assert(keys[i] == old_keys[i - 1]);
                    assert(oe[old_keys[i - 1]].next == if i < old_keys.len() {
                        Some(old_keys[i])
                    } else {
                        None::<Key>
                    });
                    assert(old_keys[i - 1] != item);
                }
            }
            assert forall|i: int| 0 <= i < keys.len() implies (#[trigger] e[keys[i]]).prev == if i
                > 0 {
                Some(keys[i - 1])
            } else {
                None::<Key>
            } by {
                if i > 1 {
                    assert(keys[i] == old_keys[i - 1]);
                    assert(oe[old_keys[i - 1]].prev == Some(old_keys[i - 2]));
                    assert(old_keys[i - 1] != item);
                    assert(old_keys[i - 1] != old_keys[0]);
                } else if i == 1 {
                    assert(keys[1] == old_keys[0]);
                }
            }
            assert(e.dom() =~= oe.dom());
        }
    }

    /// Takes the top item off the stack, unlinking it; `None` when the stack is empty.
    pub fn pop(&mut self, store: &mut SlabStorage<T>) -> (r: Option<Key>)
        requires
            old(store).wf(),
            old(self).wf(*old(store)),
        ensures
            final(store).wf(),
            final(self).wf(*final(store)),
            final(store).next_key() == old(store).next_key(),
            popped(
                old(store).entries(),
                old(self).keys(),
                final(store).entries(),
                final(self).keys(),
                r,
            ),
    {
        match self.head {
            Some(key) => {
                let next = store.get(key).next;
                self.head = next;
                if let Some(idx) = next {
                    store.set_prev(idx, None);
                }
                store.set_next(key, None);
                let ghost old_keys = old(self).keys();
                proof {
                    self.keys = Ghost(old_keys.drop_first());
                }
                proof {
                    let keys = self.keys@;
                    let e = store.entries();
                    let oe = old(store).entries();
                    assert(keys.no_duplicates()) by {
                        assert forall|a: int, b: int| 0 <= a < b < keys.len() implies keys[a]
                            != keys[b] by {
                            assert(keys[a] == old_keys[a + 1] && keys[b] == old_keys[b + 1]);
                        }
                    }
                    assert forall|i: int| 0 <= i < keys.len() implies #[trigger] e.contains_key(
                        keys[i],
                    ) by {
                        assert(keys[i] == old_keys[i + 1]);
                    }
                    assert forall|i: int| 0 <= i < keys.len() implies (#[trigger] e[keys[i]]).next
                        == if i + 1 < keys.len() {
                        Some(keys[i + 1])
                    } else {
                        None::<Key>
                    } by {
                        assert(keys[i] == old_keys[i + 1]);
                        assert(old_keys[i + 1] != old_keys[0]);
                        assert(oe[old_keys[i + 1]].next == if i + 2 < old_keys.len() {
                            Some(old_keys[i + 2])
                        } else {
                            None::<Key>
                        });
                    }
                    assert forall|i: int| 0 <= i < keys.len() implies (#[trigger] e[keys[i]]).prev
                        == if i > 0 {
                        Some(keys[i - 1])
                    } else {
                        None::<Key>
                    } by {
                        assert(keys[i] == old_keys[i + 1]);
                        assert(old_keys[i + 1] != old_keys[0]);
                        if i > 0 {
                            assert(old_keys[i + 1] != old_keys[1]);
                            assert(oe[old_keys[i + 1]].prev == Some(old_keys[i]));
                        }
                    }
                    assert(e.dom() =~= oe.dom());
                }
                Some(key)
            },
            None => None,
        }
    }
    /// Unlinks `item`, which is on the stack, wherever it is; its neighbours are linked to each
    /// other.
    pub fn remove(&mut self, item: &Key, store: &mut SlabStorage<T>)
        requires
            old(store).wf(),
            old(self).wf(*old(store)),
            old(self).keys().contains(*item),
        ensures
            final(store).wf(),
            final(self).wf(*final(store)),
            final(store).next_key() == old(store).next_key(),
            final(self).keys() == old(self).keys().remove(old(self).keys().index_of(*item)),
            final(store).entries().dom() == old(store).entries().dom(),
            final(store).entries()[*item] == (Data {
                next: None,
                prev: None,
                ..old(store).entries()[*item]
            }),
            ({
                let i = old(self).keys().index_of(*item);
                let keys = old(self).keys();
                let oe = old(store).entries();
                let e = final(store).entries();
                &&& i > 0 ==> e[keys[i - 1]] == (Data { next: oe[*item].next, ..oe[keys[i - 1]] })
                &&& i + 1 < keys.len() ==> e[keys[i + 1]] == (Data {
                    prev: oe[*item].prev,
                    ..oe[keys[i + 1]]
                })
                &&& forall|k: Key|
                    k != *item && (i > 0 ==> k != keys[i - 1]) && (i + 1 < keys.len() ==> k
                        != keys[i + 1]) && oe.contains_key(k) ==> #[trigger] e[k] == oe[k]
            }),
    {
        let ghost old_keys = old(self).keys();
        let ghost i = old_keys.index_of(*item);
        assert(0 <= i < old_keys.len() && old_keys[i] == *item);
        let key = *item;
        let next = store.get(key).next;
        let prev = store.get(key).prev;
        if let Some(n) = next {
            store.set_prev(n, prev);
        }
        if let Some(p) = prev {
            store.set_next(p, next);
        } else {
            self.head = next;
        }
        store.set_next(key, None);
        store.set_prev(key, None);
        proof {
            self.keys = Ghost(old_keys.remove(i));
        }
        proof {
            let keys = self.keys@;
            let e = store.entries();
            let oe = old(store).entries();
            assert(keys.no_duplicates()) by {
                assert forall|a: int, b: int| 0 <= a < b < keys.len() implies keys[a] != keys[b] by {
                    let oa = if a < i { a } else { a + 1 };
                    let ob = if b < i { b } else { b + 1 };
                    assert(keys[a] == old_keys[oa] && keys[b] == old_keys[ob]);
                }
            }
            assert forall|j: int| 0 <= j < keys.len() implies #[trigger] e.contains_key(keys[j]) by {
                let oj = if j < i { j } else { j + 1 };
                assert(keys[j] == old_keys[oj]);
            }
            assert forall|j: int| 0 <= j < keys.len() implies (#[trigger] e[keys[j]]).next == if j
                + 1 < keys.len() {
                Some(keys[j + 1])
            } else {
                None::<Key>
            } by {
                let oj = if j < i { j } else { j + 1 };
                assert(keys[j] == old_keys[oj]);
                assert(old_keys[oj] != key);
                if j + 1 < i {
                    assert(keys[j + 1] == old_keys[j + 1]);
                } else if j + 1 == i {
                    assert(oj == i - 1);
                    if i + 1 < old_keys.len() {
                        assert(keys[j + 1] == old_keys[i + 1]);
                    }
                } else {
                    if j + 1 < keys.len() {
                        assert(keys[j + 1] == old_keys[j + 2]);
                    }
                }
            }
            assert forall|j: int| 0 <= j < keys.len() implies (#[trigger] e[keys[j]]).prev == if j
                > 0 {
                Some(keys[j - 1])
            } else {
                None::<Key>
            } by {
                let oj = if j < i { j } else { j + 1 };
                assert(keys[j] == old_keys[oj]);
                assert(old_keys[oj] != key);
                if j < i {
                    if j > 0 {
                        assert(keys[j - 1] == old_keys[j - 1]);
                    }
                } else if j == i {
                    if i > 0 {
                        assert(keys[j - 1] == old_keys[i - 1]);
                    }
                } else {
                    assert(keys[j - 1] == old_keys[j]);
                }
            }
            assert(e.dom() =~= oe.dom());
        }
    }
}

} // verus!
