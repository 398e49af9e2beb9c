use tarpc::time::wasm::delay_queue::{Data, Key, SlabStorage, Stack};

fn data(inner: &'static str, when: u64) -> Data<&'static str> {
    Data { inner, when, expired: false, next: None, prev: None }
}

#[test]
fn slab_reuses_the_most_recently_freed_slot() {
    let mut store = SlabStorage::with_capacity(4);
    let a = store.insert(data("a", 1));
    let b = store.insert(data("b", 2));
    let c = store.insert(data("c", 3));
    assert_eq!((a, b, c), (Key::new(0), Key::new(1), Key::new(2)));
    assert_eq!(store.remove(&b).inner, "b");
    assert!(!store.contains(&b));
    assert_eq!(store.remove(&a).inner, "a");
    assert_eq!(store.insert(data("d", 4)), Key::new(0));
    assert_eq!(store.insert(data("e", 5)), Key::new(1));
    assert_eq!(store.insert(data("f", 6)), Key::new(3));
    assert_eq!(store.get(Key::new(1)).inner, "e");
    assert!(!store.contains(&Key::new(9)));
}

#[test]
fn stack_pops_in_reverse_push_order() {
    let mut store = SlabStorage::with_capacity(0);
    let keys: Vec<Key> = ["a", "b", "c"].iter().map(|s| store.insert(data(s, 0))).collect();
    let mut stack = Stack::new();
    assert!(stack.is_empty());
    for k in &keys {
        stack.push(*k, &mut store);
    }
    assert_eq!(store.get(keys[2]).next, Some(keys[1]));
    assert_eq!(store.get(keys[1]).prev, Some(keys[2]));
    assert_eq!(stack.pop(&mut store), Some(keys[2]));
    assert_eq!(store.get(keys[2]).next, None);
    assert_eq!(store.get(keys[1]).prev, None);
    assert_eq!(stack.pop(&mut store), Some(keys[1]));
    assert_eq!(stack.pop(&mut store), Some(keys[0]));
    assert_eq!(stack.pop(&mut store), None);
    assert!(stack.is_empty());
}

#[test]
fn stack_remove_links_the_neighbours() {
    let mut store = SlabStorage::with_capacity(0);
    let a = store.insert(data("a", 10));
    let b = store.insert(data("b", 20));
    let c = store.insert(data("c", 30));
    let mut stack = Stack::new();
    stack.push(a, &mut store);
    stack.push(b, &mut store);
    stack.push(c, &mut store);
    stack.remove(&b, &mut store);
    assert_eq!(store.get(c).next, Some(a));
    assert_eq!(store.get(a).prev, Some(c));
    assert_eq!(store.get(b).next, None);
    assert_eq!(store.get(b).prev, None);
    assert_eq!(Stack::when(&b, &store), 20);
    stack.remove(&c, &mut store);
    assert_eq!(stack.pop(&mut store), Some(a));
    assert!(stack.is_empty());
}
