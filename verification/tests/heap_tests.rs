use otp::heap::Heap;

#[test]
fn it_works() {
    let mut heap = Heap::new();
    heap.push(5);
    heap.push(4);
    heap.push(3);
    heap.push(2);
    heap.push(1);

    assert_eq!(heap.pop(), Some(1));
    assert_eq!(heap.pop(), Some(2));
    assert_eq!(heap.pop(), Some(3));
    assert_eq!(heap.pop(), Some(4));
    assert_eq!(heap.pop(), Some(5));
    assert_eq!(heap.pop(), None);
}

#[test]
fn test_heap_empty_pop() {
    let mut heap = Heap::new();
    assert_eq!(heap.pop(), None);
    assert_eq!(heap.pop(), None);
}

#[test]
fn test_heap_duplicates() {
    let mut heap = Heap::new();
    heap.push(3);
    heap.push(1);
    heap.push(3);
    heap.push(1);
    assert_eq!(heap.pop(), Some(1));
    assert_eq!(heap.pop(), Some(1));
    assert_eq!(heap.pop(), Some(3));
    assert_eq!(heap.pop(), Some(3));
    assert_eq!(heap.pop(), None);
}

#[test]
fn test_heap_interleaved() {
    let mut heap = Heap::new();
    heap.push(10);
    heap.push(7);
    assert_eq!(heap.pop(), Some(7));
    heap.push(2);
    heap.push(9);
    assert_eq!(heap.pop(), Some(2));
    assert_eq!(heap.pop(), Some(9));
    assert_eq!(heap.pop(), Some(10));
    assert_eq!(heap.pop(), None);
}

#[test]
fn test_heap_into_vec_keeps_items() {
    let mut heap = Heap::new();
    heap.push(8);
    heap.push(6);
    heap.push(8);
    let mut items = heap.into_vec();
    items.sort();
    assert_eq!(items, vec![6, 8, 8]);
}
