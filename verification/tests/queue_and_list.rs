use xynok_std::{LazyGrowList, Queue};

#[test]
fn queue_is_first_in_first_out()
{
    let mut q: Queue<u32> = Queue::new();
    assert!(q.is_empty());
    q.enqueue(1);
    q.enqueue(2);
    q.enqueue(3);
    assert_eq!(q.len(), 3);
    assert_eq!(q.peek(), Some(&1));
    assert_eq!(q.dequeue(), Some(1));
    assert_eq!(q.dequeue(), Some(2));
    assert_eq!(q.dequeue(), Some(3));
    assert_eq!(q.dequeue(), None);
    assert_eq!(q.peek(), None);
}

#[test]
fn queue_batches_keep_order()
{
    let mut q: Queue<u32> = Queue::with_capacity(4);
    q.enqueue(7);
    q.enqueue_batch(vec![8, 9, 10]);
    let mut out = vec![1];
    assert_eq!(q.dequeue_batch(2, &mut out), 2);
    assert_eq!(out, vec![1, 7, 8]);
    // asking for more than is there takes what is there
    assert_eq!(q.dequeue_batch(10, &mut out), 2);
    assert_eq!(out, vec![1, 7, 8, 9, 10]);
    assert!(q.is_empty());
    assert_eq!(q.dequeue_batch(3, &mut out), 0);
}

#[test]
fn lazy_grow_list_reuses_freed_slots_oldest_first()
{
    let mut l: LazyGrowList<&str> = LazyGrowList::new();
    assert_eq!(l.push("a"), 0);
    assert_eq!(l.push("b"), 1);
    assert_eq!(l.push("c"), 2);
    l.remove(1);
    l.remove(0);
    assert_eq!(l.get(0), None);
    assert_eq!(l.get(1), None);
    assert_eq!(l.get(2), Some(&"c"));
    // slot 1 was freed first, so it is reused first
    assert_eq!(l.push("d"), 1);
    assert_eq!(l.push("e"), 0);
    assert_eq!(l.push("f"), 3);
    assert_eq!(l.get(1), Some(&"d"));
    assert_eq!(l.get(0), Some(&"e"));
    assert_eq!(l.get(9), None);
}

#[test]
fn lazy_grow_list_get_mut_edits_live_items_only()
{
    let mut l: LazyGrowList<u32> = LazyGrowList::new();
    let i = l.push(5);
    *l.get_mut(i).unwrap() += 1;
    assert_eq!(l.get(i), Some(&6));
    l.remove(i);
    assert!(l.get_mut(i).is_none());
    assert!(l.get_mut(100).is_none());
}
