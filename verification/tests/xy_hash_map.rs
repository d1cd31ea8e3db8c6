use xynok_std::XyHashMap;
use xynok_std::collection::has_room_for_one_more;

#[test]
fn insert_and_get()
{
    let mut m: XyHashMap<&str, i32> = XyHashMap::new();
    assert!(m.insert("a", 1).is_none());
    assert_eq!(m.get(&"a"), Some(&1));
    assert_eq!(m.len(), 1);
}

#[test]
fn insert_replaces_existing()
{
    let mut m: XyHashMap<&str, i32> = XyHashMap::new();
    m.insert("a", 1);
    assert_eq!(m.insert("a", 2), Some(1));
    assert_eq!(m.get(&"a"), Some(&2));
    assert_eq!(m.len(), 1);
}

#[test]
fn remove()
{
    let mut m: XyHashMap<&str, i32> = XyHashMap::new();
    m.insert("a", 10);
    assert_eq!(m.remove(&"a"), Some(10));
    assert!(m.is_empty());
    assert!(m.get(&"a").is_none());
}

#[test]
fn remove_swap_fixup()
{
    let mut m: XyHashMap<i32, i32> = XyHashMap::new();
    for i in 0..8
    {
        m.insert(i, i * 10);
    }
    m.remove(&0);
    for i in 1..8
    {
        assert_eq!(m.get(&i), Some(&(i * 10)), "key {i} broken after remove");
    }
    assert!(m.get(&0).is_none());
}

#[test]
fn contains_key()
{
    let mut m: XyHashMap<i32, i32> = XyHashMap::new();
    m.insert(1, 100);
    assert!(m.contains_key(&1));
    assert!(!m.contains_key(&2));
}

#[test]
fn entry_or_insert_counter()
{
    let mut m: XyHashMap<&str, u32> = XyHashMap::new();
    *m.entry("hits").or_insert(0) += 1;
    *m.entry("hits").or_insert(0) += 1;
    assert_eq!(*m.get(&"hits").unwrap(), 2);
}

#[test]
fn entry_and_modify()
{
    let mut m: XyHashMap<&str, i32> = XyHashMap::new();
    m.insert("x", 1);
    m.entry("x").and_modify(|v| *v += 9).or_insert(0);
    assert_eq!(*m.get(&"x").unwrap(), 10);
}

#[test]
fn grow_and_rehash()
{
    let mut m: XyHashMap<i32, i32> = XyHashMap::new();
    for i in 0..100
    {
        m.insert(i, i * 2);
    }
    for i in 0..100
    {
        assert_eq!(m.get(&i), Some(&(i * 2)));
    }
    assert_eq!(m.len(), 100);
}

#[test]
fn tombstone_reuse()
{
    let mut m: XyHashMap<i32, i32> = XyHashMap::new();
    for i in 0..10
    {
        m.insert(i, i);
    }
    for i in 0..5
    {
        m.remove(&i);
    }
    for i in 0..5
    {
        m.insert(i, i + 100);
    }
    for i in 0..5
    {
        assert_eq!(m.get(&i), Some(&(i + 100)));
    }
    for i in 5..10
    {
        assert_eq!(m.get(&i), Some(&i));
    }
    assert_eq!(m.len(), 10);
}

#[test]
fn retain()
{
    let mut m: XyHashMap<i32, i32> = XyHashMap::new();
    for i in 0..8
    {
        m.insert(i, i);
    }
    m.retain(|k, _| k % 2 == 0);
    assert_eq!(m.len(), 4);
    for i in (0..8).step_by(2)
    {
        assert!(m.contains_key(&i));
    }
    for i in (1..8).step_by(2)
    {
        assert!(!m.contains_key(&i));
    }
}

#[test]
fn from_iterator()
{
    let m: XyHashMap<_, _> = XyHashMap::from_pairs(vec![("x", 1), ("y", 2)]);
    assert_eq!(m.len(), 2);
    assert_eq!(*m.get(&"x").unwrap(), 1);
    assert_eq!(*m.get(&"y").unwrap(), 2);
}

#[test]
fn keys_values_slices()
{
    let mut m: XyHashMap<i32, i32> = XyHashMap::new();
    m.insert(1, 10);
    m.insert(2, 20);
    assert_eq!(m.keys().len(), 2);
    assert_eq!(m.values().len(), 2);
    assert!(m.keys().contains(&1));
    assert!(m.values().contains(&10));
}

#[test]
fn into_vecs_round_trip()
{
    let mut m: XyHashMap<i32, i32> = XyHashMap::new();
    m.insert(1, 10);
    m.insert(2, 20);
    let (keys, values) = m.into_vecs();
    assert_eq!(keys.len(), 2);
    assert_eq!(values.len(), 2);
    assert!(keys.contains(&1) && keys.contains(&2));
}

#[test]
fn index_operator()
{
    let mut m: XyHashMap<&str, i32> = XyHashMap::new();
    m.insert("k", 42);
    assert_eq!(*m.index(&"k"), 42);
    *m.index_mut(&"k") = 99;
    assert_eq!(*m.index(&"k"), 99);
}

#[test]
fn clear()
{
    let mut m: XyHashMap<i32, i32> = XyHashMap::new();
    for i in 0..20
    {
        m.insert(i, i);
    }
    m.clear();
    assert!(m.is_empty());
    m.insert(42, 1);
    assert_eq!(m.get(&42), Some(&1));
}

#[test]
fn iter_covers_all_entries()
{
    let mut m: XyHashMap<i32, i32> = XyHashMap::new();
    for i in 0..20
    {
        m.insert(i, i * 3);
    }
    let mut sum = 0i32;
    let mut it = m.iter();
    while let Some((_, v)) = it.next()
    {
        sum += v;
    }
    assert_eq!(sum, (0..20i32).map(|i| i * 3).sum());
}

#[test]
fn entry_or_default_counts_words()
{
    let mut m: XyHashMap<&str, u32> = XyHashMap::new();
    for w in ["a", "b", "a", "c", "a"]
    {
        *m.entry(w).or_default() += 1;
    }
    assert_eq!(m.len(), 3);
    assert_eq!(m.get(&"a"), Some(&3));
    assert_eq!(m.get(&"b"), Some(&1));
    assert_eq!(m.get(&"c"), Some(&1));
}

#[test]
fn iter_mut_edits_every_value_in_storage_order()
{
    let mut m: XyHashMap<u32, u32> = XyHashMap::new();
    m.insert(1, 10);
    m.insert(2, 20);
    m.insert(3, 30);
    let mut seen = Vec::new();
    let mut it = m.iter_mut();
    while let Some((k, v)) = it.next()
    {
        seen.push(*k);
        *v += *k;
    }
    assert_eq!(seen, vec![1, 2, 3]);
    assert_eq!(m.get(&1), Some(&11));
    assert_eq!(m.get(&2), Some(&22));
    assert_eq!(m.get(&3), Some(&33));
}

#[test]
fn clone_copies_every_entry()
{
    let mut m: XyHashMap<i32, i32> = XyHashMap::new();
    for i in 0..10
    {
        m.insert(i, i);
    }
    let mut m2 = m.clone();
    assert_eq!(m2.len(), m.len());
    assert_eq!(m2.keys(), m.keys());
    assert_eq!(m2.values(), m.values());
    for i in 0..10
    {
        assert_eq!(m2.get(&i), Some(&i));
    }
    // the copy is independent of the original
    m2.insert(3, 33);
    assert_eq!(m.get(&3), Some(&3));
}

#[test]
fn capacity_grows_only_when_full()
{
    let mut m: XyHashMap<u64, u64> = XyHashMap::new();
    assert_eq!(m.capacity(), 0);
    m.insert(0, 0);
    assert_eq!(m.capacity(), 6);
    for k in 1..6
    {
        m.insert(k, k);
    }
    assert_eq!(m.len(), 6);
    assert_eq!(m.capacity(), 6);
    // an existing key never grows the table
    m.insert(3, 33);
    assert_eq!(m.capacity(), 6);
    m.insert(6, 6);
    assert_eq!(m.capacity(), 12);
}

#[test]
fn clone_and_eq()
{
    let mut m: XyHashMap<i32, i32> = XyHashMap::new();
    for i in 0..10
    {
        m.insert(i, i);
    }
    let m2 = m.clone();
    assert!(m.eq(&m2));
}

#[test]
fn eq_ignores_storage_order_and_compares_values()
{
    let mut a: XyHashMap<&str, i32> = XyHashMap::new();
    let mut b: XyHashMap<&str, i32> = XyHashMap::new();
    a.insert("x", 1);
    a.insert("y", 2);
    b.insert("y", 2);
    b.insert("x", 1);
    assert!(a.eq(&b));
    b.insert("x", 9);
    assert!(!a.eq(&b));
    b.insert("x", 1);
    b.insert("z", 3);
    assert!(!a.eq(&b));
    b.remove(&"z");
    b.remove(&"y");
    b.insert("w", 2);
    assert!(!a.eq(&b));
}

#[test]
fn room_for_one_more_follows_the_table_arithmetic()
{
    assert!(has_room_for_one_more(0));
    assert!(has_room_for_one_more(1000));
    let limit = usize::MAX / 12;
    assert!(has_room_for_one_more(limit.min(u32::MAX as usize - 2) - 1));
    assert!(!has_room_for_one_more(u32::MAX as usize));
    assert!(!has_room_for_one_more(usize::MAX));
}
