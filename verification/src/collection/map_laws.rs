use vstd::prelude::*;
use vstd::std_specs::cmp::PartialEqSpec;

use super::fx_hash::XyKey;
use super::xy_hash_map::{
    distinct_keys, entries_map, grown_table_len, insert_all, is_pow2, key_index,
    lemma_entries_map_push, lemma_key_index_none, lemma_key_index_of_distinct, XyHashMap,
};

verus! {

/// In a sequence of distinct keys, the last key is fresh among the others.
proof fn lemma_last_is_fresh<K: View>(keys: Seq<K>)
    requires
        distinct_keys(keys),
        keys.len() > 0,
    ensures
        distinct_keys(keys.drop_last()),
        key_index(keys.drop_last(), keys.last()@) is None,
{
    let k0 = keys.drop_last();
    assert forall|i: int| 0 <= i < k0.len() implies k0[i]@ != keys.last()@ by {
        assert(k0[i] == keys[i]);
    }
    lemma_key_index_none(k0, keys.last()@);
}

/// The map of `n` entries with distinct keys has exactly `n` keys.
proof fn lemma_entries_map_dom_len<K: View, V>(keys: Seq<K>, values: Seq<V>)
    requires
        distinct_keys(keys),
        keys.len() == values.len(),
    ensures
        entries_map(keys, values).dom().finite(),
        entries_map(keys, values).dom().len() == keys.len(),
    decreases keys.len(),
{
    if keys.len() == 0 {
        assert(entries_map(keys, values).dom() =~= Set::<K::V>::empty());
    } else {
        let k0 = keys.drop_last();
        let v0 = values.drop_last();
        lemma_last_is_fresh(keys);
        lemma_entries_map_dom_len(k0, v0);
        lemma_entries_map_push(k0, v0, keys.last(), values.last());
        assert(k0.push(keys.last()) == keys);
        assert(v0.push(values.last()) == values);
    }
}

/// Inserting the entries of distinct keys, in order, into the empty map builds their map.
proof fn lemma_insert_all_entries<K: View, V>(keys: Seq<K>, values: Seq<V>)
    requires
        distinct_keys(keys),
        keys.len() == values.len(),
    ensures
        insert_all(
            Map::<K::V, V>::empty(),
            Seq::new(keys.len(), |i: int| (keys[i], values[i])),
        ) == entries_map(keys, values),
    decreases keys.len(),
{
    let pairs = Seq::new(keys.len(), |i: int| (keys[i], values[i]));
    if keys.len() == 0 {
        assert(entries_map(keys, values) =~= Map::<K::V, V>::empty());
    } else {
        let k0 = keys.drop_last();
        let v0 = values.drop_last();
        lemma_last_is_fresh(keys);
        lemma_insert_all_entries(k0, v0);
        assert(pairs.drop_last() =~= Seq::new(k0.len(), |i: int| (k0[i], v0[i])));
        lemma_entries_map_push(k0, v0, keys.last(), values.last());
        assert(k0.push(keys.last()) == keys);
        assert(v0.push(values.last()) == values);
    }
}

/// `len()` counts the keys of the map: it is the size of the map's key set.
pub proof fn law_len_counts_keys<K: XyKey, V>(m: &XyHashMap<K, V>)
    requires
        m.wf(),
    ensures
        m@.dom().finite(),
        m@.dom().len() == m.key_seq().len(),
{
    m.lemma_wf();
    lemma_entries_map_dom_len(m.key_seq(), m.value_seq());
}

/// Building a map from the `(key, value)` pairs that iterating a map yields, or that
/// `into_vecs` hands out, gives back the same map.
pub proof fn law_rebuild_from_entries<K: XyKey, V>(m: &XyHashMap<K, V>)
    requires
        m.wf(),
    ensures
        insert_all(Map::<K::V, V>::empty(), m.entries()) == m@,
{
    m.lemma_wf();
    lemma_insert_all_entries(m.key_seq(), m.value_seq());
    assert(m.entries() == Seq::new(
        m.key_seq().len(),
        |i: int| (m.key_seq()[i], m.value_seq()[i]),
    ));
}

/// A read after `insert(k, v)` gives `v`; every other key reads as before; the key count
/// grows by one exactly when `k` was absent.
pub proof fn law_read_after_insert<K, V>(m: Map<K, V>, k: K, v: V, j: K)
    requires
        m.dom().finite(),
    ensures
        m.insert(k, v).contains_key(k),
        m.insert(k, v)[k] == v,
        j != k ==> m.insert(k, v).contains_key(j) == m.contains_key(j),
        j != k && m.contains_key(j) ==> m.insert(k, v)[j] == m[j],
        m.insert(k, v).dom().len() == (if m.contains_key(k) {
            m.dom().len()
        } else {
            m.dom().len() + 1
        }),
{
    if m.contains_key(k) {
        assert(m.insert(k, v).dom() =~= m.dom());
    }
}

/// After `remove(k)` the key is absent and every other key reads as before; removing a key
/// just inserted fresh gives back the map it was inserted into.
pub proof fn law_read_after_remove<K, V>(m: Map<K, V>, k: K, v: V, j: K)
    ensures
        !m.remove(k).contains_key(k),
        j != k ==> m.remove(k).contains_key(j) == m.contains_key(j),
        j != k && m.contains_key(j) ==> m.remove(k)[j] == m[j],
        !m.contains_key(k) ==> m.insert(k, v).remove(k) == m,
{
    if !m.contains_key(k) {
        assert(m.insert(k, v).remove(k) =~= m);
    }
}

/// The capacity `capacity()` reports for a table of `t` slots.
pub open spec fn capacity_of(t: int) -> int {
    if t == 0 {
        0
    } else {
        t * 3 / 4
    }
}

/// A power of two of at least four is a multiple of four.
proof fn lemma_pow2_mul4(t: int)
    requires
        is_pow2(t),
        t >= 4,
    ensures
        t % 4 == 0,
{
    assert(t % 2 == 0 && is_pow2(t / 2));
    assert((t / 2) % 2 == 0);
}

/// `capacity()` is the number of entries a map holds before its next reallocation: the
/// first new key gives a capacity of 6; afterwards a new key keeps the capacity while the
/// map holds fewer entries than it, and doubles it once the map is full.
pub proof fn law_capacity_after_insert<K: XyKey, V>(m: &XyHashMap<K, V>)
    requires
        m.wf(),
    ensures
        capacity_of(grown_table_len(m.table_len() as int, m.key_seq().len() as int)) == (if m.table_len()
            == 0 {
            6
        } else if m.key_seq().len() < capacity_of(m.table_len() as int) {
            capacity_of(m.table_len() as int)
        } else {
            2 * capacity_of(m.table_len() as int)
        }),
{
    m.lemma_wf();
    let t = m.table_len() as int;
    if t > 0 {
        lemma_pow2_mul4(t);
        let q = t / 4;
        assert(t == 4 * q);
        assert(capacity_of(t) == 3 * q);
        assert(capacity_of(2 * t) == 6 * q);
    }
}

/// The two maps hold the same keys, with values that compare equal under `V`'s `==`.
pub open spec fn same_entries<K, V: PartialEq>(a: Map<K, V>, b: Map<K, V>) -> bool {
    &&& a.dom() == b.dom()
    &&& forall|k: K| #[trigger] a.contains_key(k) ==> a[k].eq_spec(&b[k])
}

impl<K: XyKey, V: PartialEq> XyHashMap<K, V> {
    /// Whether the two maps hold the same keys with equal values, whatever their storage
    /// order (when `V`'s `==` has a spec, exactly `same_entries`).
    pub fn eq(&self, other: &Self) -> (r: bool)
        requires
            self.wf(),
            other.wf(),
        ensures
            V::obeys_eq_spec() ==> (r == same_entries(self@, other@)),
    {
        proof {
            law_len_counts_keys(self);
            law_len_counts_keys(other);
            self.lemma_wf();
        }
        if self.len() != other.len() {
            return false;
        }
        let keys = self.keys();
        let values = self.values();
        let n = keys.len();
        let mut i: usize = 0;
        while i < n
            invariant
                n == keys@.len(),
                keys@ == self.key_seq(),
                values@ == self.value_seq(),
                self.wf(),
                other.wf(),
                distinct_keys(self.key_seq()),
                self.key_seq().len() == self.value_seq().len(),
                i <= n,
                forall|j: int|
                    #![trigger keys@[j]]
                    0 <= j < i ==> {
                        &&& other@.contains_key(keys@[j]@)
                        &&& (V::obeys_eq_spec() ==> values@[j].eq_spec(&other@[keys@[j]@]))
                    },
            decreases n - i,
        {
            proof {
                lemma_key_index_of_distinct(self.key_seq(), i as int);
            }
            match other.get(&keys[i]) {
                None => {
                    assert(self@.contains_key(keys@[i as int]@));
                    return false;
                },
                Some(v) => {
                    let same = values[i] == *v;
                    assert(*v == other@[keys@[i as int]@]);
                    if !same {
                        assert(self@.contains_key(keys@[i as int]@));
                        assert(self@[keys@[i as int]@] == values@[i as int]);
                        return false;
                    }
                },
            }
            i = i + 1;
        }
        proof {
            assert forall|k: K::V| self@.contains_key(k) implies other@.contains_key(k) by {
                let j = key_index(self.key_seq(), k)->0;
                assert(keys@[j]@ == k);
            }
            assert forall|k: K::V|
                #[trigger] self@.contains_key(k) && V::obeys_eq_spec() implies self@[k].eq_spec(
                &other@[k],
            ) by {
                let j = key_index(self.key_seq(), k)->0;
                assert(keys@[j]@ == k);
                lemma_key_index_of_distinct(self.key_seq(), j);
            }
            assert(self@.dom() =~= other@.dom()) by {
                if !(self@.dom() =~= other@.dom()) {
                    let e = choose|e: K::V| other@.dom().contains(e) && !self@.dom().contains(e);
                    self@.dom().lemma_subset_not_in_lt(other@.dom(), e);
                }
            }
        }
        true
    }
}

} // verus!
