use vstd::prelude::*;

use super::fx_hash::XyKey;
use super::slot_table::{
    count_val, empty_table, home, home_pos, lemma_count_exists, lemma_count_uniform,
    lemma_count_update, next_pos, probe_clear, probe_dist, wrap_add, EMPTY, TOMBSTONE,
};

verus! {

/// Smallest table the map allocates.
pub const INIT_CAP: usize = 8;

/// `x` is a power of two.
pub open spec fn is_pow2(x: int) -> bool
    decreases x,
{
    if x <= 0 {
        false
    } else if x == 1 {
        true
    } else {
        x % 2 == 0 && is_pow2(x / 2)
    }
}

/// Fewest slots that keep `n` entries at or below a load factor of 75%, and at least `INIT_CAP`.
pub open spec fn min_table_len(n: int) -> int {
    let raw = (n * 4 + 2) / 3;
    if raw < INIT_CAP {
        INIT_CAP as int
    } else {
        raw
    }
}

/// Entries of a map whose keys have pairwise different views.
pub open spec fn distinct_keys<K: View>(keys: Seq<K>) -> bool {
    forall|i: int, j: int|
        0 <= i < keys.len() && 0 <= j < keys.len() && i != j ==> keys[i]@ != keys[j]@
}

/// Index of the entry whose key has view `k`, if there is one.
pub open spec fn key_index<K: View>(keys: Seq<K>, k: K::V) -> Option<int> {
    if exists|i: int| 0 <= i < keys.len() && keys[i]@ == k {
        Some(choose|i: int| 0 <= i < keys.len() && keys[i]@ == k)
    } else {
        None
    }
}

/// The elements of `s` whose flag in `keep` is set, in their order.
pub open spec fn filter_by<T>(s: Seq<T>, keep: Seq<bool>) -> Seq<T>
    decreases s.len(),
{
    if s.len() == 0 || keep.len() == 0 {
        Seq::empty()
    } else {
        let r = filter_by(s.drop_last(), keep.drop_last());
        if keep.last() {
            r.push(s.last())
        } else {
            r
        }
    }
}

pub proof fn lemma_filter_by_len<T>(s: Seq<T>, keep: Seq<bool>)
    ensures
        filter_by(s, keep).len() <= s.len(),
    decreases s.len(),
{
    if s.len() > 0 && keep.len() > 0 {
        lemma_filter_by_len(s.drop_last(), keep.drop_last());
    }
}

/// `s` with its element `i` replaced by its last element, and the last dropped.
pub open spec fn swap_removed<T>(s: Seq<T>, i: int) -> Seq<T> {
    s.update(i, s.last()).drop_last()
}

/// The finite map that a sequence of keys and a parallel sequence of values stand for.
pub open spec fn entries_map<K: View, V>(keys: Seq<K>, values: Seq<V>) -> Map<K::V, V> {
    Map::new(|k: K::V| key_index(keys, k) is Some, |k: K::V| values[key_index(keys, k)->0])
}

/// Appending an entry with a fresh key adds that key to the map.
pub proof fn lemma_entries_map_push<K: View, V>(keys: Seq<K>, values: Seq<V>, key: K, value: V)
    requires
        distinct_keys(keys),
        keys.len() == values.len(),
        key_index(keys, key@) is None,
    ensures
        entries_map(keys.push(key), values.push(value)) == entries_map(keys, values).insert(
            key@,
            value,
        ),
{
    let k2 = keys.push(key);
    let v2 = values.push(value);
    assert(distinct_keys(k2)) by {
        assert forall|a: int, b: int| 0 <= a < k2.len() && 0 <= b < k2.len() && a != b implies k2[a]@
            != k2[b]@ by {
            if a < keys.len() && b < keys.len() {
            } else if a < keys.len() {
                assert(k2[a] == keys[a]);
            } else {
                assert(k2[b] == keys[b]);
            }
        }
    }
    lemma_key_index_of_distinct(k2, keys.len() as int);
    assert forall|k: K::V| #[trigger] key_index(k2, k) is Some == (k == key@ || key_index(keys, k) is Some) by {
        if key_index(keys, k) is Some {
            let i = key_index(keys, k)->0;
            assert(k2[i] == keys[i]);
        }
        if key_index(k2, k) is Some {
            let i = key_index(k2, k)->0;
            if i < keys.len() {
                assert(k2[i] == keys[i]);
            }
        }
    }
    assert forall|k: K::V| key_index(keys, k) is Some implies #[trigger] key_index(k2, k) == key_index(keys, k) by {
        let i = key_index(keys, k)->0;
        assert(k2[i] == keys[i]);
        lemma_key_index_of_distinct(k2, i);
    }
    assert(entries_map(k2, v2) =~= entries_map(keys, values).insert(key@, value));
}

/// Overwriting the value of entry `i` overwrites the value of its key.
pub proof fn lemma_entries_map_update<K: View, V>(keys: Seq<K>, values: Seq<V>, i: int, value: V)
    requires
        distinct_keys(keys),
        keys.len() == values.len(),
        0 <= i < keys.len(),
    ensures
        entries_map(keys, values.update(i, value)) == entries_map(keys, values).insert(
            keys[i]@,
            value,
        ),
{
    lemma_key_index_of_distinct(keys, i);
    assert(entries_map(keys, values.update(i, value)) =~= entries_map(keys, values).insert(
        keys[i]@,
        value,
    ));
}

/// Swap-removing entry `i` removes its key from the map.
pub proof fn lemma_entries_map_swap_remove<K: View, V>(keys: Seq<K>, values: Seq<V>, i: int)
    requires
        distinct_keys(keys),
        keys.len() == values.len(),
        0 <= i < keys.len(),
    ensures
        distinct_keys(swap_removed(keys, i)),
        entries_map(swap_removed(keys, i), swap_removed(values, i)) == entries_map(
            keys,
            values,
        ).remove(keys[i]@),
{
    let n = keys.len() - 1;
    let k2 = swap_removed(keys, i);
    let v2 = swap_removed(values, i);
    let src = |a: int| if a == i { n } else { a };
    assert forall|a: int| 0 <= a < k2.len() implies #[trigger] k2[a] == keys[src(a)] && v2[a]
        == values[src(a)] by {}
    assert(distinct_keys(k2)) by {
        assert forall|a: int, b: int| 0 <= a < k2.len() && 0 <= b < k2.len() && a != b implies k2[a]@
            != k2[b]@ by {
            assert(k2[a] == keys[src(a)]);
            assert(k2[b] == keys[src(b)]);
        }
    }
    assert forall|k: K::V| #[trigger] key_index(k2, k) is Some == (k != keys[i]@ && key_index(keys, k) is Some) by {
        if key_index(k2, k) is Some {
            let a = key_index(k2, k)->0;
            assert(k2[a] == keys[src(a)]);
            assert(src(a) != i);
        }
        if k != keys[i]@ && key_index(keys, k) is Some {
            let j = key_index(keys, k)->0;
            assert(j != i);
            if j == n {
                assert(k2[i] == keys[n]);
            } else {
                assert(k2[j] == keys[j]);
            }
        }
    }
    assert forall|k: K::V| key_index(k2, k) is Some implies values[key_index(keys, k)->0] == #[trigger] v2[key_index(k2, k)->0] by {
        let a = key_index(k2, k)->0;
        assert(k2[a] == keys[src(a)]);
        lemma_key_index_of_distinct(keys, src(a));
    }
    assert(entries_map(k2, v2) =~= entries_map(keys, values).remove(keys[i]@));
}

/// The map obtained by inserting `pairs` one after another into `m`.
pub open spec fn insert_all<K: View, V>(m: Map<K::V, V>, pairs: Seq<(K, V)>) -> Map<K::V, V>
    decreases pairs.len(),
{
    if pairs.len() == 0 {
        m
    } else {
        insert_all(m, pairs.drop_last()).insert(pairs.last().0@, pairs.last().1)
    }
}

/// Table length after the growth step that precedes inserting a new key into a map of
/// `len` entries and a table of `t` slots.
pub open spec fn grown_table_len(t: int, len: int) -> int {
    if t == 0 {
        INIT_CAP as int
    } else if (len + 1) * 4 > t * 3 {
        t * 2
    } else {
        t
    }
}

/// A map can take one more entry: slot indices stay below `TOMBSTONE` and table sizes fit
/// in `usize`.
pub open spec fn room_for_one_more(len: int) -> bool {
    len + 1 <= TOMBSTONE as int && (len + 1) * 12 <= usize::MAX as int
}

/// Whether a map of `len` entries can take one more.
pub fn has_room_for_one_more(len: usize) -> (r: bool)
    ensures
        r == room_for_one_more(len as int),
{
    len < TOMBSTONE as usize && len < usize::MAX / 12
}

pub proof fn lemma_key_index_of_distinct<K: View>(keys: Seq<K>, i: int)
    requires
        distinct_keys(keys),
        0 <= i < keys.len(),
    ensures
        key_index(keys, keys[i]@) == Some(i),
{
}

pub proof fn lemma_key_index_none<K: View>(keys: Seq<K>, k: K::V)
    requires
        forall|i: int| 0 <= i < keys.len() ==> keys[i]@ != k,
    ensures
        key_index(keys, k) is None,
{
}

/// Open-addressing hash map that keeps its keys and values in two contiguous vectors.
///
/// The table holds, per slot, `EMPTY`, `TOMBSTONE` or the index of an entry in `keys` /
/// `values`; lookups probe linearly from the key's home slot.
pub struct XyHashMap<K, V> {
    keys: Vec<K>,
    values: Vec<V>,
    table: Vec<u32>,
    len: usize,
    dead: usize,
    locs: Ghost<Seq<int>>,
}

impl<K, V> XyHashMap<K, V> {
    /// The keys, in storage order.
    pub closed spec fn key_seq(&self) -> Seq<K> {
        self.keys@
    }

    /// The values, parallel to `key_seq`.
    pub closed spec fn value_seq(&self) -> Seq<V> {
        self.values@
    }

    /// Number of slots of the hash table.
    pub closed spec fn table_len(&self) -> nat {
        self.table@.len()
    }
}

impl<K: View, V> View for XyHashMap<K, V> {
    type V = Map<K::V, V>;

    open spec fn view(&self) -> Map<K::V, V> {
        entries_map(self.key_seq(), self.value_seq())
    }
}

impl<K: XyKey, V> XyHashMap<K, V> {
    spec fn home_of(&self, i: int) -> int {
        home_pos(K::hash_of(self.keys@[i]@), self.table@.len() as int)
    }

    /// Well-formedness, except that entry `moved` (when below `len`) may still be
    /// recorded in its slot under the index `len`.
    spec fn inv(&self, moved: int) -> bool {
        let t = self.table@.len() as int;
        &&& self.keys@.len() == self.len
        &&& self.values@.len() == self.len
        &&& self.locs@.len() == self.len
        &&& distinct_keys(self.keys@)
        &&& self.len <= TOMBSTONE
        &&& (moved < self.len ==> self.len < TOMBSTONE)
        &&& self.len * 12 <= usize::MAX
        &&& t * 4 <= usize::MAX
        &&& 0 <= moved <= self.len
        &&& (t == 0 ==> self.len == 0 && self.dead == 0)
        &&& (t > 0 ==> is_pow2(t) && t >= INIT_CAP)
        &&& self.len * 4 <= t * 3
        &&& (t > 0 ==> {
            &&& self.len + self.dead < t
            &&& count_val(self.table@, EMPTY) + self.len + self.dead == t
            &&& count_val(self.table@, TOMBSTONE) == self.dead
            &&& forall|i: int|
                0 <= i < self.len ==> {
                    &&& 0 <= #[trigger] self.locs@[i] < t
                    &&& self.table@[self.locs@[i]] == (if i == moved {
                        self.len as u32
                    } else {
                        i as u32
                    })
                    &&& probe_clear(self.table@, self.home_of(i), self.locs@[i])
                }
            &&& forall|p: int|
                0 <= p < t && #[trigger] self.table@[p] < TOMBSTONE ==> {
                    if moved < self.len && p == self.locs@[moved] {
                        self.table@[p] == self.len
                    } else {
                        &&& self.table@[p] < self.len
                        &&& self.locs@[self.table@[p] as int] == p
                    }
                }
        })
    }

    /// The map's internal invariant.
    pub closed spec fn wf(&self) -> bool {
        self.inv(self.len as int)
    }

    pub proof fn lemma_wf(&self)
        requires
            self.wf(),
        ensures
            distinct_keys(self.key_seq()),
            self.key_seq().len() == self.value_seq().len(),
            self.key_seq().len() <= TOMBSTONE,
            self.key_seq().len() * 12 <= usize::MAX,
            self.table_len() * 4 <= usize::MAX,
            self.table_len() == 0 ==> self.key_seq().len() == 0,
            self.table_len() > 0 ==> self.key_seq().len() < self.table_len(),
            self.key_seq().len() * 4 <= self.table_len() * 3,
            self.table_len() > 0 ==> is_pow2(self.table_len() as int) && self.table_len() >= INIT_CAP,
    {
    }

    /// An empty map; its table is allocated on the first insertion.
    pub fn new() -> (m: Self)
        ensures
            m.wf(),
            m.key_seq() == Seq::<K>::empty(),
            m.value_seq() == Seq::<V>::empty(),
            m.table_len() == 0,
            m@ == Map::<K::V, V>::empty(),
    {
        let m = XyHashMap {
            keys: Vec::new(),
            values: Vec::new(),
            table: Vec::new(),
            len: 0,
            dead: 0,
            locs: Ghost(Seq::empty()),
        };
        assert(m@ =~= Map::<K::V, V>::empty());
        m
    }

    /// An empty map whose table already keeps `n` entries at or below 75% load.
    pub fn with_capacity(n: usize) -> (m: Self)
        requires
            n * 12 <= usize::MAX,
        ensures
            m.wf(),
            m.key_seq() == Seq::<K>::empty(),
            m.value_seq() == Seq::<V>::empty(),
            is_pow2(m.table_len() as int),
            min_table_len(n as int) <= m.table_len() < 2 * min_table_len(n as int),
            m@ == Map::<K::V, V>::empty(),
    {
        let table_size = table_size_for(n);
        let table = empty_table(table_size);
        proof {
            lemma_count_uniform(table_size as nat, EMPTY, EMPTY);
            lemma_count_uniform(table_size as nat, EMPTY, TOMBSTONE);
        }
        let m = XyHashMap {
            keys: Vec::with_capacity(n),
            values: Vec::with_capacity(n),
            table,
            len: 0,
            dead: 0,
            locs: Ghost(Seq::empty()),
        };
        assert(m@ =~= Map::<K::V, V>::empty());
        m
    }

    /// Number of entries.
    pub fn len(&self) -> (r: usize)
        requires
            self.wf(),
        ensures
            r == self.key_seq().len(),
    {
        self.len
    }

    pub fn is_empty(&self) -> (r: bool)
        requires
            self.wf(),
        ensures
            r == (self.key_seq().len() == 0),
    {
        self.len == 0
    }

    /// Number of entries the table holds at 75% load: 0 before the first allocation.
    pub fn capacity(&self) -> (r: usize)
        requires
            self.wf(),
        ensures
            r == (if self.table_len() == 0 {
                0
            } else {
                self.table_len() * 3 / 4
            }),
    {
        if self.table.len() == 0 {
            return 0;
        }
        self.table.len() * 3 / 4
    }

    /// Removes every entry; the table keeps its size, all slots `EMPTY`.
    pub fn clear(&mut self)
        requires
            old(self).wf(),
        ensures
            final(self).wf(),
            final(self).key_seq() == Seq::<K>::empty(),
            final(self).value_seq() == Seq::<V>::empty(),
            final(self).table_len() == old(self).table_len(),
            final(self)@ == Map::<K::V, V>::empty(),
    {
        self.keys.clear();
        self.values.clear();
        let t = self.table.len();
        assert(t * 4 <= usize::MAX);
        let mut i: usize = 0;
        while i < t
            invariant
                t == self.table@.len(),
                t * 4 <= usize::MAX,
                i <= t,
                self.keys@.len() == 0,
                self.values@.len() == 0,
                forall|j: int| 0 <= j < i ==> self.table@[j] == EMPTY,
            decreases t - i,
        {
            self.table.set(i, EMPTY);
            i = i + 1;
        }
        assert(self.table@ =~= Seq::new(t as nat, |j: int| EMPTY));
        proof {
            lemma_count_uniform(t as nat, EMPTY, EMPTY);
            lemma_count_uniform(t as nat, EMPTY, TOMBSTONE);
        }
        self.len = 0;
        self.dead = 0;
        self.locs = Ghost(Seq::empty());
        assert(self@ =~= Map::<K::V, V>::empty());
    }

    /// Finds the slot and entry index of `key`, probing from the home slot of `hash`.
    fn slot_of(&self, hash: u64, key: &K) -> (r: Option<(usize, usize)>)
        requires
            self.wf(),
            hash == K::hash_of(key@),
        ensures
            match r {
                Some((p, i)) => {
                    &&& i < self.len
                    &&& p < self.table@.len()
                    &&& self.locs@[i as int] == p
                    &&& self.keys@[i as int]@ == key@
                },
                None => forall|i: int| 0 <= i < self.keys@.len() ==> self.keys@[i]@ != key@,
            },
    {
        let t = self.table.len();
        if t == 0 {
            return None;
        }
        let h = home(hash, t);
        let mut pos = h;
        proof {
            lemma_count_exists(self.table@, EMPTY);
        }
        let ghost e: int = choose|e: int| 0 <= e < t && self.table@[e] == EMPTY;
        let ghost de: int = probe_dist(h as int, e, t as int);
        let ghost mut s: int = 0;
        assert(wrap_add(h as int, de, t as int) == e);
        loop
            invariant
                self.wf(),
                t == self.table@.len(),
                t > 0,
                hash == K::hash_of(key@),
                h == home_pos(hash, t as int),
                h < t,
                0 <= s <= de,
                de < t,
                self.table@[wrap_add(h as int, de, t as int)] == EMPTY,
                pos == wrap_add(h as int, s, t as int),
                forall|j: int|
                    0 <= j < s ==> {
                        let v = #[trigger] self.table@[wrap_add(h as int, j, t as int)];
                        v != EMPTY && (v != TOMBSTONE ==> self.keys@[v as int]@ != key@)
                    },
            decreases de - s,
        {
            let slot = self.table[pos];
            if slot == EMPTY {
                proof {
                    assert forall|i: int| 0 <= i < self.keys@.len() implies self.keys@[i]@
                        != key@ by {
                        if self.keys@[i]@ == key@ {
                            let p = self.locs@[i];
                            let d = probe_dist(h as int, p, t as int);
                            assert(self.home_of(i) == h);
                            assert(wrap_add(h as int, d, t as int) == p);
                            if d < s {
                                let v = self.table@[wrap_add(h as int, d, t as int)];
                                assert(v == i);
                            } else if d > s {
                                assert(self.table@[wrap_add(h as int, s, t as int)] != EMPTY);
                            }
                        }
                    }
                }
                return None;
            }
            if slot != TOMBSTONE {
                let idx = slot as usize;
                if self.keys[idx].key_eq(key) {
                    return Some((pos, idx));
                }
            }
            pos = next_pos(pos, t);
            proof {
                s = s + 1;
            }
        }
    }
}

/// Keeping every non-`EMPTY` slot non-`EMPTY` keeps every probe path clear.
proof fn lemma_probe_clear_mono(a: Seq<u32>, b: Seq<u32>, h: int, p: int)
    requires
        a.len() == b.len(),
        probe_clear(a, h, p),
        forall|q: int| 0 <= q < a.len() && a[q] != EMPTY ==> b[q] != EMPTY,
        0 <= h < a.len(),
        0 <= p < a.len(),
    ensures
        probe_clear(b, h, p),
{
    let t = a.len() as int;
    assert forall|j: int| 0 <= j < probe_dist(h, p, t) implies #[trigger] b[wrap_add(h, j, t)]
        != EMPTY by {
        assert(a[wrap_add(h, j, t)] != EMPTY);
    }
}

/// First `EMPTY` slot on the probe path from `h`.
fn probe_empty(table: &Vec<u32>, h: usize) -> (p: usize)
    requires
        count_val(table@, EMPTY) > 0,
        h < table@.len(),
    ensures
        p < table@.len(),
        table@[p as int] == EMPTY,
        probe_clear(table@, h as int, p as int),
{
    let t = table.len();
    proof {
        lemma_count_exists(table@, EMPTY);
    }
    let ghost e: int = choose|e: int| 0 <= e < t && table@[e] == EMPTY;
    let ghost de: int = probe_dist(h as int, e, t as int);
    let ghost mut s: int = 0;
    assert(wrap_add(h as int, de, t as int) == e);
    let mut pos = h;
    loop
        invariant
            t == table@.len(),
            h < t,
            0 <= s <= de,
            de < t,
            table@[wrap_add(h as int, de, t as int)] == EMPTY,
            pos == wrap_add(h as int, s, t as int),
            forall|j: int| 0 <= j < s ==> #[trigger] table@[wrap_add(h as int, j, t as int)] != EMPTY,
        decreases de - s,
    {
        if table[pos] == EMPTY {
            return pos;
        }
        pos = next_pos(pos, t);
        proof {
            s = s + 1;
        }
    }
}

/// Sets every slot of `table` to `EMPTY`.
fn fill_empty(table: &mut Vec<u32>)
    ensures
        final(table)@ == Seq::new(old(table)@.len(), |i: int| EMPTY),
{
    let t = table.len();
    let mut i: usize = 0;
    while i < t
        invariant
            t == table@.len(),
            i <= t,
            forall|j: int| 0 <= j < i ==> table@[j] == EMPTY,
        decreases t - i,
    {
        table.set(i, EMPTY);
        i = i + 1;
    }
    assert(table@ =~= Seq::new(t as nat, |j: int| EMPTY));
}

/// Replaces `v[i]` by `x`, returning the element it held.
fn replace_at<T>(v: &mut Vec<T>, i: usize, x: T) -> (r: T)
    requires
        i < old(v)@.len(),
    ensures
        r == old(v)@[i as int],
        final(v)@ == old(v)@.update(i as int, x),
{
    v.push(x);
    let r = v.swap_remove(i);
    assert(final(v)@ =~= old(v)@.update(i as int, x));
    r
}

impl<K: XyKey, V> XyHashMap<K, V> {
    /// First tombstone, else the first `EMPTY` slot, on the probe path of `hash`.
    fn vacant_slot(&self, hash: u64) -> (r: usize)
        requires
            self.wf(),
            self.table@.len() > 0,
        ensures
            r < self.table@.len(),
            self.table@[r as int] == EMPTY || self.table@[r as int] == TOMBSTONE,
            probe_clear(self.table@, home_pos(hash, self.table@.len() as int), r as int),
    {
        let t = self.table.len();
        let h = home(hash, t);
        proof {
            lemma_count_exists(self.table@, EMPTY);
        }
        let ghost e: int = choose|e: int| 0 <= e < t && self.table@[e] == EMPTY;
        let ghost de: int = probe_dist(h as int, e, t as int);
        let ghost mut s: int = 0;
        assert(wrap_add(h as int, de, t as int) == e);
        let mut pos = h;
        let mut first_tomb: Option<usize> = None;
        loop
            invariant
                t == self.table@.len(),
                h < t,
                h == home_pos(hash, t as int),
                0 <= s <= de,
                de < t,
                self.table@[wrap_add(h as int, de, t as int)] == EMPTY,
                pos == wrap_add(h as int, s, t as int),
                forall|j: int|
                    0 <= j < s ==> #[trigger] self.table@[wrap_add(h as int, j, t as int)] != EMPTY,
                match first_tomb {
                    Some(q) => q < t && self.table@[q as int] == TOMBSTONE && probe_dist(
                        h as int,
                        q as int,
                        t as int,
                    ) < s,
                    None => true,
                },
            decreases de - s,
        {
            let slot = self.table[pos];
            if slot == EMPTY {
                return match first_tomb {
                    Some(q) => q,
                    None => pos,
                };
            }
            if slot == TOMBSTONE && first_tomb.is_none() {
                first_tomb = Some(pos);
            }
            pos = next_pos(pos, t);
            proof {
                s = s + 1;
            }
        }
    }

    /// Rebuilds the table with `new_size` slots from the entries; no tombstone remains.
    fn rehash(&mut self, new_size: usize)
        requires
            old(self).keys@.len() == old(self).len,
            old(self).values@.len() == old(self).len,
            distinct_keys(old(self).keys@),
            old(self).len <= TOMBSTONE,
            old(self).len * 12 <= usize::MAX,
            is_pow2(new_size as int),
            INIT_CAP <= new_size,
            old(self).len < new_size,
            old(self).len * 4 <= new_size * 3,
            new_size * 4 <= usize::MAX,
        ensures
            final(self).wf(),
            final(self).keys == old(self).keys,
            final(self).values == old(self).values,
            final(self).len == old(self).len,
            final(self).dead == 0,
            final(self).table@.len() == new_size,
    {
        if self.table.len() != new_size {
            self.table = empty_table(new_size);
        } else {
            fill_empty(&mut self.table);
        }
        proof {
            lemma_count_uniform(new_size as nat, EMPTY, EMPTY);
            lemma_count_uniform(new_size as nat, EMPTY, TOMBSTONE);
        }
        self.dead = 0;
        self.locs = Ghost(Seq::empty());
        let t = new_size;
        let n = self.keys.len();
        let mut i: usize = 0;
        while i < n
            invariant
                n == self.len,
                self.keys@.len() == n,
                self.values@.len() == n,
                self.keys == old(self).keys,
                self.values == old(self).values,
                self.len == old(self).len,
                self.dead == 0,
                distinct_keys(self.keys@),
                n < t,
                n * 4 <= t * 3,
                t == self.table@.len(),
                n <= TOMBSTONE,
                i <= n,
                self.locs@.len() == i,
                count_val(self.table@, EMPTY) + i == t,
                count_val(self.table@, TOMBSTONE) == 0,
                forall|k: int|
                    0 <= k < i ==> {
                        &&& 0 <= #[trigger] self.locs@[k] < t
                        &&& self.table@[self.locs@[k]] == k as u32
                        &&& probe_clear(self.table@, self.home_of(k), self.locs@[k])
                    },
                forall|p: int|
                    0 <= p < t && #[trigger] self.table@[p] < TOMBSTONE ==> {
                        &&& self.table@[p] < i
                        &&& self.locs@[self.table@[p] as int] == p
                    },
            decreases n - i,
        {
            let hash = self.keys[i].fx_hash();
            let h = home(hash, t);
            let pos = probe_empty(&self.table, h);
            let ghost before = self.table@;
            self.table.set(pos, i as u32);
            proof {
                lemma_count_update(before, pos as int, i as u32, EMPTY);
                lemma_count_update(before, pos as int, i as u32, TOMBSTONE);
                self.locs@ = self.locs@.push(pos as int);
                assert forall|k: int| 0 <= k < i + 1 implies {
                    &&& 0 <= #[trigger] self.locs@[k] < t
                    &&& self.table@[self.locs@[k]] == k as u32
                    &&& probe_clear(self.table@, self.home_of(k), self.locs@[k])
                } by {
                    lemma_probe_clear_mono(before, self.table@, self.home_of(k), self.locs@[k]);
                }
            }
            i = i + 1;
        }
    }

    /// Makes room for one more entry: allocates the first table, doubles it past 75% load,
    /// or clears tombstones at the same size.
    fn try_grow(&mut self)
        requires
            old(self).wf(),
            room_for_one_more(old(self).len as int),
        ensures
            final(self).wf(),
            final(self).keys == old(self).keys,
            final(self).values == old(self).values,
            final(self).len == old(self).len,
            final(self).table@.len() == grown_table_len(
                old(self).table@.len() as int,
                old(self).len as int,
            ),
            final(self).len + final(self).dead + 1 < final(self).table@.len(),
            (final(self).len + final(self).dead + 1) * 4 <= final(self).table@.len() * 3,
    {
        if self.table.len() == 0 {
            assert(is_pow2(INIT_CAP as int)) by {
                assert(is_pow2(1));
                assert(is_pow2(2));
                assert(is_pow2(4));
            }
            self.table = empty_table(INIT_CAP);
            proof {
                lemma_count_uniform(INIT_CAP as nat, EMPTY, EMPTY);
                lemma_count_uniform(INIT_CAP as nat, EMPTY, TOMBSTONE);
            }
            return;
        }
        let t = self.table.len();
        if (self.len + 1) * 4 > t * 3 {
            assert(is_pow2((t * 2) as int)) by {
                assert((t * 2) as int / 2 == t as int);
            }
            self.rehash(t * 2);
        } else if (self.len + self.dead + 1) * 4 > t * 3 {
            self.rehash(t);
        }
    }

    /// Adds `key` (absent from the map) with `value` at the end of the entries; returns
    /// its entry index.
    fn insert_new(&mut self, hash: u64, key: K, value: V) -> (idx: usize)
        requires
            old(self).wf(),
            room_for_one_more(old(self).len as int),
            hash == K::hash_of(key@),
            forall|i: int| 0 <= i < old(self).keys@.len() ==> old(self).keys@[i]@ != key@,
        ensures
            final(self).wf(),
            idx == old(self).len,
            final(self).keys@ == old(self).keys@.push(key),
            final(self).values@ == old(self).values@.push(value),
            final(self).table@.len() == grown_table_len(
                old(self).table@.len() as int,
                old(self).len as int,
            ),
    {
        self.try_grow();
        let slot = self.vacant_slot(hash);
        self.fill_slot(slot, key, value)
    }

    /// Slot of entry `i` in the table.
    pub closed spec fn entry_slot(&self, i: int) -> int {
        self.locs@[i]
    }

    /// Slot `slot` may take a new entry whose key has view `k`.
    pub closed spec fn vacant_for(&self, k: K::V, slot: int) -> bool {
        &&& 0 <= slot < self.table@.len()
        &&& (self.table@[slot] == EMPTY || self.table@[slot] == TOMBSTONE)
        &&& probe_clear(self.table@, home_pos(K::hash_of(k), self.table@.len() as int), slot)
        &&& self.len + self.dead + 1 < self.table@.len()
        &&& (self.len + 1) * 4 <= self.table@.len() * 3
        &&& room_for_one_more(self.len as int)
        &&& forall|i: int| 0 <= i < self.keys@.len() ==> self.keys@[i]@ != k
    }

    /// Stores a new entry `(key, value)` in the vacant slot `slot`; returns its entry index.
    fn fill_slot(&mut self, slot: usize, key: K, value: V) -> (idx: usize)
        requires
            old(self).wf(),
            old(self).vacant_for(key@, slot as int),
        ensures
            final(self).wf(),
            idx == old(self).len,
            final(self).keys@ == old(self).keys@.push(key),
            final(self).values@ == old(self).values@.push(value),
            final(self).table@.len() == old(self).table@.len(),
    {
        let data_idx = self.keys.len();
        let ghost before = self.table@;
        let ghost old_keys = self.keys@;
        proof {
            lemma_count_update(before, slot as int, data_idx as u32, TOMBSTONE);
        }
        if self.table[slot] == TOMBSTONE {
            self.dead = self.dead - 1;
        }
        self.table.set(slot, data_idx as u32);
        self.keys.push(key);
        self.values.push(value);
        self.len = self.len + 1;
        proof {
            let t = self.table@.len() as int;
            lemma_count_update(before, slot as int, data_idx as u32, EMPTY);
            lemma_count_update(before, slot as int, data_idx as u32, TOMBSTONE);
            self.locs@ = self.locs@.push(slot as int);
            assert forall|i: int| 0 <= i < self.len implies {
                &&& 0 <= #[trigger] self.locs@[i] < t
                &&& self.table@[self.locs@[i]] == (if i == self.len {
                    self.len as u32
                } else {
                    i as u32
                })
                &&& probe_clear(self.table@, self.home_of(i), self.locs@[i])
            } by {
                if i < data_idx {
                    assert(self.keys@[i] == old_keys[i]);
                    lemma_probe_clear_mono(before, self.table@, self.home_of(i), self.locs@[i]);
                } else {
                    lemma_probe_clear_mono(before, self.table@, self.home_of(i), self.locs@[i]);
                }
            }
            assert(distinct_keys(self.keys@)) by {
                assert forall|a: int, b: int|
                    0 <= a < self.keys@.len() && 0 <= b < self.keys@.len() && a != b implies
                    self.keys@[a]@ != self.keys@[b]@ by {
                    if a < data_idx && b < data_idx {
                        assert(self.keys@[a] == old_keys[a]);
                        assert(self.keys@[b] == old_keys[b]);
                    }
                }
            }
        }
        data_idx
    }

    /// Redirects the slot of the entry moved to `removed_idx` by a swap-removal, which
    /// still records it under its former index `len`.
    fn swap_remove_fixup(&mut self, removed_idx: usize)
        requires
            old(self).inv(removed_idx as int),
        ensures
            final(self).wf(),
            final(self).keys == old(self).keys,
            final(self).values == old(self).values,
            final(self).len == old(self).len,
            final(self).table@.len() == old(self).table@.len(),
    {
        let old_last = self.keys.len();
        if removed_idx == old_last {
            return;
        }
        let hash = self.keys[removed_idx].fx_hash();
        let t = self.table.len();
        let h = home(hash, t);
        let ghost target: int = self.locs@[removed_idx as int];
        let ghost d: int = probe_dist(h as int, target, t as int);
        let ghost mut s: int = 0;
        assert(wrap_add(h as int, d, t as int) == target);
        let mut pos = h;
        loop
            invariant
                self.inv(removed_idx as int),
                self.keys == old(self).keys,
                self.values == old(self).values,
                self.len == old(self).len,
                self.dead == old(self).dead,
                self.locs == old(self).locs,
                self.table == old(self).table,
                old_last == self.len,
                removed_idx < old_last,
                t == self.table@.len(),
                t > 0,
                h < t,
                target == self.locs@[removed_idx as int],
                0 <= target < t,
                0 <= s <= d,
                d < t,
                wrap_add(h as int, d, t as int) == target,
                pos == wrap_add(h as int, s, t as int),
            decreases d - s,
        {
            let slot = self.table[pos];
            if slot == old_last as u32 {
                let ghost before = self.table@;
                self.table.set(pos, removed_idx as u32);
                proof {
                    assert(pos == target);
                    lemma_count_update(before, pos as int, removed_idx as u32, EMPTY);
                    lemma_count_update(before, pos as int, removed_idx as u32, TOMBSTONE);
                    assert forall|i: int| 0 <= i < self.len implies {
                        &&& 0 <= #[trigger] self.locs@[i] < t
                        &&& self.table@[self.locs@[i]] == (if i == self.len {
                            self.len as u32
                        } else {
                            i as u32
                        })
                        &&& probe_clear(self.table@, self.home_of(i), self.locs@[i])
                    } by {
                        lemma_probe_clear_mono(
                            before,
                            self.table@,
                            self.home_of(i),
                            self.locs@[i],
                        );
                    }
                }
                return;
            }
            proof {
                if s == d {
                    assert(self.table@[target] == self.len);
                }
            }
            pos = next_pos(pos, t);
            proof {
                s = s + 1;
            }
        }
    }

    /// Removes entry `idx`, whose slot is `slot`: tombstones the slot and swap-removes
    /// the entry.
    fn remove_at(&mut self, slot: usize, idx: usize) -> (r: (K, V))
        requires
            old(self).wf(),
            idx < old(self).len,
            slot == old(self).locs@[idx as int],
        ensures
            final(self).wf(),
            final(self).keys@ == swap_removed(old(self).keys@, idx as int),
            final(self).values@ == swap_removed(old(self).values@, idx as int),
            r.0 == old(self).keys@[idx as int],
            r.1 == old(self).values@[idx as int],
            final(self).table@.len() == old(self).table@.len(),
    {
        let ghost before = self.table@;
        let ghost old_keys = self.keys@;
        let ghost old_locs = self.locs@;
        let ghost n = self.len as int;
        self.table.set(slot, TOMBSTONE);
        self.dead = self.dead + 1;
        self.len = self.len - 1;
        let k = self.keys.swap_remove(idx);
        let v = self.values.swap_remove(idx);
        proof {
            let t = self.table@.len() as int;
            lemma_count_update(before, slot as int, TOMBSTONE, EMPTY);
            lemma_count_update(before, slot as int, TOMBSTONE, TOMBSTONE);
            self.locs@ = swap_removed(old_locs, idx as int);
            assert(self.keys@ == swap_removed(old_keys, idx as int));
            assert forall|i: int| 0 <= i < self.len implies {
                &&& 0 <= #[trigger] self.locs@[i] < t
                &&& self.table@[self.locs@[i]] == (if i == idx {
                    self.len as u32
                } else {
                    i as u32
                })
                &&& probe_clear(self.table@, self.home_of(i), self.locs@[i])
            } by {
                if i == idx {
                    assert(self.keys@[i] == old_keys[n - 1]);
                    assert(self.locs@[i] == old_locs[n - 1]);
                    lemma_probe_clear_mono(before, self.table@, self.home_of(i), self.locs@[i]);
                } else {
                    assert(self.keys@[i] == old_keys[i]);
                    assert(self.locs@[i] == old_locs[i]);
                    lemma_probe_clear_mono(before, self.table@, self.home_of(i), self.locs@[i]);
                }
            }
            assert forall|p: int| 0 <= p < t && #[trigger] self.table@[p] < TOMBSTONE implies {
                if idx < self.len && p == self.locs@[idx as int] {
                    self.table@[p] == self.len
                } else {
                    &&& self.table@[p] < self.len
                    &&& self.locs@[self.table@[p] as int] == p
                }
            } by {
                assert(p != slot);
                assert(before[p] == self.table@[p]);
                let v = before[p] as int;
                assert(old_locs[v] == p);
                if v == n - 1 {
                    if idx < self.len {
                        assert(self.locs@[idx as int] == old_locs[n - 1]);
                    }
                } else {
                    assert(v != idx);
                    assert(self.locs@[v] == old_locs[v]);
                }
            }
            assert(distinct_keys(self.keys@)) by {
                assert forall|a: int, b: int|
                    0 <= a < self.keys@.len() && 0 <= b < self.keys@.len() && a != b implies
                    self.keys@[a]@ != self.keys@[b]@ by {
                    let oa = if a == idx {
                        n - 1
                    } else {
                        a
                    };
                    let ob = if b == idx {
                        n - 1
                    } else {
                        b
                    };
                    assert(self.keys@[a] == old_keys[oa]);
                    assert(self.keys@[b] == old_keys[ob]);
                }
            }
        }
        self.swap_remove_fixup(idx);
        (k, v)
    }
}

impl<K: XyKey, V> XyHashMap<K, V> {
    /// Whether some entry has a key equal to `key`.
    pub fn contains_key(&self, key: &K) -> (r: bool)
        requires
            self.wf(),
        ensures
            r == (key_index(self.key_seq(), key@) is Some),
            r == self@.contains_key(key@),
    {
        match self.slot_of(key.fx_hash(), key) {
            Some((_, idx)) => {
                proof {
                    lemma_key_index_of_distinct(self.keys@, idx as int);
                }
                true
            },
            None => false,
        }
    }

    /// The value of the entry whose key equals `key`, if any.
    pub fn get(&self, key: &K) -> (r: Option<&V>)
        requires
            self.wf(),
        ensures
            r == (match key_index(self.key_seq(), key@) {
                Some(i) => Some(&self.value_seq()[i]),
                None => None,
            }),
            r == (if self@.contains_key(key@) {
                Some(&self@[key@])
            } else {
                None
            }),
    {
        match self.slot_of(key.fx_hash(), key) {
            Some((_, idx)) => {
                proof {
                    lemma_key_index_of_distinct(self.keys@, idx as int);
                }
                Some(&self.values[idx])
            },
            None => None,
        }
    }

    /// Mutable access to the value of the entry whose key equals `key`, if any.
    pub fn get_mut(&mut self, key: &K) -> (r: Option<&mut V>)
        requires
            old(self).wf(),
        ensures
            final(self).wf(),
            final(self).key_seq() == old(self).key_seq(),
            final(self).table_len() == old(self).table_len(),
            match key_index(old(self).key_seq(), key@) {
                Some(i) => {
                    &&& r is Some
                    &&& *r.unwrap() == old(self).value_seq()[i]
                    &&& final(self).value_seq() == old(self).value_seq().update(
                        i,
                        *final(r.unwrap()),
                    )
                },
                None => r is None && final(self).value_seq() == old(self).value_seq(),
            },
    {
        match self.slot_of(key.fx_hash(), key) {
            Some((_, idx)) => {
                proof {
                    lemma_key_index_of_distinct(self.keys@, idx as int);
                }
                Some(&mut self.values[idx])
            },
            None => None,
        }
    }

    /// The value of `key`, which must be in the map.
    pub fn index(&self, key: &K) -> (r: &V)
        requires
            self.wf(),
            self@.contains_key(key@),
        ensures
            *r == self@[key@],
    {
        self.get(key).unwrap()
    }

    /// Mutable access to the value of `key`, which must be in the map; the map's other
    /// entries stay as they are.
    pub fn index_mut(&mut self, key: &K) -> (r: &mut V)
        requires
            old(self).wf(),
            old(self)@.contains_key(key@),
        ensures
            *r == old(self)@[key@],
            final(self).wf(),
            final(self)@ == old(self)@.insert(key@, *final(r)),
            final(self).key_seq() == old(self).key_seq(),
            final(self).table_len() == old(self).table_len(),
    {
        let ghost i = key_index(self.key_seq(), key@)->0;
        proof {
            self.lemma_wf();
        }
        let r = self.get_mut(key).unwrap();
        proof {
            lemma_entries_map_update(old(self).key_seq(), old(self).value_seq(), i, *final(r));
        }
        r
    }

    /// Inserts `(key, value)`: replaces the value of an entry with an equal key and
    /// returns the old value, or appends a new entry and returns `None`.
    pub fn insert(&mut self, key: K, value: V) -> (r: Option<V>)
        requires
            old(self).wf(),
            !old(self)@.contains_key(key@) ==> room_for_one_more(old(self).key_seq().len() as int),
        ensures
            final(self).wf(),
            final(self)@ == old(self)@.insert(key@, value),
            r == (if old(self)@.contains_key(key@) {
                Some(old(self)@[key@])
            } else {
                None
            }),
            match key_index(old(self).key_seq(), key@) {
                Some(i) => {
                    &&& r == Some(old(self).value_seq()[i])
                    &&& final(self).key_seq() == old(self).key_seq()
                    &&& final(self).value_seq() == old(self).value_seq().update(i, value)
                    &&& final(self).table_len() == old(self).table_len()
                },
                None => {
                    &&& r is None
                    &&& final(self).key_seq() == old(self).key_seq().push(key)
                    &&& final(self).value_seq() == old(self).value_seq().push(value)
                    &&& final(self).table_len() == grown_table_len(
                        old(self).table_len() as int,
                        old(self).key_seq().len() as int,
                    )
                },
            },
    {
        let hash = key.fx_hash();
        match self.slot_of(hash, &key) {
            Some((_, idx)) => {
                proof {
                    lemma_key_index_of_distinct(self.keys@, idx as int);
                }
                proof {
                    lemma_entries_map_update(self.keys@, self.values@, idx as int, value);
                }
                let old_v = replace_at(&mut self.values, idx, value);
                Some(old_v)
            },
            None => {
                proof {
                    lemma_key_index_none(self.keys@, key@);
                    lemma_entries_map_push(self.keys@, self.values@, key, value);
                }
                self.insert_new(hash, key, value);
                None
            },
        }
    }

    /// Removes the entry whose key equals `key` and returns its value; the last entry
    /// takes the removed one's place.
    pub fn remove(&mut self, key: &K) -> (r: Option<V>)
        requires
            old(self).wf(),
        ensures
            final(self).wf(),
            final(self)@ == old(self)@.remove(key@),
            r == (if old(self)@.contains_key(key@) {
                Some(old(self)@[key@])
            } else {
                None
            }),
            final(self).table_len() == old(self).table_len(),
            match key_index(old(self).key_seq(), key@) {
                Some(i) => {
                    &&& r == Some(old(self).value_seq()[i])
                    &&& final(self).key_seq() == swap_removed(old(self).key_seq(), i)
                    &&& final(self).value_seq() == swap_removed(old(self).value_seq(), i)
                },
                None => {
                    &&& r is None
                    &&& final(self).key_seq() == old(self).key_seq()
                    &&& final(self).value_seq() == old(self).value_seq()
                },
            },
    {
        match self.slot_of(key.fx_hash(), key) {
            Some((slot, idx)) => {
                proof {
                    lemma_key_index_of_distinct(self.keys@, idx as int);
                }
                proof {
                    lemma_entries_map_swap_remove(self.keys@, self.values@, idx as int);
                }
                let (_, v) = self.remove_at(slot, idx);
                Some(v)
            },
            None => {
                proof {
                    lemma_key_index_none(self.keys@, key@);
                    assert(self@ =~= self@.remove(key@));
                }
                None
            },
        }
    }

    /// Removes the entry whose key equals `key` and returns it.
    pub fn remove_entry(&mut self, key: &K) -> (r: Option<(K, V)>)
        requires
            old(self).wf(),
        ensures
            final(self).wf(),
            final(self)@ == old(self)@.remove(key@),
            final(self).table_len() == old(self).table_len(),
            match key_index(old(self).key_seq(), key@) {
                Some(i) => {
                    &&& r == Some((old(self).key_seq()[i], old(self).value_seq()[i]))
                    &&& final(self).key_seq() == swap_removed(old(self).key_seq(), i)
                    &&& final(self).value_seq() == swap_removed(old(self).value_seq(), i)
                },
                None => {
                    &&& r is None
                    &&& final(self).key_seq() == old(self).key_seq()
                    &&& final(self).value_seq() == old(self).value_seq()
                },
            },
    {
        match self.slot_of(key.fx_hash(), key) {
            Some((slot, idx)) => {
                proof {
                    lemma_key_index_of_distinct(self.keys@, idx as int);
                }
                proof {
                    lemma_entries_map_swap_remove(self.keys@, self.values@, idx as int);
                }
                let e = self.remove_at(slot, idx);
                Some(e)
            },
            None => {
                proof {
                    lemma_key_index_none(self.keys@, key@);
                    assert(self@ =~= self@.remove(key@));
                }
                None
            },
        }
    }

    /// Mutable access to the value of `key`, inserting `default` first if `key` is absent.
    pub fn get_or_insert(&mut self, key: K, default: V) -> (r: &mut V)
        requires
            old(self).wf(),
            !old(self)@.contains_key(key@) ==> room_for_one_more(old(self).key_seq().len() as int),
        ensures
            final(self).wf(),
            match key_index(old(self).key_seq(), key@) {
                Some(i) => {
                    &&& *r == old(self).value_seq()[i]
                    &&& final(self).key_seq() == old(self).key_seq()
                    &&& final(self).value_seq() == old(self).value_seq().update(i, *final(r))
                    &&& final(self).table_len() == old(self).table_len()
                },
                None => {
                    &&& *r == default
                    &&& final(self).key_seq() == old(self).key_seq().push(key)
                    &&& final(self).value_seq() == old(self).value_seq().push(*final(r))
                    &&& final(self).table_len() == grown_table_len(
                        old(self).table_len() as int,
                        old(self).key_seq().len() as int,
                    )
                },
            },
    {
        let hash = key.fx_hash();
        match self.slot_of(hash, &key) {
            Some((_, idx)) => {
                proof {
                    lemma_key_index_of_distinct(self.keys@, idx as int);
                }
                &mut self.values[idx]
            },
            None => {
                proof {
                    lemma_key_index_none(self.keys@, key@);
                }
                let idx = self.insert_new(hash, key, default);
                &mut self.values[idx]
            },
        }
    }

    /// All keys, in storage order.
    pub fn keys(&self) -> (r: &[K])
        ensures
            r@ == self.key_seq(),
    {
        self.keys.as_slice()
    }

    /// All values, parallel to `keys()`.
    pub fn values(&self) -> (r: &[V])
        ensures
            r@ == self.value_seq(),
    {
        self.values.as_slice()
    }

    /// The two backing vectors, as `(keys, values)`.
    pub fn into_vecs(self) -> (r: (Vec<K>, Vec<V>))
        ensures
            r.0@ == self.key_seq(),
            r.1@ == self.value_seq(),
    {
        (self.keys, self.values)
    }
}

impl<K: XyKey, V> XyHashMap<K, V> {
    /// Mutable access to all values, parallel to `keys()`.
    pub fn values_mut(&mut self) -> (r: &mut [V])
        requires
            old(self).wf(),
        ensures
            r@ == old(self).value_seq(),
            final(self).value_seq() == final(r)@,
            final(self).key_seq() == old(self).key_seq(),
            final(self).table_len() == old(self).table_len(),
    {
        self.values.as_mut_slice()
    }

    /// Iterates over `(&key, &mut value)` in storage order; the values left in the map are
    /// those the iterator's pairs hold when the borrow ends.
    pub fn iter_mut(&mut self) -> (it: IterMut<'_, K, V>)
        requires
            old(self).wf(),
        ensures
            it.wf(),
            it.rest_keys() == old(self).key_seq(),
            it.rest_values() == old(self).value_seq(),
            final(self).key_seq() == old(self).key_seq(),
            final(self).value_seq() == final(it.values)@,
            final(self).table_len() == old(self).table_len(),
    {
        IterMut { keys: self.keys.as_slice(), values: self.values.as_mut_slice() }
    }

    /// Mutable access to the value of `key`, inserting `f()` first if `key` is absent.
    pub fn get_or_insert_with<F: FnOnce() -> V>(&mut self, key: K, f: F) -> (r: &mut V)
        requires
            old(self).wf(),
            !old(self)@.contains_key(key@) ==> room_for_one_more(old(self).key_seq().len() as int),
            call_requires(f, ()),
        ensures
            final(self).wf(),
            match key_index(old(self).key_seq(), key@) {
                Some(i) => {
                    &&& *r == old(self).value_seq()[i]
                    &&& final(self).key_seq() == old(self).key_seq()
                    &&& final(self).value_seq() == old(self).value_seq().update(i, *final(r))
                    &&& final(self).table_len() == old(self).table_len()
                },
                None => {
                    &&& call_ensures(f, (), *r)
                    &&& final(self).key_seq() == old(self).key_seq().push(key)
                    &&& final(self).value_seq() == old(self).value_seq().push(*final(r))
                    &&& final(self).table_len() == grown_table_len(
                        old(self).table_len() as int,
                        old(self).key_seq().len() as int,
                    )
                },
            },
    {
        let hash = key.fx_hash();
        match self.slot_of(hash, &key) {
            Some((_, idx)) => {
                proof {
                    lemma_key_index_of_distinct(self.keys@, idx as int);
                }
                &mut self.values[idx]
            },
            None => {
                proof {
                    lemma_key_index_none(self.keys@, key@);
                }
                let v = f();
                let idx = self.insert_new(hash, key, v);
                &mut self.values[idx]
            },
        }
    }

    /// The entry of `key`: occupied if an entry has an equal key, else vacant. Before a
    /// vacant entry is handed out the table makes room for one more entry.
    pub fn entry(&mut self, key: K) -> (e: Entry<'_, K, V>)
        requires
            old(self).wf(),
            !old(self)@.contains_key(key@) ==> room_for_one_more(old(self).key_seq().len() as int),
        ensures
            e.wf(),
            match e {
                Entry::Occupied(o) => {
                    &&& key_index(old(self).key_seq(), key@) == Some(o.data_idx as int)
                    &&& *o.map == *old(self)
                    &&& *final(o.map) == *final(self)
                },
                Entry::Vacant(v) => {
                    &&& key_index(old(self).key_seq(), key@) is None
                    &&& v.key == key
                    &&& v.map.key_seq() == old(self).key_seq()
                    &&& v.map.value_seq() == old(self).value_seq()
                    &&& v.map.table_len() == grown_table_len(
                        old(self).table_len() as int,
                        old(self).key_seq().len() as int,
                    )
                    &&& *final(v.map) == *final(self)
                },
            },
    {
        let hash = key.fx_hash();
        match self.slot_of(hash, &key) {
            Some((slot_pos, data_idx)) => {
                proof {
                    lemma_key_index_of_distinct(self.keys@, data_idx as int);
                }
                Entry::Occupied(OccupiedEntry { map: self, slot_pos, data_idx })
            },
            None => {
                proof {
                    lemma_key_index_none(self.keys@, key@);
                }
                self.try_grow();
                let slot_pos = self.vacant_slot(hash);
                Entry::Vacant(VacantEntry { map: self, key, slot_pos })
            },
        }
    }
}

/// A view into one entry of an `XyHashMap`, occupied or vacant.
pub enum Entry<'a, K, V> {
    Occupied(OccupiedEntry<'a, K, V>),
    Vacant(VacantEntry<'a, K, V>),
}

/// An entry whose key is in the map: entry `data_idx`, stored in slot `slot_pos`.
pub struct OccupiedEntry<'a, K, V> {
    pub map: &'a mut XyHashMap<K, V>,
    pub slot_pos: usize,
    pub data_idx: usize,
}

/// An entry whose key is absent, with the slot that will take it.
pub struct VacantEntry<'a, K, V> {
    pub map: &'a mut XyHashMap<K, V>,
    pub key: K,
    pub slot_pos: usize,
}

impl<'a, K: XyKey, V> OccupiedEntry<'a, K, V> {
    pub open spec fn wf(&self) -> bool {
        &&& self.map.wf()
        &&& self.data_idx < self.map.key_seq().len()
        &&& self.map.entry_slot(self.data_idx as int) == self.slot_pos
    }

    pub fn key(&self) -> (r: &K)
        requires
            self.wf(),
        ensures
            *r == old(self.map).key_seq()[self.data_idx as int],
    {
        &self.map.keys[self.data_idx]
    }

    pub fn get(&self) -> (r: &V)
        requires
            self.wf(),
        ensures
            *r == old(self.map).value_seq()[self.data_idx as int],
    {
        &self.map.values[self.data_idx]
    }

    pub fn get_mut(&mut self) -> (r: &mut V)
        requires
            old(self).wf(),
        ensures
            *r == old(self).map.value_seq()[old(self).data_idx as int],
            final(self).data_idx == old(self).data_idx,
            final(self).slot_pos == old(self).slot_pos,
            final(self).map.key_seq() == old(self).map.key_seq(),
            final(self).map.table_len() == old(self).map.table_len(),
            final(self).map.value_seq() == old(self).map.value_seq().update(
                old(self).data_idx as int,
                *final(r),
            ),
            final(self).wf(),
            *final(final(self).map) == *final(old(self).map),
    {
        &mut self.map.values[self.data_idx]
    }

    /// Turns the entry into a mutable reference to its value, for the map's lifetime.
    pub fn into_mut(self) -> (r: &'a mut V)
        requires
            self.wf(),
        ensures
            *r == old(self.map).value_seq()[self.data_idx as int],
            final(self.map).wf(),
            final(self.map).key_seq() == old(self.map).key_seq(),
            final(self.map).table_len() == old(self.map).table_len(),
            final(self.map).value_seq() == old(self.map).value_seq().update(
                self.data_idx as int,
                *final(r),
            ),
    {
        &mut self.map.values[self.data_idx]
    }

    /// Replaces the entry's value, returning the old one.
    pub fn insert(&mut self, value: V) -> (r: V)
        requires
            old(self).wf(),
        ensures
            r == old(self).map.value_seq()[old(self).data_idx as int],
            final(self).wf(),
            final(self).data_idx == old(self).data_idx,
            final(self).slot_pos == old(self).slot_pos,
            final(self).map.key_seq() == old(self).map.key_seq(),
            final(self).map.table_len() == old(self).map.table_len(),
            final(self).map.value_seq() == old(self).map.value_seq().update(
                old(self).data_idx as int,
                value,
            ),
            *final(final(self).map) == *final(old(self).map),
    {
        replace_at(&mut self.map.values, self.data_idx, value)
    }

    /// Removes the entry from the map and returns its value.
    pub fn remove(self) -> (r: V)
        requires
            self.wf(),
        ensures
            r == old(self.map).value_seq()[self.data_idx as int],
            final(self.map).wf(),
            final(self.map).key_seq() == swap_removed(
                old(self.map).key_seq(),
                self.data_idx as int,
            ),
            final(self.map).value_seq() == swap_removed(
                old(self.map).value_seq(),
                self.data_idx as int,
            ),
            final(self.map).table_len() == old(self.map).table_len(),
    {
        let (_, v) = self.map.remove_at(self.slot_pos, self.data_idx);
        v
    }
}

impl<'a, K: XyKey, V> VacantEntry<'a, K, V> {
    pub open spec fn wf(&self) -> bool {
        &&& self.map.wf()
        &&& self.map.vacant_for(self.key@, self.slot_pos as int)
    }

    pub fn key(&self) -> (r: &K)
        ensures
            *r == self.key,
    {
        &self.key
    }

    pub fn into_key(self) -> (r: K)
        ensures
            r == self.key,
    {
        self.key
    }

    /// Stores `value` under the entry's key and returns a mutable reference to it.
    pub fn insert(self, value: V) -> (r: &'a mut V)
        requires
            self.wf(),
        ensures
            *r == value,
            final(self.map).wf(),
            final(self.map).key_seq() == old(self.map).key_seq().push(self.key),
            final(self.map).value_seq() == old(self.map).value_seq().push(*final(r)),
            final(self.map).table_len() == old(self.map).table_len(),
    {
        let VacantEntry { map, key, slot_pos } = self;
        let data_idx = map.fill_slot(slot_pos, key, value);
        &mut map.values[data_idx]
    }
}

impl<'a, K: XyKey, V> Entry<'a, K, V> {
    pub open spec fn wf(&self) -> bool {
        match self {
            Entry::Occupied(o) => o.wf(),
            Entry::Vacant(v) => v.wf(),
        }
    }

    /// The value of an occupied entry, or `default` stored into a vacant one.
    pub fn or_insert(self, default: V) -> (r: &'a mut V)
        requires
            self.wf(),
        ensures
            (match self {
                Entry::Occupied(_) => {
                    &&& *r == old(self->Occupied_0.map).value_seq()[self->Occupied_0.data_idx as int]
                    &&& final(self->Occupied_0.map).wf()
                    &&& final(self->Occupied_0.map).key_seq() == old(self->Occupied_0.map).key_seq()
                    &&& final(self->Occupied_0.map).value_seq() == old(self->Occupied_0.map).value_seq().update(
                        self->Occupied_0.data_idx as int,
                        *final(r),
                    )
                    &&& final(self->Occupied_0.map).table_len() == old(self->Occupied_0.map).table_len()
                },
                Entry::Vacant(_) => {
                    &&& *r == default
                    &&& final(self->Vacant_0.map).wf()
                    &&& final(self->Vacant_0.map).key_seq() == old(self->Vacant_0.map).key_seq().push(self->Vacant_0.key)
                    &&& final(self->Vacant_0.map).value_seq() == old(self->Vacant_0.map).value_seq().push(*final(r))
                    &&& final(self->Vacant_0.map).table_len() == old(self->Vacant_0.map).table_len()
                },
            }),
    {
        match self {
            Entry::Occupied(e) => e.into_mut(),
            Entry::Vacant(e) => e.insert(default),
        }
    }

    /// The value of an occupied entry, or `f()` stored into a vacant one.
    pub fn or_insert_with<F: FnOnce() -> V>(self, f: F) -> (r: &'a mut V)
        requires
            self.wf(),
            self is Vacant ==> call_requires(f, ()),
        ensures
            (match self {
                Entry::Occupied(_) => {
                    &&& *r == old(self->Occupied_0.map).value_seq()[self->Occupied_0.data_idx as int]
                    &&& final(self->Occupied_0.map).wf()
                    &&& final(self->Occupied_0.map).key_seq() == old(self->Occupied_0.map).key_seq()
                    &&& final(self->Occupied_0.map).value_seq() == old(self->Occupied_0.map).value_seq().update(
                        self->Occupied_0.data_idx as int,
                        *final(r),
                    )
                    &&& final(self->Occupied_0.map).table_len() == old(self->Occupied_0.map).table_len()
                },
                Entry::Vacant(_) => {
                    &&& call_ensures(f, (), *r)
                    &&& final(self->Vacant_0.map).wf()
                    &&& final(self->Vacant_0.map).key_seq() == old(self->Vacant_0.map).key_seq().push(self->Vacant_0.key)
                    &&& final(self->Vacant_0.map).value_seq() == old(self->Vacant_0.map).value_seq().push(*final(r))
                    &&& final(self->Vacant_0.map).table_len() == old(self->Vacant_0.map).table_len()
                },
            }),
    {
        match self {
            Entry::Occupied(e) => e.into_mut(),
            Entry::Vacant(e) => e.insert(f()),
        }
    }

    /// Runs `f` on the value of an occupied entry; leaves a vacant entry as it is.
    pub fn and_modify<F: FnOnce(&mut V)>(self, f: F) -> (r: Self)
        requires
            self.wf(),
            forall|p: &mut V| call_requires(f, (p,)),
        ensures
            r.wf(),
            self is Occupied ==> {
                &&& r is Occupied
                &&& r->Occupied_0.data_idx == self->Occupied_0.data_idx
                &&& r->Occupied_0.slot_pos == self->Occupied_0.slot_pos
                &&& r->Occupied_0.map.key_seq() == old(self->Occupied_0.map).key_seq()
                &&& r->Occupied_0.map.table_len() == old(self->Occupied_0.map).table_len()
                &&& r->Occupied_0.map.value_seq().len() == old(
                    self->Occupied_0.map,
                ).value_seq().len()
                &&& forall|i: int|
                    0 <= i < r->Occupied_0.map.value_seq().len() && i
                        != self->Occupied_0.data_idx ==> r->Occupied_0.map.value_seq()[i] == old(
                        self->Occupied_0.map,
                    ).value_seq()[i]
                &&& exists|q: &mut V|
                    *q == old(self->Occupied_0.map).value_seq()[self->Occupied_0.data_idx as int]
                        && *final(q) == r->Occupied_0.map.value_seq()[self->Occupied_0.data_idx as int]
                        && call_ensures(f, (q,), ())
                &&& *final(r->Occupied_0.map) == *final(self->Occupied_0.map)
            },
            self is Vacant ==> {
                &&& r is Vacant
                &&& r->Vacant_0.key == self->Vacant_0.key
                &&& r->Vacant_0.slot_pos == self->Vacant_0.slot_pos
                &&& *r->Vacant_0.map == *old(self->Vacant_0.map)
                &&& *final(r->Vacant_0.map) == *final(self->Vacant_0.map)
            },
    {
        match self {
            Entry::Occupied(mut e) => {
                f(e.get_mut());
                Entry::Occupied(e)
            },
            Entry::Vacant(e) => Entry::Vacant(e),
        }
    }

    /// The entry's key.
    pub fn key(&self) -> (r: &K)
        requires
            self.wf(),
        ensures
            self is Occupied ==> *r == old(self->Occupied_0.map).key_seq()[self->Occupied_0.data_idx as int],
            self is Vacant ==> *r == self->Vacant_0.key,
    {
        match self {
            Entry::Occupied(e) => e.key(),
            Entry::Vacant(e) => e.key(),
        }
    }
}

impl<'a, K: XyKey, V: Default> Entry<'a, K, V> {
    /// The value of an occupied entry, or `V::default()` stored into a vacant one.
    pub fn or_default(self) -> (r: &'a mut V)
        requires
            self.wf(),
        ensures
            (match self {
                Entry::Occupied(_) => {
                    &&& *r == old(self->Occupied_0.map).value_seq()[self->Occupied_0.data_idx as int]
                    &&& final(self->Occupied_0.map).wf()
                    &&& final(self->Occupied_0.map).key_seq() == old(self->Occupied_0.map).key_seq()
                    &&& final(self->Occupied_0.map).value_seq() == old(self->Occupied_0.map).value_seq().update(
                        self->Occupied_0.data_idx as int,
                        *final(r),
                    )
                    &&& final(self->Occupied_0.map).table_len() == old(self->Occupied_0.map).table_len()
                },
                Entry::Vacant(_) => {
                    &&& call_ensures(<V as Default>::default, (), *r)
                    &&& final(self->Vacant_0.map).wf()
                    &&& final(self->Vacant_0.map).key_seq() == old(self->Vacant_0.map).key_seq().push(self->Vacant_0.key)
                    &&& final(self->Vacant_0.map).value_seq() == old(self->Vacant_0.map).value_seq().push(*final(r))
                    &&& final(self->Vacant_0.map).table_len() == old(self->Vacant_0.map).table_len()
                },
            }),
    {
        match self {
            Entry::Occupied(e) => e.into_mut(),
            Entry::Vacant(e) => e.insert(V::default()),
        }
    }
}

impl<K: XyKey, V> XyHashMap<K, V> {
    /// Keeps the entries for which `f` returns `true`, in their order, and rebuilds the
    /// table at the size `with_capacity` picks for what remains.
    pub fn retain<F: Fn(&K, &V) -> bool>(&mut self, f: F)
        requires
            old(self).wf(),
            forall|i: int|
                0 <= i < old(self).key_seq().len() ==> call_requires(
                    f,
                    (&old(self).key_seq()[i], &old(self).value_seq()[i]),
                ),
        ensures
            final(self).wf(),
            exists|keep: Seq<bool>|
                {
                    &&& keep.len() == old(self).key_seq().len()
                    &&& forall|i: int|
                        0 <= i < keep.len() ==> call_ensures(
                            f,
                            (&old(self).key_seq()[i], &old(self).value_seq()[i]),
                            #[trigger] keep[i],
                        )
                    &&& final(self).key_seq() == filter_by(old(self).key_seq(), keep)
                    &&& final(self).value_seq() == filter_by(old(self).value_seq(), keep)
                },
            is_pow2(final(self).table_len() as int),
            min_table_len(final(self).key_seq().len() as int) <= final(self).table_len() < 2
                * min_table_len(final(self).key_seq().len() as int),
    {
        let ghost ok = self.keys@;
        let ghost ov = self.values@;
        let n = self.keys.len();
        let mut ks: Vec<K> = Vec::new();
        core::mem::swap(&mut ks, &mut self.keys);
        let mut vs: Vec<V> = Vec::new();
        core::mem::swap(&mut vs, &mut self.values);
        let mut rk: Vec<K> = Vec::new();
        let mut rv: Vec<V> = Vec::new();
        assert forall|i: int| 0 <= i < n implies call_requires(f, (&ok[i], &ov[i])) by {
            assert(ok[i] == old(self).key_seq()[i]);
            assert(ov[i] == old(self).value_seq()[i]);
        }
        while ks.len() > 0
            invariant
                ks@.len() == vs@.len(),
                ks@.len() <= n,
                n == ok.len(),
                n == ov.len(),
                ks@ == ok.take(ks@.len() as int),
                vs@ == ov.take(vs@.len() as int),
                rk@ == ok.skip(ks@.len() as int).reverse(),
                rv@ == ov.skip(vs@.len() as int).reverse(),
                distinct_keys(ok),
                forall|i: int| 0 <= i < n ==> call_requires(f, (&ok[i], &ov[i])),
            decreases ks@.len(),
        {
            let ghost m = ks@.len() as int;
            let k = ks.pop().unwrap();
            let v = vs.pop().unwrap();
            rk.push(k);
            rv.push(v);
            assert(ks@ =~= ok.take(m - 1));
            assert(vs@ =~= ov.take(m - 1));
            assert(rk@ =~= ok.skip(m - 1).reverse());
            assert(rv@ =~= ov.skip(m - 1).reverse());
        }
        let ghost mut keep: Seq<bool> = Seq::empty();
        let ghost mut src: Seq<int> = Seq::empty();
        let mut j: usize = 0;
        while j < n
            invariant
                n == ok.len(),
                n == ov.len(),
                j <= n,
                distinct_keys(ok),
                rk@ == ok.skip(j as int).reverse(),
                rv@ == ov.skip(j as int).reverse(),
                keep.len() == j,
                forall|i: int| 0 <= i < n ==> call_requires(f, (&ok[i], &ov[i])),
                forall|i: int|
                    0 <= i < j ==> call_ensures(f, (&ok[i], &ov[i]), #[trigger] keep[i]),
                self.keys@ == filter_by(ok.take(j as int), keep),
                self.values@ == filter_by(ov.take(j as int), keep),
                self.keys@.len() == src.len(),
                self.values@.len() == src.len(),
                src.len() <= j,
                forall|a: int|
                    0 <= a < src.len() ==> {
                        &&& 0 <= #[trigger] src[a] < j
                        &&& self.keys@[a] == ok[src[a]]
                        &&& self.values@[a] == ov[src[a]]
                    },
                distinct_keys(self.keys@),
            decreases n - j,
        {
            assert(rk@.last() == ok[j as int]);
            assert(rv@.last() == ov[j as int]);
            let k = rk.pop().unwrap();
            let v = rv.pop().unwrap();
            let b = f(&k, &v);
            let ghost old_keep = keep;
            let ghost old_keys = self.keys@;
            proof {
                keep = keep.push(b);
                assert(ok.take(j + 1).drop_last() =~= ok.take(j as int));
                assert(ov.take(j + 1).drop_last() =~= ov.take(j as int));
                assert(keep.drop_last() =~= old_keep);
            }
            if b {
                self.keys.push(k);
                self.values.push(v);
                proof {
                    src = src.push(j as int);
                    assert forall|x: int, y: int|
                        0 <= x < self.keys@.len() && 0 <= y < self.keys@.len() && x != y implies
                        self.keys@[x]@ != self.keys@[y]@ by {
                        if x < old_keys.len() && y < old_keys.len() {
                            assert(self.keys@[x] == old_keys[x]);
                            assert(self.keys@[y] == old_keys[y]);
                        } else if x < old_keys.len() {
                            assert(self.keys@[x] == ok[src[x]]);
                        } else {
                            assert(self.keys@[y] == ok[src[y]]);
                        }
                    }
                }
            }
            assert(rk@ =~= ok.skip(j + 1).reverse());
            assert(rv@ =~= ov.skip(j + 1).reverse());
            j = j + 1;
        }
        assert(ok.take(n as int) =~= ok);
        assert(ov.take(n as int) =~= ov);
        self.len = self.keys.len();
        let new_size = table_size_for(self.len);
        self.rehash(new_size);
    }
}

/// Iterator over `(&key, &value)` pairs, in storage order.
pub struct Iter<'a, K, V> {
    keys: &'a [K],
    values: &'a [V],
    pos: usize,
}

impl<'a, K, V> Iter<'a, K, V> {
    /// Pairs not yet handed out.
    pub closed spec fn remaining(&self) -> Seq<(K, V)> {
        Seq::new(
            (self.keys@.len() - self.pos) as nat,
            |i: int| (self.keys@[self.pos + i], self.values@[self.pos + i]),
        )
    }

    pub closed spec fn wf(&self) -> bool {
        self.keys@.len() == self.values@.len() && self.pos <= self.keys@.len()
    }

    /// The next pair, or `None` once all are handed out.
    pub fn next(&mut self) -> (r: Option<(&'a K, &'a V)>)
        requires
            old(self).wf(),
        ensures
            final(self).wf(),
            old(self).remaining().len() == 0 ==> r is None && final(self).remaining()
                == old(self).remaining(),
            old(self).remaining().len() > 0 ==> r is Some && *r.unwrap().0
                == old(self).remaining()[0].0 && *r.unwrap().1 == old(self).remaining()[0].1
                && final(self).remaining() == old(self).remaining().drop_first(),
    {
        if self.pos < self.keys.len() {
            let i = self.pos;
            self.pos = self.pos + 1;
            assert(self.remaining() =~= old(self).remaining().drop_first());
            Some((&self.keys[i], &self.values[i]))
        } else {
            None
        }
    }

    /// Number of pairs not yet handed out.
    pub fn len(&self) -> (r: usize)
        requires
            self.wf(),
        ensures
            r == self.remaining().len(),
    {
        self.keys.len() - self.pos
    }
}

/// Owning iterator over `(key, value)` pairs, in storage order.
pub struct IntoIter<K, V> {
    rev_keys: Vec<K>,
    rev_values: Vec<V>,
}

impl<K, V> IntoIter<K, V> {
    /// Pairs not yet handed out.
    pub closed spec fn remaining(&self) -> Seq<(K, V)> {
        Seq::new(
            self.rev_keys@.len(),
            |i: int|
                (
                    self.rev_keys@[self.rev_keys@.len() - 1 - i],
                    self.rev_values@[self.rev_values@.len() - 1 - i],
                ),
        )
    }

    pub closed spec fn wf(&self) -> bool {
        self.rev_keys@.len() == self.rev_values@.len()
    }

    /// The next pair, or `None` once all are handed out.
    pub fn next(&mut self) -> (r: Option<(K, V)>)
        requires
            old(self).wf(),
        ensures
            final(self).wf(),
            old(self).remaining().len() == 0 ==> r is None && final(self).remaining()
                == old(self).remaining(),
            old(self).remaining().len() > 0 ==> r == Some(old(self).remaining()[0])
                && final(self).remaining() == old(self).remaining().drop_first(),
    {
        if self.rev_keys.len() > 0 {
            let k = self.rev_keys.pop().unwrap();
            let v = self.rev_values.pop().unwrap();
            assert(self.remaining() =~= old(self).remaining().drop_first());
            Some((k, v))
        } else {
            None
        }
    }

    /// Number of pairs not yet handed out.
    pub fn len(&self) -> (r: usize)
        requires
            self.wf(),
        ensures
            r == self.remaining().len(),
    {
        self.rev_keys.len()
    }
}

/// Iterator over `(&key, &mut value)` pairs, in storage order.
pub struct IterMut<'a, K, V> {
    /// Keys of the pairs not yet handed out.
    pub keys: &'a [K],
    /// Values of the pairs not yet handed out.
    pub values: &'a mut [V],
}

impl<'a, K, V> IterMut<'a, K, V> {
    /// Keys not yet handed out.
    pub closed spec fn rest_keys(&self) -> Seq<K> {
        self.keys@
    }

    /// Current values of the pairs not yet handed out.
    pub closed spec fn rest_values(&self) -> Seq<V> {
        self.values@
    }

    pub closed spec fn wf(&self) -> bool {
        self.keys@.len() == self.values@.len()
    }

    /// The next pair, or `None` once all are handed out.
    pub fn next(&mut self) -> (r: Option<(&'a K, &'a mut V)>)
        requires
            old(self).wf(),
        ensures
            final(self).wf(),
            old(self).rest_keys().len() == 0 ==> r is None && final(self).rest_keys() == old(self).rest_keys(),
            old(self).rest_keys().len() > 0 ==> {
                &&& r is Some
                &&& *r.unwrap().0 == old(self).rest_keys()[0]
                &&& *r.unwrap().1 == old(self).rest_values()[0]
                &&& final(self).rest_keys() == old(self).rest_keys().drop_first()
                &&& final(self).rest_values() == old(self).rest_values().drop_first()
                &&& final(old(self).values)@ == seq![*final(r.unwrap().1)] + final(final(self).values)@
            },
    {
        if self.keys.len() == 0 {
            return None;
        }
        let mut values: &'a mut [V] = &mut [];
        core::mem::swap(&mut values, &mut self.values);
        let (first, rest) = values.split_at_mut(1);
        self.values = rest;
        let (k, krest) = self.keys.split_at(1);
        self.keys = krest;
        let v = first.first_mut().unwrap();
        Some((&k[0], v))
    }
}

impl<K: XyKey, V> XyHashMap<K, V> {
    /// The `(key, value)` pairs in storage order.
    pub open spec fn entries(&self) -> Seq<(K, V)> {
        Seq::new(self.key_seq().len(), |i: int| (self.key_seq()[i], self.value_seq()[i]))
    }

    /// Iterates over `(&key, &value)` in storage order.
    pub fn iter(&self) -> (it: Iter<'_, K, V>)
        requires
            self.wf(),
        ensures
            it.wf(),
            it.remaining() == self.entries(),
    {
        let it = Iter { keys: self.keys.as_slice(), values: self.values.as_slice(), pos: 0 };
        assert(it.remaining() =~= self.entries());
        it
    }

    /// Consumes the map into an iterator over `(key, value)` in storage order.
    pub fn into_iter(self) -> (it: IntoIter<K, V>)
        requires
            self.wf(),
        ensures
            it.wf(),
            it.remaining() == self.entries(),
    {
        let ghost e = self.entries();
        let mut ks = self.keys;
        let mut vs = self.values;
        let ghost ok = ks@;
        let ghost ov = vs@;
        let mut rk: Vec<K> = Vec::new();
        let mut rv: Vec<V> = Vec::new();
        while ks.len() > 0
            invariant
                ks@.len() == vs@.len(),
                ok.len() == ov.len(),
                ks@ == ok.take(ks@.len() as int),
                vs@ == ov.take(vs@.len() as int),
                ks@.len() + rk@.len() == ok.len(),
                rk@.len() == rv@.len(),
                forall|i: int| 0 <= i < rk@.len() ==> rk@[i] == ok[ok.len() - 1 - i],
                forall|i: int| 0 <= i < rv@.len() ==> rv@[i] == ov[ov.len() - 1 - i],
            decreases ks@.len(),
        {
            let ghost m = ks@.len() as int;
            let k = ks.pop().unwrap();
            let v = vs.pop().unwrap();
            rk.push(k);
            rv.push(v);
            assert(ks@ =~= ok.take(m - 1));
            assert(vs@ =~= ov.take(m - 1));
        }
        let it = IntoIter { rev_keys: rk, rev_values: rv };
        assert(it.remaining() =~= e);
        it
    }
}

/// The elements of `v`, last first.
pub fn reversed<T>(v: Vec<T>) -> (r: Vec<T>)
    ensures
        r@ == v@.reverse(),
{
    let ghost o = v@;
    let mut v = v;
    let mut r: Vec<T> = Vec::new();
    while v.len() > 0
        invariant
            v@ == o.take(v@.len() as int),
            r@ == o.skip(v@.len() as int).reverse(),
            v@.len() <= o.len(),
        decreases v@.len(),
    {
        let ghost m = v@.len() as int;
        let x = v.pop().unwrap();
        r.push(x);
        assert(v@ =~= o.take(m - 1));
        assert(r@ =~= o.skip(m - 1).reverse());
    }
    assert(o.skip(0) =~= o);
    r
}

impl<K: XyKey, V> XyHashMap<K, V> {
    /// Inserts every pair of `pairs`, in order.
    pub fn extend(&mut self, pairs: Vec<(K, V)>)
        requires
            old(self).wf(),
            room_for_one_more((old(self).key_seq().len() + pairs@.len()) as int),
        ensures
            final(self).wf(),
            final(self)@ == insert_all(old(self)@, pairs@),
            final(self).key_seq().len() <= old(self).key_seq().len() + pairs@.len(),
    {
        let ghost o = pairs@;
        let n = pairs.len();
        let mut rev = reversed(pairs);
        let mut i: usize = 0;
        while i < n
            invariant
                self.wf(),
                n == o.len(),
                i <= n,
                rev@ == o.skip(i as int).reverse(),
                self@ == insert_all(old(self)@, o.take(i as int)),
                self.key_seq().len() <= old(self).key_seq().len() + i,
                room_for_one_more((old(self).key_seq().len() + n) as int),
            decreases n - i,
        {
            assert(rev@.last() == o[i as int]);
            let (k, v) = rev.pop().unwrap();
            proof {
                self.lemma_wf();
            }
            self.insert(k, v);
            assert(o.take(i + 1).drop_last() =~= o.take(i as int));
            assert(rev@ =~= o.skip(i + 1).reverse());
            i = i + 1;
        }
        assert(o.take(n as int) =~= o);
    }

    /// A map holding `pairs`, inserted in order (a later pair overwrites an earlier one
    /// with an equal key); its table is sized for `pairs.len()` entries.
    pub fn from_pairs(pairs: Vec<(K, V)>) -> (m: Self)
        requires
            room_for_one_more(pairs@.len() as int),
        ensures
            m.wf(),
            m@ == insert_all(Map::<K::V, V>::empty(), pairs@),
    {
        let mut m = Self::with_capacity(pairs.len());
        m.extend(pairs);
        m
    }
}

impl<K: XyKey, V> Default for XyHashMap<K, V> {
    fn default() -> (m: Self)
        ensures
            m.wf(),
            m@ == Map::<K::V, V>::empty(),
    {
        Self::new()
    }
}

impl<K: XyKey + Clone, V: Clone> Clone for XyHashMap<K, V> {
    /// A copy with cloned keys and values in the same storage order and the same table. It is
    /// well formed whenever every cloned key has the view of its original, as the keys of
    /// this crate's `XyKey` impls do.
    fn clone(&self) -> (r: Self)
        ensures
            r.key_seq().len() == self.key_seq().len(),
            r.value_seq().len() == self.value_seq().len(),
            forall|i: int|
                0 <= i < self.key_seq().len() ==> cloned(self.key_seq()[i], r.key_seq()[i]),
            forall|i: int|
                0 <= i < self.value_seq().len() ==> cloned(self.value_seq()[i], r.value_seq()[i]),
            r.table_len() == self.table_len(),
            self.wf() && (forall|i: int|
                0 <= i < self.key_seq().len() ==> r.key_seq()[i]@ == self.key_seq()[i]@) ==> r.wf(),
    {
        let r = XyHashMap {
            keys: self.keys.clone(),
            values: self.values.clone(),
            table: self.table.clone(),
            len: self.len,
            dead: self.dead,
            locs: Ghost(self.locs@),
        };
        assert(r.table@ =~= self.table@);
        proof {
            if self.wf() && (forall|i: int|
                0 <= i < self.key_seq().len() ==> r.key_seq()[i]@ == self.key_seq()[i]@) {
                assert forall|i: int| 0 <= i < r.len implies #[trigger] r.home_of(i) == self.home_of(i) by {
                    assert(r.key_seq()[i]@ == self.key_seq()[i]@);
                }
                assert(distinct_keys(r.keys@)) by {
                    assert forall|a: int, b: int|
                        0 <= a < r.keys@.len() && 0 <= b < r.keys@.len() && a != b implies r.keys@[a]@
                        != r.keys@[b]@ by {
                        assert(r.key_seq()[a]@ == self.key_seq()[a]@);
                        assert(r.key_seq()[b]@ == self.key_seq()[b]@);
                    }
                }
            }
        }
        r
    }
}

/// Inserting a fresh key and then removing it gives back the same keys and values, in
/// the same storage order.
pub proof fn law_insert_fresh_then_remove<K: View, V>(
    keys: Seq<K>,
    values: Seq<V>,
    key: K,
    value: V,
)
    requires
        distinct_keys(keys),
        keys.len() == values.len(),
        key_index(keys, key@) is None,
    ensures
        key_index(keys.push(key), key@) == Some(keys.len() as int),
        swap_removed(keys.push(key), keys.len() as int) == keys,
        swap_removed(values.push(value), values.len() as int) == values,
{
    lemma_entries_map_push(keys, values, key, value);
    let k2 = keys.push(key);
    assert(distinct_keys(k2)) by {
        assert forall|a: int, b: int| 0 <= a < k2.len() && 0 <= b < k2.len() && a != b implies k2[a]@
            != k2[b]@ by {
            if a < keys.len() && b < keys.len() {
            } else if a < keys.len() {
                assert(k2[a] == keys[a]);
            } else {
                assert(k2[b] == keys[b]);
            }
        }
    }
    lemma_key_index_of_distinct(k2, keys.len() as int);
    assert(swap_removed(keys.push(key), keys.len() as int) =~= keys);
    assert(swap_removed(values.push(value), values.len() as int) =~= values);
}

/// While the map holds fewer entries than `capacity()`, inserting a new key does not
/// reallocate the table.
pub proof fn law_insert_below_capacity_keeps_table(t: int, len: int)
    requires
        t > 0,
        0 <= len < t * 3 / 4,
    ensures
        grown_table_len(t, len) == t,
{
}

/// A table sized by `with_capacity(n)` takes `n` new keys without reallocating.
pub proof fn law_with_capacity_room(n: int, t: int, len: int)
    requires
        min_table_len(n) <= t,
        0 <= len < n,
    ensures
        grown_table_len(t, len) == t,
{
}

/// Growth doubles a table past 75% load and never shrinks it.
pub proof fn law_growth_doubles(t: int, len: int)
    requires
        t > 0,
        len >= 0,
    ensures
        grown_table_len(t, len) == t || grown_table_len(t, len) == 2 * t,
        grown_table_len(t, len) == 2 * t <==> (len + 1) * 4 > t * 3,
{
}

/// Smallest power of two at or above `min_table_len(n)`.
fn table_size_for(n: usize) -> (r: usize)
    requires
        n * 12 <= usize::MAX,
    ensures
        is_pow2(r as int),
        min_table_len(n as int) <= r < 2 * min_table_len(n as int),
        r * 4 <= usize::MAX,
{
    let raw = (n * 4 + 2) / 3;
    let m = if raw < INIT_CAP {
        INIT_CAP
    } else {
        raw
    };
    let mut p: usize = INIT_CAP;
    assert(is_pow2(8)) by {
        assert(is_pow2(1));
        assert(is_pow2(2));
        assert(is_pow2(4));
    }
    while p < m
        invariant
            m == min_table_len(n as int),
            m <= 2 * n + 8,
            n * 12 <= usize::MAX,
            is_pow2(p as int),
            INIT_CAP <= p < 2 * m,
        decreases 2 * m - p,
    {
        assert(is_pow2((p * 2) as int)) by {
            assert((p * 2) as int / 2 == p as int);
        }
        p = p * 2;
    }
    p
}

} // verus!
