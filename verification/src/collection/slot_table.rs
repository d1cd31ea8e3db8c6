use vstd::prelude::*;

verus! {

/// Slot value of a hash-table slot that has never held an entry.
pub const EMPTY: u32 = 0xFFFF_FFFFu32;

/// Slot value of a hash-table slot whose entry was removed.
pub const TOMBSTONE: u32 = 0xFFFF_FFFEu32;

/// Number of slots of `s` holding `v`.
pub open spec fn count_val(s: Seq<u32>, v: u32) -> nat
    decreases s.len(),
{
    if s.len() == 0 {
        0
    } else {
        count_val(s.drop_last(), v) + if s.last() == v {
            1nat
        } else {
            0nat
        }
    }
}

/// Position reached after `j` linear-probe steps from `h` in a table of `t` slots.
pub open spec fn wrap_add(h: int, j: int, t: int) -> int {
    if h + j < t {
        h + j
    } else {
        h + j - t
    }
}

/// Number of linear-probe steps from `h` to `p` in a table of `t` slots.
pub open spec fn probe_dist(h: int, p: int, t: int) -> int {
    if p >= h {
        p - h
    } else {
        p + t - h
    }
}

/// No slot strictly between the home position `h` and `p` (along the probe) is `EMPTY`.
pub open spec fn probe_clear(table: Seq<u32>, h: int, p: int) -> bool {
    forall|j: int|
        0 <= j < probe_dist(h, p, table.len() as int) ==> #[trigger] table[wrap_add(
            h,
            j,
            table.len() as int,
        )] != EMPTY
}

/// Home position of a hash in a table of `t` slots.
pub open spec fn home_pos(hash: u64, t: int) -> int {
    hash as int % t
}

pub proof fn lemma_count_update(s: Seq<u32>, p: int, x: u32, v: u32)
    requires
        0 <= p < s.len(),
    ensures
        count_val(s.update(p, x), v) + (if s[p] == v {
            1int
        } else {
            0int
        }) == count_val(s, v) + (if x == v {
            1int
        } else {
            0int
        }),
    decreases s.len(),
{
    let u = s.update(p, x);
    if p == s.len() - 1 {
        assert(u.drop_last() =~= s.drop_last());
    } else {
        assert(u.drop_last() =~= s.drop_last().update(p, x));
        lemma_count_update(s.drop_last(), p, x, v);
    }
}

pub proof fn lemma_count_exists(s: Seq<u32>, v: u32)
    requires
        count_val(s, v) > 0,
    ensures
        exists|p: int| 0 <= p < s.len() && s[p] == v,
    decreases s.len(),
{
    if s.last() == v {
        assert(s[s.len() - 1] == v);
    } else {
        lemma_count_exists(s.drop_last(), v);
        let p = choose|p: int| 0 <= p < s.drop_last().len() && s.drop_last()[p] == v;
        assert(s[p] == v);
    }
}

pub proof fn lemma_count_uniform(n: nat, v: u32, w: u32)
    ensures
        count_val(Seq::new(n, |i: int| v), w) == if v == w {
            n
        } else {
            0
        },
    decreases n,
{
    if n > 0 {
        assert(Seq::new(n, |i: int| v).drop_last() =~= Seq::new((n - 1) as nat, |i: int| v));
        lemma_count_uniform((n - 1) as nat, v, w);
    }
}

/// Home position of `hash` in a table of `t` slots.
pub fn home(hash: u64, t: usize) -> (h: usize)
    requires
        t > 0,
    ensures
        h == home_pos(hash, t as int),
        h < t,
{
    (hash % (t as u64)) as usize
}

/// Next position of a linear probe.
pub fn next_pos(pos: usize, t: usize) -> (n: usize)
    requires
        pos < t,
    ensures
        n == wrap_add(pos as int, 1, t as int),
        n < t,
{
    if pos + 1 == t {
        0
    } else {
        pos + 1
    }
}

/// A table of `n` slots, all `EMPTY`.
pub fn empty_table(n: usize) -> (v: Vec<u32>)
    ensures
        v@ == Seq::new(n as nat, |i: int| EMPTY),
{
    let mut v: Vec<u32> = Vec::with_capacity(n);
    let mut i: usize = 0;
    while i < n
        invariant
            i <= n,
            v@ == Seq::new(i as nat, |k: int| EMPTY),
        decreases n - i,
    {
        v.push(EMPTY);
        i = i + 1;
        assert(v@ =~= Seq::new(i as nat, |k: int| EMPTY));
    }
    v
}

} // verus!
