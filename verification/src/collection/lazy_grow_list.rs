use vstd::prelude::*;

use super::queue::Queue;

verus! {

/// A list whose removed slots are recycled, oldest first, by later pushes; indices of
/// live items never move.
pub struct LazyGrowList<T> {
    data: Vec<T>,
    has_values: Vec<bool>,
    free_indices: Queue<usize>,
}

impl<T> View for LazyGrowList<T> {
    type V = Seq<Option<T>>;

    /// Slot `i` is `Some(item)` while it holds a live item, `None` once removed.
    closed spec fn view(&self) -> Seq<Option<T>> {
        Seq::new(
            self.data@.len(),
            |i: int|
                if self.has_values@[i] {
                    Some(self.data@[i])
                } else {
                    None
                },
        )
    }
}

impl<T> LazyGrowList<T> {
    /// Free slots, in the order pushes will reuse them.
    pub closed spec fn free_seq(&self) -> Seq<usize> {
        self.free_indices@
    }

    /// The free slots are exactly the `None` slots, each queued once.
    pub closed spec fn wf(&self) -> bool {
        &&& self.data@.len() == self.has_values@.len()
        &&& forall|k: int|
            0 <= k < self.free_indices@.len() ==> {
                &&& #[trigger] self.free_indices@[k] < self.data@.len()
                &&& !self.has_values@[self.free_indices@[k] as int]
            }
        &&& forall|k1: int, k2: int|
            0 <= k1 < self.free_indices@.len() && 0 <= k2 < self.free_indices@.len() && k1 != k2
                ==> self.free_indices@[k1] != self.free_indices@[k2]
        &&& forall|i: int|
            0 <= i < self.data@.len() && !#[trigger] self.has_values@[i] ==> self.free_indices@.contains(
                i as usize,
            )
    }

    pub fn new() -> (l: Self)
        ensures
            l.wf(),
            l@ == Seq::<Option<T>>::empty(),
            l.free_seq() == Seq::<usize>::empty(),
    {
        let l = LazyGrowList { data: Vec::new(), free_indices: Queue::new(), has_values: Vec::new() };
        assert(l@ =~= Seq::<Option<T>>::empty());
        l
    }

    /// Stores `item` in the oldest free slot, or in a new slot at the end; returns its index.
    pub fn push(&mut self, item: T) -> (idx: usize)
        requires
            old(self).wf(),
            old(self)@.len() < usize::MAX,
        ensures
            final(self).wf(),
            old(self).free_seq().len() > 0 ==> {
                &&& idx == old(self).free_seq()[0]
                &&& final(self)@ == old(self)@.update(idx as int, Some(item))
                &&& final(self).free_seq() == old(self).free_seq().drop_first()
            },
            old(self).free_seq().len() == 0 ==> {
                &&& idx == old(self)@.len()
                &&& final(self)@ == old(self)@.push(Some(item))
                &&& final(self).free_seq() == old(self).free_seq()
            },
    {
        let ghost old_free = self.free_indices@;
        if let Some(free_index) = self.free_indices.dequeue() {
            self.data.set(free_index, item);
            self.has_values.set(free_index, true);
            proof {
                assert(free_index == old_free[0]);
                assert forall|k: int| 0 <= k < self.free_indices@.len() implies {
                    &&& #[trigger] self.free_indices@[k] < self.data@.len()
                    &&& !self.has_values@[self.free_indices@[k] as int]
                } by {
                    assert(self.free_indices@[k] == old_free[k + 1]);
                }
                assert forall|i: int|
                    0 <= i < self.data@.len() && !#[trigger] self.has_values@[i] implies self.free_indices@.contains(
                    i as usize,
                ) by {
                    assert(old_free.contains(i as usize));
                    let k = choose|k: int| 0 <= k < old_free.len() && old_free[k] == i as usize;
                    assert(k != 0);
                    assert(self.free_indices@[k - 1] == i as usize);
                }
                assert(self@ =~= old(self)@.update(free_index as int, Some(item)));
            }
            free_index
        } else {
            self.data.push(item);
            self.has_values.push(true);
            assert(self@ =~= old(self)@.push(Some(item)));
            self.data.len() - 1
        }
    }

    /// Frees slot `index`, which holds a live item; the slot is queued for reuse.
    pub fn remove(&mut self, index: usize)
        requires
            old(self).wf(),
            index < old(self)@.len(),
            old(self)@[index as int] is Some,
        ensures
            final(self).wf(),
            final(self)@ == old(self)@.update(index as int, None),
            final(self).free_seq() == old(self).free_seq().push(index),
    {
        let ghost old_free = self.free_indices@;
        self.free_indices.enqueue(index);
        self.has_values.set(index, false);
        proof {
            assert forall|k1: int, k2: int|
                0 <= k1 < self.free_indices@.len() && 0 <= k2 < self.free_indices@.len() && k1
                    != k2 implies self.free_indices@[k1] != self.free_indices@[k2] by {
                if k1 < old_free.len() {
                    assert(self.free_indices@[k1] == old_free[k1]);
                }
                if k2 < old_free.len() {
                    assert(self.free_indices@[k2] == old_free[k2]);
                }
            }
            assert forall|k: int| 0 <= k < self.free_indices@.len() implies {
                &&& #[trigger] self.free_indices@[k] < self.data@.len()
                &&& !self.has_values@[self.free_indices@[k] as int]
            } by {
                if k < old_free.len() {
                    assert(self.free_indices@[k] == old_free[k]);
                }
            }
            assert forall|i: int|
                0 <= i < self.data@.len() && !#[trigger] self.has_values@[i] implies self.free_indices@.contains(
                i as usize,
            ) by {
                if i == index {
                    assert(self.free_indices@[old_free.len() as int] == index);
                } else {
                    assert(old_free.contains(i as usize));
                    let k = choose|k: int| 0 <= k < old_free.len() && old_free[k] == i as usize;
                    assert(self.free_indices@[k] == i as usize);
                }
            }
            assert(self@ =~= old(self)@.update(index as int, None));
        }
    }

    /// The item in slot `index`, if the slot exists and is live.
    pub fn get(&self, index: usize) -> (r: Option<&T>)
        requires
            self.wf(),
        ensures
            r == (if index < self@.len() {
                match self@[index as int] {
                    Some(x) => Some(&x),
                    None => None,
                }
            } else {
                None
            }),
    {
        if index < self.data.len() && self.has_values[index] {
            Some(&self.data[index])
        } else {
            None
        }
    }

    /// Mutable access to the item in slot `index`, if the slot exists and is live.
    pub fn get_mut(&mut self, index: usize) -> (r: Option<&mut T>)
        requires
            old(self).wf(),
        ensures
            final(self).wf(),
            final(self).free_seq() == old(self).free_seq(),
            index < old(self)@.len() && old(self)@[index as int] is Some ==> {
                &&& r is Some
                &&& Some(*r.unwrap()) == old(self)@[index as int]
                &&& final(self)@ == old(self)@.update(index as int, Some(*final(r.unwrap())))
            },
            !(index < old(self)@.len() && old(self)@[index as int] is Some) ==> {
                &&& r is None
                &&& final(self)@ == old(self)@
            },
    {
        if index < self.data.len() && self.has_values[index] {
            Some(&mut self.data[index])
        } else {
            None
        }
    }
}

impl<T> Default for LazyGrowList<T> {
    fn default() -> (l: Self)
        ensures
            l.wf(),
            l@ == Seq::<Option<T>>::empty(),
    {
        Self::new()
    }
}

/// Freed slots are recycled oldest first: after `remove(i)` appends `i` to the free slots
/// `free`, the next `push` takes the slot freed earliest, which is `i` only when no other slot
/// was waiting.
pub proof fn law_push_reuses_oldest_freed(free: Seq<usize>, i: usize)
    ensures
        free.push(i).len() > 0,
        free.len() == 0 ==> free.push(i)[0] == i,
        free.len() > 0 ==> free.push(i)[0] == free[0],
        free.push(i).drop_first() == (if free.len() == 0 {
            Seq::<usize>::empty()
        } else {
            free.drop_first().push(i)
        }),
{
    if free.len() == 0 {
        assert(free.push(i).drop_first() =~= Seq::<usize>::empty());
    } else {
        assert(free.push(i).drop_first() =~= free.drop_first().push(i));
    }
}

} // verus!
