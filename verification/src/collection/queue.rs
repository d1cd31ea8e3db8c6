use vstd::prelude::*;

use std::collections::VecDeque;

verus! {

/// First-in, first-out queue.
#[derive(Debug)]
pub struct Queue<T> {
    queue: VecDeque<T>,
}

impl<T> View for Queue<T> {
    type V = Seq<T>;

    /// The queued elements, front first.
    closed spec fn view(&self) -> Seq<T> {
        self.queue@
    }
}

impl<T> Queue<T> {
    pub fn new() -> (q: Self)
        ensures
            q@ == Seq::<T>::empty(),
    {
        Queue { queue: VecDeque::new() }
    }

    pub fn with_capacity(capacity: usize) -> (q: Self)
        ensures
            q@ == Seq::<T>::empty(),
    {
        Queue { queue: VecDeque::with_capacity(capacity) }
    }

    pub fn len(&self) -> (r: usize)
        ensures
            r == self@.len(),
    {
        self.queue.len()
    }

    pub fn is_empty(&self) -> (r: bool)
        ensures
            r == (self@.len() == 0),
    {
        self.queue.len() == 0
    }

    /// Adds `val` at the back.
    pub fn enqueue(&mut self, val: T)
        ensures
            final(self)@ == old(self)@.push(val),
    {
        self.queue.push_back(val);
    }

    /// Takes the front element, if any.
    pub fn dequeue(&mut self) -> (r: Option<T>)
        ensures
            old(self)@.len() == 0 ==> r is None && final(self)@ == old(self)@,
            old(self)@.len() > 0 ==> r == Some(old(self)@[0]) && final(self)@ == old(
                self,
            )@.drop_first(),
    {
        let r = self.queue.pop_front();
        proof {
            if old(self)@.len() > 0 {
                assert(old(self)@.subrange(1, old(self)@.len() as int) =~= old(self)@.drop_first());
            }
        }
        r
    }

    /// Adds every element of `vals` at the back, in order.
    pub fn enqueue_batch(&mut self, vals: Vec<T>)
        ensures
            final(self)@ == old(self)@ + vals@,
    {
        let ghost o = vals@;
        let mut rest = vals;
        let mut rev: Vec<T> = Vec::new();
        while rest.len() > 0
            invariant
                rest@ == o.take(rest@.len() as int),
                rev@ == o.skip(rest@.len() as int).reverse(),
                rest@.len() <= o.len(),
            decreases rest@.len(),
        {
            let ghost m = rest@.len() as int;
            let x = rest.pop().unwrap();
            rev.push(x);
            assert(rest@ =~= o.take(m - 1));
            assert(rev@ =~= o.skip(m - 1).reverse());
        }
        let n = rev.len();
        let mut i: usize = 0;
        while i < n
            invariant
                n == o.len(),
                i <= n,
                rev@ == o.skip(i as int).reverse(),
                self@ == old(self)@ + o.take(i as int),
            decreases n - i,
        {
            assert(rev@.last() == o[i as int]);
            let x = rev.pop().unwrap();
            self.queue.push_back(x);
            assert(o.take(i + 1) =~= o.take(i as int).push(o[i as int]));
            assert(rev@ =~= o.skip(i + 1).reverse());
            i = i + 1;
        }
        assert(o.take(n as int) =~= o);
        assert(self@ =~= old(self)@ + o);
    }

    /// Moves up to `count` front elements, in order, to the end of `output`; returns how
    /// many moved.
    pub fn dequeue_batch(&mut self, count: usize, output: &mut Vec<T>) -> (r: usize)
        ensures
            r == (if count < old(self)@.len() {
                count as int
            } else {
                old(self)@.len() as int
            }),
            final(output)@ == old(output)@ + old(self)@.take(r as int),
            final(self)@ == old(self)@.skip(r as int),
    {
        let count = if count < self.queue.len() {
            count
        } else {
            self.queue.len()
        };
        let mut i: usize = 0;
        while i < count
            invariant
                count <= old(self)@.len(),
                i <= count,
                self@ == old(self)@.skip(i as int),
                output@ == old(output)@ + old(self)@.take(i as int),
            decreases count - i,
        {
            let x = self.queue.pop_front().unwrap();
            output.push(x);
            assert(self@ =~= old(self)@.skip(i + 1));
            assert(output@ =~= old(output)@ + old(self)@.take(i + 1));
            i = i + 1;
        }
        count
    }

    /// The front element, if any.
    pub fn peek(&self) -> (r: Option<&T>)
        ensures
            self@.len() == 0 ==> r is None,
            self@.len() > 0 ==> r == Some(&self@[0]),
    {
        if self.queue.len() > 0 {
            Some(&self.queue[0])
        } else {
            None
        }
    }
}

impl<T> Default for Queue<T> {
    fn default() -> (q: Self)
        ensures
            q@ == Seq::<T>::empty(),
    {
        Queue::new()
    }
}

/// First in, first out: after enqueuing `vals` behind the content `s`, taking `s.len()`
/// items gives back `s`, and what remains is `vals`, in enqueue order.
pub proof fn law_first_in_first_out<T>(s: Seq<T>, vals: Seq<T>)
    ensures
        (s + vals).take(s.len() as int) == s,
        (s + vals).skip(s.len() as int) == vals,
        s.len() > 0 ==> (s + vals)[0] == s[0],
        s.len() == 0 && vals.len() > 0 ==> (s + vals)[0] == vals[0],
{
    assert((s + vals).take(s.len() as int) =~= s);
    assert((s + vals).skip(s.len() as int) =~= vals);
}

} // verus!
