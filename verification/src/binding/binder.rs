use vstd::prelude::*;

verus! {

/// A registered listener: its callback and whether it is being notified right now.
pub struct ListenerMetaData<L> {
    pub listener: L,
    pub received_event: bool,
}

/// The state a `Binder` shares: a value, its listeners keyed by id, and the next id.
pub struct BinderInner<T, L> {
    data: T,
    listeners: Vec<(usize, ListenerMetaData<L>)>,
    next_id: usize,
}

impl<T: Copy, L: Fn(&T)> BinderInner<T, L> {
    /// The bound value.
    pub closed spec fn value(&self) -> T {
        self.data
    }

    /// Listener ids with their callbacks, in registration order.
    pub closed spec fn listener_seq(&self) -> Seq<(usize, L)> {
        self.listeners@.map_values(|e: (usize, ListenerMetaData<L>)| (e.0, e.1.listener))
    }

    /// Id the next listener gets.
    pub closed spec fn next_listener_id(&self) -> usize {
        self.next_id
    }

    /// Ids are below `next_id` and increase along the list; no listener is mid-notification.
    pub closed spec fn wf(&self) -> bool {
        &&& forall|i: int|
            0 <= i < self.listeners@.len() ==> #[trigger] self.listeners@[i].0 < self.next_id
                && !self.listeners@[i].1.received_event
        &&& forall|i: int, j: int|
            0 <= i < j < self.listeners@.len() ==> self.listeners@[i].0 < self.listeners@[j].0
    }

    pub fn new(data: T) -> (b: Self)
        ensures
            b.wf(),
            b.value() == data,
            b.listener_seq() == Seq::<(usize, L)>::empty(),
            b.next_listener_id() == 0,
    {
        let b = BinderInner { data, listeners: Vec::new(), next_id: 0 };
        assert(b.listener_seq() =~= Seq::<(usize, L)>::empty());
        b
    }

    pub fn get(&self) -> (r: T)
        ensures
            r == self.value(),
    {
        self.data
    }

    /// The id the next listener gets.
    pub fn next_id(&self) -> (r: usize)
        ensures
            r == self.next_listener_id(),
    {
        self.next_id
    }

    /// Calls every listener with the value, in registration order, skipping one that is
    /// already being notified (in a well-formed binder none is, so every listener is called).
    pub fn notify(&mut self)
        requires
            old(self).wf(),
            forall|i: int|
                0 <= i < old(self).listener_seq().len() ==> call_requires(
                    old(self).listener_seq()[i].1,
                    (&old(self).value(),),
                ),
        ensures
            final(self).wf(),
            final(self).value() == old(self).value(),
            final(self).listener_seq() == old(self).listener_seq(),
            final(self).next_listener_id() == old(self).next_listener_id(),
            forall|i: int|
                0 <= i < old(self).listener_seq().len() ==> call_ensures(
                    #[trigger] old(self).listener_seq()[i].1,
                    (&old(self).value(),),
                    (),
                ),
    {
        let n = self.listeners.len();
        let mut i: usize = 0;
        while i < n
            invariant
                n == self.listeners@.len(),
                i <= n,
                self.data == old(self).data,
                self.next_id == old(self).next_id,
                self.listeners@ == old(self).listeners@,
                old(self).wf(),
                forall|j: int|
                    0 <= j < old(self).listener_seq().len() ==> call_requires(
                        old(self).listener_seq()[j].1,
                        (&old(self).value(),),
                    ),
                forall|j: int|
                    0 <= j < i ==> call_ensures(
                        #[trigger] old(self).listener_seq()[j].1,
                        (&old(self).value(),),
                        (),
                    ),
            decreases n - i,
        {
            if !self.listeners[i].1.received_event {
                let ghost before = self.listeners@;
                let (id, meta) = self.listeners.remove(i);
                let mut meta = meta;
                meta.received_event = true;
                assert(old(self).listener_seq()[i as int].1 == meta.listener);
                (meta.listener)(&self.data);
                meta.received_event = false;
                self.listeners.insert(i, (id, meta));
                assert(self.listeners@ =~= before);
            }
            i = i + 1;
        }
    }

    /// Replaces the value, then notifies the listeners.
    pub fn set(&mut self, value: T)
        requires
            old(self).wf(),
            forall|i: int|
                0 <= i < old(self).listener_seq().len() ==> call_requires(
                    old(self).listener_seq()[i].1,
                    (&value,),
                ),
        ensures
            final(self).wf(),
            final(self).value() == value,
            final(self).listener_seq() == old(self).listener_seq(),
            final(self).next_listener_id() == old(self).next_listener_id(),
            forall|i: int|
                0 <= i < old(self).listener_seq().len() ==> call_ensures(
                    #[trigger] old(self).listener_seq()[i].1,
                    (&value,),
                    (),
                ),
    {
        self.data = value;
        assert(self.listener_seq() == old(self).listener_seq());
        assert forall|i: int| 0 <= i < self.listener_seq().len() implies call_requires(
            self.listener_seq()[i].1,
            (&self.value(),),
        ) by {
            assert(call_requires(old(self).listener_seq()[i].1, (&value,)));
        }
        self.notify();
    }

    /// Registers `listener` under a fresh id, which it returns.
    pub fn add_listener(&mut self, listener: L) -> (id: usize)
        requires
            old(self).wf(),
            old(self).next_listener_id() < usize::MAX,
        ensures
            final(self).wf(),
            id == old(self).next_listener_id(),
            final(self).value() == old(self).value(),
            final(self).listener_seq() == old(self).listener_seq().push((id, listener)),
            final(self).next_listener_id() == id + 1,
    {
        let id = self.next_id;
        self.listeners.push((id, ListenerMetaData { listener, received_event: false }));
        self.next_id = self.next_id + 1;
        assert(self.listener_seq() =~= old(self).listener_seq().push((id, listener)));
        id
    }

    /// Unregisters the listener with id `id`, if any.
    pub fn remove_listener(&mut self, id: usize)
        requires
            old(self).wf(),
        ensures
            final(self).wf(),
            final(self).value() == old(self).value(),
            final(self).listener_seq() == old(self).listener_seq().filter(
                |e: (usize, L)| e.0 != id,
            ),
            final(self).next_listener_id() == old(self).next_listener_id(),
    {
        let ghost old_seq = self.listener_seq();
        let ghost old_ls = self.listeners@;
        let mut old_list: Vec<(usize, ListenerMetaData<L>)> = Vec::new();
        core::mem::swap(&mut old_list, &mut self.listeners);
        let mut rev: Vec<(usize, ListenerMetaData<L>)> = Vec::new();
        while old_list.len() > 0
            invariant
                old_list@ == old_ls.take(old_list@.len() as int),
                rev@ == old_ls.skip(old_list@.len() as int).reverse(),
                old_list@.len() <= old_ls.len(),
            decreases old_list@.len(),
        {
            let ghost m = old_list@.len() as int;
            let x = old_list.pop().unwrap();
            rev.push(x);
            assert(old_list@ =~= old_ls.take(m - 1));
            assert(rev@ =~= old_ls.skip(m - 1).reverse());
        }
        let n = rev.len();
        let mut i: usize = 0;
        while i < n
            invariant
                n == old_ls.len(),
                i <= n,
                rev@ == old_ls.skip(i as int).reverse(),
                old_seq == old_ls.map_values(
                    |e: (usize, ListenerMetaData<L>)| (e.0, e.1.listener),
                ),
                self.data == old(self).data,
                self.next_id == old(self).next_id,
                old(self).wf(),
                old_ls == old(self).listeners@,
                self.listener_seq() == old_seq.take(i as int).filter(|e: (usize, L)| e.0 != id),
                forall|a: int|
                    0 <= a < self.listeners@.len() ==> exists|j: int|
                        0 <= j < i && #[trigger] self.listeners@[a] == old_ls[j],
                forall|a: int, b: int|
                    0 <= a < b < self.listeners@.len() ==> self.listeners@[a].0
                        < self.listeners@[b].0,
                forall|a: int|
                    0 <= a < self.listeners@.len() ==> (#[trigger] self.listeners@[a]).0
                        < self.next_id && !self.listeners@[a].1.received_event,
                self.listeners@.len() > 0 ==> exists|j: int|
                    0 <= j < i && self.listeners@.last() == old_ls[j] && forall|k: int|
                        j < k < n ==> old_ls[j].0 < #[trigger] old_ls[k].0,
            decreases n - i,
        {
            assert(rev@.last() == old_ls[i as int]);
            let e = rev.pop().unwrap();
            let ghost before = self.listeners@;
            proof {
                let p = |e: (usize, L)| e.0 != id;
                old_seq.take(i as int).lemma_filter_push(old_seq[i as int], p);
                assert(old_seq.take(i + 1) =~= old_seq.take(i as int).push(old_seq[i as int]));
            }
            if e.0 != id {
                self.listeners.push(e);
                proof {
                    assert(self.listener_seq() =~= before.map_values(
                        |e: (usize, ListenerMetaData<L>)| (e.0, e.1.listener),
                    ).push(old_seq[i as int]));
                    assert forall|a: int| 0 <= a < self.listeners@.len() implies exists|j: int|
                        0 <= j < i + 1 && #[trigger] self.listeners@[a] == old_ls[j] by {
                        if a < before.len() {
                            assert(self.listeners@[a] == before[a]);
                        } else {
                            assert(self.listeners@[a] == old_ls[i as int]);
                        }
                    }
                    assert forall|a: int, b: int|
                        0 <= a < b < self.listeners@.len() implies self.listeners@[a].0
                        < self.listeners@[b].0 by {
                        if b == self.listeners@.len() - 1 && a < before.len() {
                            assert(self.listeners@[a] == before[a]);
                            if a == before.len() - 1 {
                                let j = choose|j: int|
                                    0 <= j < i && before.last() == old_ls[j] && forall|k: int|
                                        j < k < n ==> old_ls[j].0 < #[trigger] old_ls[k].0;
                                assert(old_ls[j].0 < old_ls[i as int].0);
                            } else {
                                assert(before[a].0 < before[before.len() - 1].0);
                                let j = choose|j: int|
                                    0 <= j < i && before.last() == old_ls[j] && forall|k: int|
                                        j < k < n ==> old_ls[j].0 < #[trigger] old_ls[k].0;
                                assert(old_ls[j].0 < old_ls[i as int].0);
                            }
                        } else {
                            assert(self.listeners@[a] == before[a]);
                            assert(self.listeners@[b] == before[b]);
                        }
                    }
                    assert(self.listeners@.last() == old_ls[i as int]);
                    assert forall|k: int| i < k < n implies old_ls[i as int].0
                        < #[trigger] old_ls[k].0 by {}
                }
            } else {
                proof {
                    assert(self.listener_seq() == before.map_values(
                        |e: (usize, ListenerMetaData<L>)| (e.0, e.1.listener),
                    ));
                }
            }
            assert(rev@ =~= old_ls.skip(i + 1).reverse());
            i = i + 1;
        }
        assert(old_seq.take(n as int) =~= old_seq);
    }

    /// Unregisters every listener.
    pub fn remove_all_listeners(&mut self)
        requires
            old(self).wf(),
        ensures
            final(self).wf(),
            final(self).value() == old(self).value(),
            final(self).listener_seq() == Seq::<(usize, L)>::empty(),
            final(self).next_listener_id() == old(self).next_listener_id(),
    {
        self.listeners.clear();
        assert(self.listener_seq() =~= Seq::<(usize, L)>::empty());
    }
}

} // verus!
