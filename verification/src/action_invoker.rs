use vstd::prelude::*;
use vstd::std_specs::cmp::PartialEqSpec;

verus! {

/// How long a registered handler stays active.
#[derive(Clone, Copy, PartialEq, Eq, Structural, Debug)]
pub enum CallbackLifeTime {
    /// Stays registered until removed or cleared.
    Persistent,
    /// Fires once, then is removed.
    Once,
}

/// A registration as a plain value: the handler, its lifetime, and for a keyed registration
/// its identity key (for an object method, the object's and the method's addresses).
pub type Registration<H> = (H, CallbackLifeTime, Option<(usize, usize)>);

/// Two handlers are the same registration: `==` on them, when `H`'s `==` has a spec.
pub open spec fn same_handler<H: PartialEq>(a: H, b: H) -> bool {
    a.eq_spec(&b)
}

/// `e` is a plain (unkeyed) registration of handler `f`.
pub open spec fn plain_of<H: PartialEq>(e: Registration<H>, f: H) -> bool {
    e.2 is None && same_handler(e.0, f)
}

/// The registrations that survive an invocation: the persistent ones, in order.
pub open spec fn after_invoke<H>(s: Seq<Registration<H>>) -> Seq<Registration<H>> {
    s.filter(|e: Registration<H>| e.1 == CallbackLifeTime::Persistent)
}

/// The registrations after registering plain handler `f` with lifetime `mode`, when `==` on
/// handlers has a spec: unchanged if `f` is already registered plainly, else `f` appended.
pub open spec fn after_add<H: PartialEq>(
    s: Seq<Registration<H>>,
    f: H,
    mode: CallbackLifeTime,
) -> Seq<Registration<H>> {
    if exists|i: int| 0 <= i < s.len() && plain_of(s[i], f) {
        s
    } else {
        s.push((f, mode, None))
    }
}

/// Some registration carries `key`.
pub open spec fn has_key<H>(s: Seq<Registration<H>>, key: (usize, usize)) -> bool {
    exists|i: int| 0 <= i < s.len() && s[i].2 == Some(key)
}

/// The registrations after registering `h` under `key` with lifetime `mode`: unchanged if
/// `key` is already registered, else appended.
pub open spec fn after_add_keyed<H>(
    s: Seq<Registration<H>>,
    key: (usize, usize),
    h: H,
    mode: CallbackLifeTime,
) -> Seq<Registration<H>> {
    if has_key(s, key) {
        s
    } else {
        s.push((h, mode, Some(key)))
    }
}

/// Registering a plain handler a second time, in any mode, changes nothing.
pub proof fn law_add_twice<H: PartialEq>(
    s: Seq<Registration<H>>,
    f: H,
    m1: CallbackLifeTime,
    m2: CallbackLifeTime,
)
    requires
        same_handler(f, f),
    ensures
        after_add(after_add(s, f, m1), f, m2) == after_add(s, f, m1),
{
    let s1 = after_add(s, f, m1);
    if !(exists|i: int| 0 <= i < s.len() && plain_of(s[i], f)) {
        assert(plain_of(s1[s.len() as int], f));
    }
}

/// Registering a key a second time, with any handler and mode, changes nothing.
pub proof fn law_add_keyed_twice<H>(
    s: Seq<Registration<H>>,
    key: (usize, usize),
    h1: H,
    m1: CallbackLifeTime,
    h2: H,
    m2: CallbackLifeTime,
)
    ensures
        after_add_keyed(after_add_keyed(s, key, h1, m1), key, h2, m2) == after_add_keyed(
            s,
            key,
            h1,
            m1,
        ),
{
    let s1 = after_add_keyed(s, key, h1, m1);
    if !has_key(s, key) {
        assert(s1[s.len() as int].2 == Some(key));
    }
}

/// A second invocation keeps every handler the first one kept.
pub proof fn law_invoke_idempotent<H>(s: Seq<Registration<H>>)
    ensures
        after_invoke(after_invoke(s)) == after_invoke(s),
    decreases s.len(),
{
    let p = |e: Registration<H>| e.1 == CallbackLifeTime::Persistent;
    if s.len() == 0 {
        assert(s.filter(p) =~= s) by {
            reveal(Seq::filter);
        }
        assert(after_invoke(s) == s);
    } else {
        let t = s.drop_last();
        law_invoke_idempotent(t);
        assert(s == t.push(s.last()));
        t.lemma_filter_push(s.last(), p);
        if p(s.last()) {
            t.filter(p).lemma_filter_push(s.last(), p);
        }
    }
}

/// Once-handlers never survive an invocation; persistent ones all do, in their order.
pub proof fn law_invoke_keeps_persistent<H>(s: Seq<Registration<H>>)
    ensures
        forall|i: int|
            0 <= i < after_invoke(s).len() ==> (#[trigger] after_invoke(s)[i]).1
                == CallbackLifeTime::Persistent,
        after_invoke(s).len() <= s.len(),
{
    let p = |e: Registration<H>| e.1 == CallbackLifeTime::Persistent;
    s.lemma_filter_len(p);
    assert forall|i: int| 0 <= i < after_invoke(s).len() implies (#[trigger] after_invoke(s)[i]).1
        == CallbackLifeTime::Persistent by {
        s.lemma_filter_pred(p, i);
    }
}

/// One registered handler of an `Action`.
pub enum SlotT<H> {
    /// A plain handler, identified by the handler itself.
    Static { f: H, mode: CallbackLifeTime },
    /// A handler identified by a key (an object method: the object's and the method's
    /// addresses).
    Keyed { key: (usize, usize), f: H, mode: CallbackLifeTime },
}

impl<H: Copy> SlotT<H> {
    pub open spec fn handler(&self) -> H {
        match self {
            SlotT::Static { f, .. } => *f,
            SlotT::Keyed { f, .. } => *f,
        }
    }

    pub open spec fn lifetime(&self) -> CallbackLifeTime {
        match self {
            SlotT::Static { mode, .. } => *mode,
            SlotT::Keyed { mode, .. } => *mode,
        }
    }

    pub open spec fn key_of(&self) -> Option<(usize, usize)> {
        match self {
            SlotT::Static { .. } => None,
            SlotT::Keyed { key, .. } => Some(*key),
        }
    }

    pub open spec fn registration(&self) -> Registration<H> {
        (self.handler(), self.lifetime(), self.key_of())
    }

    /// Identity key of a keyed registration; `None` for a plain one.
    pub fn key(&self) -> (r: Option<(usize, usize)>)
        ensures
            r == self.key_of(),
    {
        match self {
            SlotT::Static { .. } => None,
            SlotT::Keyed { key, .. } => Some(*key),
        }
    }

    /// The handler to call.
    pub fn target(&self) -> (r: H)
        ensures
            r == self.handler(),
    {
        match self {
            SlotT::Static { f, .. } => *f,
            SlotT::Keyed { f, .. } => *f,
        }
    }

    pub fn mode(&self) -> (r: CallbackLifeTime)
        ensures
            r == self.lifetime(),
    {
        match self {
            SlotT::Static { mode, .. } => *mode,
            SlotT::Keyed { mode, .. } => *mode,
        }
    }

    /// The slot that `e` stands for.
    fn from_parts(f: H, mode: CallbackLifeTime, key: Option<(usize, usize)>) -> (s: Self)
        ensures
            s.registration() == (f, mode, key),
    {
        match key {
            None => SlotT::Static { f, mode },
            Some(k) => SlotT::Keyed { key: k, f, mode },
        }
    }
}

/// Multicast delegate taking one `&T` argument; `H` is the handler type, by default
/// `fn(&T)`.
pub struct Action<T, H = fn(&T)> {
    slots: Vec<SlotT<H>>,
    _arg: core::marker::PhantomData<T>,
}

impl<T, H: Copy> View for Action<T, H> {
    type V = Seq<Registration<H>>;

    /// Registrations, in registration order.
    closed spec fn view(&self) -> Seq<Registration<H>> {
        self.slots@.map_values(|s: SlotT<H>| s.registration())
    }
}

impl<T, H: Copy> Action<T, H> {
    /// No handler registered.
    pub fn new() -> (a: Self)
        ensures
            a@ == Seq::<Registration<H>>::empty(),
    {
        let a = Action { slots: Vec::new(), _arg: core::marker::PhantomData };
        assert(a@ =~= Seq::<Registration<H>>::empty());
        a
    }

    /// No handler registered; room reserved for `n`.
    pub fn with_capacity(n: usize) -> (a: Self)
        ensures
            a@ == Seq::<Registration<H>>::empty(),
    {
        let a = Action { slots: Vec::with_capacity(n), _arg: core::marker::PhantomData };
        assert(a@ =~= Seq::<Registration<H>>::empty());
        a
    }

    /// Number of registered handlers.
    pub fn len(&self) -> (r: usize)
        ensures
            r == self@.len(),
    {
        self.slots.len()
    }

    pub fn is_empty(&self) -> (r: bool)
        ensures
            r == (self@.len() == 0),
    {
        self.slots.len() == 0
    }

    /// Unregisters every handler.
    pub fn clear(&mut self)
        ensures
            final(self)@ == Seq::<Registration<H>>::empty(),
    {
        self.slots.clear();
        assert(self@ =~= Seq::<Registration<H>>::empty());
    }

    /// Registers `h` under `key` with lifetime `mode`, unless a registration with `key`
    /// exists (in any mode); tells whether it was added.
    pub fn add_keyed(&mut self, key: (usize, usize), h: H, mode: CallbackLifeTime) -> (added: bool)
        ensures
            added <==> !has_key(old(self)@, key),
            final(self)@ == after_add_keyed(old(self)@, key, h, mode),
    {
        let n = self.slots.len();
        let mut i: usize = 0;
        while i < n
            invariant
                n == self.slots@.len(),
                self@ == old(self)@,
                i <= n,
                forall|j: int| 0 <= j < i ==> #[trigger] old(self)@[j].2 != Some(key),
            decreases n - i,
        {
            let k = self.slots[i].key();
            assert(k == old(self)@[i as int].2);
            match k {
                Some(k) => {
                    if k.0 == key.0 && k.1 == key.1 {
                        return false;
                    }
                },
                None => {},
            }
            i = i + 1;
        }
        self.slots.push(SlotT::Keyed { key, f: h, mode });
        assert(self@ =~= old(self)@.push((h, mode, Some(key))));
        true
    }

    /// Unregisters the registration with `key` (in any mode).
    pub fn remove_keyed(&mut self, key: (usize, usize))
        ensures
            final(self)@ == old(self)@.filter(|e: Registration<H>| e.2 != Some(key)),
    {
        let n = self.slots.len();
        let mut kept: Vec<SlotT<H>> = Vec::new();
        let mut i: usize = 0;
        while i < n
            invariant
                n == self.slots@.len(),
                self@ == old(self)@,
                i <= n,
                kept@.map_values(|s: SlotT<H>| s.registration()) == old(self)@.take(
                    i as int,
                ).filter(|e: Registration<H>| e.2 != Some(key)),
            decreases n - i,
        {
            let k = self.slots[i].key();
            let f = self.slots[i].target();
            let m = self.slots[i].mode();
            proof {
                let p = |e: Registration<H>| e.2 != Some(key);
                old(self)@.take(i as int).lemma_filter_push(old(self)@[i as int], p);
                assert(old(self)@.take(i + 1) =~= old(self)@.take(i as int).push(
                    old(self)@[i as int],
                ));
            }
            let ghost before = kept@;
            let keep = match k {
                Some(k) => !(k.0 == key.0 && k.1 == key.1),
                None => true,
            };
            if keep {
                kept.push(SlotT::from_parts(f, m, k));
                proof {
                    assert(kept@.map_values(|s: SlotT<H>| s.registration()) =~= before.map_values(
                        |s: SlotT<H>| s.registration(),
                    ).push((f, m, k)));
                }
            }
            i = i + 1;
        }
        self.slots = kept;
        assert(old(self)@.take(n as int) =~= old(self)@);
    }

    /// Hands every handler to `call` with `arg`, in registration order, then drops the handlers
    /// registered to fire once.
    pub fn invoke_with<F: Fn(&H, &T)>(&mut self, arg: &T, call: F)
        requires
            forall|i: int| 0 <= i < old(self)@.len() ==> call_requires(call, (&old(self)@[i].0, arg)),
        ensures
            final(self)@ == after_invoke(old(self)@),
            forall|i: int|
                0 <= i < old(self)@.len() ==> call_ensures(call, (&(#[trigger] old(self)@[i]).0, arg), ()),
    {
        let n = self.slots.len();
        let mut kept: Vec<SlotT<H>> = Vec::new();
        let mut i: usize = 0;
        while i < n
            invariant
                n == self.slots@.len(),
                self@ == old(self)@,
                i <= n,
                forall|j: int| 0 <= j < n ==> call_requires(call, (&old(self)@[j].0, arg)),
                forall|j: int| 0 <= j < i ==> call_ensures(call, (&(#[trigger] old(self)@[j]).0, arg), ()),
                kept@.map_values(|s: SlotT<H>| s.registration()) == after_invoke(
                    old(self)@.take(i as int),
                ),
            decreases n - i,
        {
            let h = self.slots[i].target();
            let m = self.slots[i].mode();
            let k = self.slots[i].key();
            assert(old(self)@[i as int] == (h, m, k));
            call(&h, arg);
            proof {
                let p = |e: Registration<H>| e.1 == CallbackLifeTime::Persistent;
                old(self)@.take(i as int).lemma_filter_push(old(self)@[i as int], p);
                assert(old(self)@.take(i + 1) =~= old(self)@.take(i as int).push(
                    old(self)@[i as int],
                ));
            }
            let ghost before = kept@;
            if m == CallbackLifeTime::Persistent {
                kept.push(SlotT::from_parts(h, m, k));
                proof {
                    assert(kept@.map_values(|s: SlotT<H>| s.registration()) =~= before.map_values(
                        |s: SlotT<H>| s.registration(),
                    ).push((h, m, k)));
                }
            }
            i = i + 1;
        }
        self.slots = kept;
        assert(old(self)@.take(n as int) =~= old(self)@);
    }
}

impl<T, H: Fn(&T) + Copy + PartialEq> Action<T, H> {
    /// Registers `f` as persistent; ignored if `f` is already registered plainly (in any mode).
    pub fn add_fn(&mut self, f: H)
        ensures
            final(self)@ == old(self)@ || final(self)@ == old(self)@.push(
                (f, CallbackLifeTime::Persistent, None),
            ),
            (forall|i: int| 0 <= i < old(self)@.len() ==> (#[trigger] old(self)@[i]).2 is Some)
                ==> final(self)@ == old(self)@.push((f, CallbackLifeTime::Persistent, None)),
            H::obeys_eq_spec() ==> final(self)@ == after_add(old(self)@, f, CallbackLifeTime::Persistent),
    {
        self.add_fn_with_mode(f, CallbackLifeTime::Persistent);
    }

    /// Registers `f` to fire once; ignored if `f` is already registered plainly (in any mode).
    pub fn add_fn_once(&mut self, f: H)
        ensures
            final(self)@ == old(self)@ || final(self)@ == old(self)@.push(
                (f, CallbackLifeTime::Once, None),
            ),
            (forall|i: int| 0 <= i < old(self)@.len() ==> (#[trigger] old(self)@[i]).2 is Some)
                ==> final(self)@ == old(self)@.push((f, CallbackLifeTime::Once, None)),
            H::obeys_eq_spec() ==> final(self)@ == after_add(old(self)@, f, CallbackLifeTime::Once),
    {
        self.add_fn_with_mode(f, CallbackLifeTime::Once);
    }

    /// Registers `f` with lifetime `mode`, unless `f` is already registered plainly (in any
    /// mode). With no plain registration yet (an empty list, say), `f` is always appended.
    pub fn add_fn_with_mode(&mut self, f: H, mode: CallbackLifeTime)
        ensures
            final(self)@ == old(self)@ || final(self)@ == old(self)@.push((f, mode, None)),
            (forall|i: int| 0 <= i < old(self)@.len() ==> (#[trigger] old(self)@[i]).2 is Some)
                ==> final(self)@ == old(self)@.push((f, mode, None)),
            H::obeys_eq_spec() ==> final(self)@ == after_add(old(self)@, f, mode),
    {
        let n = self.slots.len();
        let mut i: usize = 0;
        while i < n
            invariant
                n == self.slots@.len(),
                self@ == old(self)@,
                i <= n,
                H::obeys_eq_spec() ==> forall|j: int|
                    0 <= j < i ==> !plain_of(#[trigger] old(self)@[j], f),
            decreases n - i,
        {
            let k = self.slots[i].key();
            let g = self.slots[i].target();
            assert(old(self)@[i as int].0 == g && old(self)@[i as int].2 == k);
            if k.is_none() && g == f {
                assert(H::obeys_eq_spec() ==> plain_of(old(self)@[i as int], f));
                return;
            }
            i = i + 1;
        }
        self.slots.push(SlotT::Static { f, mode });
        assert(self@ =~= old(self)@.push((f, mode, None)));
    }

    /// Unregisters plain handler `f` (in any mode); keyed registrations stay.
    pub fn remove_fn(&mut self, f: H)
        ensures
            final(self)@.len() <= old(self)@.len(),
            H::obeys_eq_spec() ==> final(self)@ == old(self)@.filter(
                |e: Registration<H>| !plain_of(e, f),
            ),
    {
        let n = self.slots.len();
        let mut kept: Vec<SlotT<H>> = Vec::new();
        let mut i: usize = 0;
        while i < n
            invariant
                n == self.slots@.len(),
                self@ == old(self)@,
                i <= n,
                kept@.len() <= i,
                H::obeys_eq_spec() ==> kept@.map_values(|s: SlotT<H>| s.registration())
                    == old(self)@.take(i as int).filter(|e: Registration<H>| !plain_of(e, f)),
            decreases n - i,
        {
            let k = self.slots[i].key();
            let g = self.slots[i].target();
            let m = self.slots[i].mode();
            proof {
                let p = |e: Registration<H>| !plain_of(e, f);
                old(self)@.take(i as int).lemma_filter_push(old(self)@[i as int], p);
                assert(old(self)@.take(i + 1) =~= old(self)@.take(i as int).push(
                    old(self)@[i as int],
                ));
            }
            let ghost before = kept@;
            if !(k.is_none() && g == f) {
                kept.push(SlotT::from_parts(g, m, k));
                proof {
                    assert(kept@.map_values(|s: SlotT<H>| s.registration()) =~= before.map_values(
                        |s: SlotT<H>| s.registration(),
                    ).push((g, m, k)));
                }
            }
            i = i + 1;
        }
        self.slots = kept;
        assert(old(self)@.take(n as int) =~= old(self)@);
    }

    /// Calls every handler with `arg` in registration order, then drops the handlers registered
    /// to fire once.
    pub fn invoke(&mut self, arg: &T)
        requires
            forall|i: int| 0 <= i < old(self)@.len() ==> call_requires(old(self)@[i].0, (arg,)),
        ensures
            final(self)@ == after_invoke(old(self)@),
            forall|i: int|
                0 <= i < old(self)@.len() ==> call_ensures(#[trigger] old(self)@[i].0, (arg,), ()),
    {
        let n = self.slots.len();
        let mut kept: Vec<SlotT<H>> = Vec::new();
        let mut i: usize = 0;
        while i < n
            invariant
                n == self.slots@.len(),
                self@ == old(self)@,
                i <= n,
                forall|j: int| 0 <= j < n ==> call_requires(old(self)@[j].0, (arg,)),
                forall|j: int| 0 <= j < i ==> call_ensures(#[trigger] old(self)@[j].0, (arg,), ()),
                kept@.map_values(|s: SlotT<H>| s.registration()) == after_invoke(
                    old(self)@.take(i as int),
                ),
            decreases n - i,
        {
            let h = self.slots[i].target();
            let m = self.slots[i].mode();
            let k = self.slots[i].key();
            assert(old(self)@[i as int] == (h, m, k));
            h(arg);
            proof {
                let p = |e: Registration<H>| e.1 == CallbackLifeTime::Persistent;
                old(self)@.take(i as int).lemma_filter_push(old(self)@[i as int], p);
                assert(old(self)@.take(i + 1) =~= old(self)@.take(i as int).push(
                    old(self)@[i as int],
                ));
            }
            let ghost before = kept@;
            if m == CallbackLifeTime::Persistent {
                kept.push(SlotT::from_parts(h, m, k));
                proof {
                    assert(kept@.map_values(|s: SlotT<H>| s.registration()) =~= before.map_values(
                        |s: SlotT<H>| s.registration(),
                    ).push((h, m, k)));
                }
            }
            i = i + 1;
        }
        self.slots = kept;
        assert(old(self)@.take(n as int) =~= old(self)@);
    }
}

impl<T, H: Copy> Default for Action<T, H> {
    fn default() -> (a: Self)
        ensures
            a@ == Seq::<Registration<H>>::empty(),
    {
        Self::new()
    }
}

/// One registered handler of an `Action0`.
pub enum Slot0<H> {
    /// A plain handler, identified by the handler itself.
    Static { f: H, mode: CallbackLifeTime },
    /// A handler identified by a key (an object method: the object's and the method's
    /// addresses).
    Keyed { key: (usize, usize), f: H, mode: CallbackLifeTime },
}

impl<H: Copy> Slot0<H> {
    pub open spec fn handler(&self) -> H {
        match self {
            Slot0::Static { f, .. } => *f,
            Slot0::Keyed { f, .. } => *f,
        }
    }

    pub open spec fn lifetime(&self) -> CallbackLifeTime {
        match self {
            Slot0::Static { mode, .. } => *mode,
            Slot0::Keyed { mode, .. } => *mode,
        }
    }

    pub open spec fn key_of(&self) -> Option<(usize, usize)> {
        match self {
            Slot0::Static { .. } => None,
            Slot0::Keyed { key, .. } => Some(*key),
        }
    }

    pub open spec fn registration(&self) -> Registration<H> {
        (self.handler(), self.lifetime(), self.key_of())
    }

    /// Identity key of a keyed registration; `None` for a plain one.
    pub fn key(&self) -> (r: Option<(usize, usize)>)
        ensures
            r == self.key_of(),
    {
        match self {
            Slot0::Static { .. } => None,
            Slot0::Keyed { key, .. } => Some(*key),
        }
    }

    /// The handler to call.
    pub fn target(&self) -> (r: H)
        ensures
            r == self.handler(),
    {
        match self {
            Slot0::Static { f, .. } => *f,
            Slot0::Keyed { f, .. } => *f,
        }
    }

    pub fn mode(&self) -> (r: CallbackLifeTime)
        ensures
            r == self.lifetime(),
    {
        match self {
            Slot0::Static { mode, .. } => *mode,
            Slot0::Keyed { mode, .. } => *mode,
        }
    }

    /// The slot that `e` stands for.
    fn from_parts(f: H, mode: CallbackLifeTime, key: Option<(usize, usize)>) -> (s: Self)
        ensures
            s.registration() == (f, mode, key),
    {
        match key {
            None => Slot0::Static { f, mode },
            Some(k) => Slot0::Keyed { key: k, f, mode },
        }
    }
}

/// Multicast delegate taking no argument; `H` is the handler type, by default `fn()`.
pub struct Action0<H = fn()> {
    slots: Vec<Slot0<H>>,
}

impl< H: Copy> View for Action0<H> {
    type V = Seq<Registration<H>>;

    /// Registrations, in registration order.
    closed spec fn view(&self) -> Seq<Registration<H>> {
        self.slots@.map_values(|s: Slot0<H>| s.registration())
    }
}

impl< H: Copy> Action0<H> {
    /// No handler registered.
    pub fn new() -> (a: Self)
        ensures
            a@ == Seq::<Registration<H>>::empty(),
    {
        let a = Action0 { slots: Vec::new() };
        assert(a@ =~= Seq::<Registration<H>>::empty());
        a
    }

    /// No handler registered; room reserved for `n`.
    pub fn with_capacity(n: usize) -> (a: Self)
        ensures
            a@ == Seq::<Registration<H>>::empty(),
    {
        let a = Action0 { slots: Vec::with_capacity(n) };
        assert(a@ =~= Seq::<Registration<H>>::empty());
        a
    }

    /// Number of registered handlers.
    pub fn len(&self) -> (r: usize)
        ensures
            r == self@.len(),
    {
        self.slots.len()
    }

    pub fn is_empty(&self) -> (r: bool)
        ensures
            r == (self@.len() == 0),
    {
        self.slots.len() == 0
    }

    /// Unregisters every handler.
    pub fn clear(&mut self)
        ensures
            final(self)@ == Seq::<Registration<H>>::empty(),
    {
        self.slots.clear();
        assert(self@ =~= Seq::<Registration<H>>::empty());
    }

    /// Registers `h` under `key` with lifetime `mode`, unless a registration with `key`
    /// exists (in any mode); tells whether it was added.
    pub fn add_keyed(&mut self, key: (usize, usize), h: H, mode: CallbackLifeTime) -> (added: bool)
        ensures
            added <==> !has_key(old(self)@, key),
            final(self)@ == after_add_keyed(old(self)@, key, h, mode),
    {
        let n = self.slots.len();
        let mut i: usize = 0;
        while i < n
            invariant
                n == self.slots@.len(),
                self@ == old(self)@,
                i <= n,
                forall|j: int| 0 <= j < i ==> #[trigger] old(self)@[j].2 != Some(key),
            decreases n - i,
        {
            let k = self.slots[i].key();
            assert(k == old(self)@[i as int].2);
            match k {
                Some(k) => {
                    if k.0 == key.0 && k.1 == key.1 {
                        return false;
                    }
                },
                None => {},
            }
            i = i + 1;
        }
        self.slots.push(Slot0::Keyed { key, f: h, mode });
        assert(self@ =~= old(self)@.push((h, mode, Some(key))));
        true
    }

    /// Unregisters the registration with `key` (in any mode).
    pub fn remove_keyed(&mut self, key: (usize, usize))
        ensures
            final(self)@ == old(self)@.filter(|e: Registration<H>| e.2 != Some(key)),
    {
        let n = self.slots.len();
        let mut kept: Vec<Slot0<H>> = Vec::new();
        let mut i: usize = 0;
        while i < n
            invariant
                n == self.slots@.len(),
                self@ == old(self)@,
                i <= n,
                kept@.map_values(|s: Slot0<H>| s.registration()) == old(self)@.take(
                    i as int,
                ).filter(|e: Registration<H>| e.2 != Some(key)),
            decreases n - i,
        {
            let k = self.slots[i].key();
            let f = self.slots[i].target();
            let m = self.slots[i].mode();
            proof {
                let p = |e: Registration<H>| e.2 != Some(key);
                old(self)@.take(i as int).lemma_filter_push(old(self)@[i as int], p);
                assert(old(self)@.take(i + 1) =~= old(self)@.take(i as int).push(
                    old(self)@[i as int],
                ));
            }
            let ghost before = kept@;
            let keep = match k {
                Some(k) => !(k.0 == key.0 && k.1 == key.1),
                None => true,
            };
            if keep {
                kept.push(Slot0::from_parts(f, m, k));
                proof {
                    assert(kept@.map_values(|s: Slot0<H>| s.registration()) =~= before.map_values(
                        |s: Slot0<H>| s.registration(),
                    ).push((f, m, k)));
                }
            }
            i = i + 1;
        }
        self.slots = kept;
        assert(old(self)@.take(n as int) =~= old(self)@);
    }

    /// Hands every handler to `call`, in registration order, then drops the handlers
    /// registered to fire once.
    pub fn invoke_with<F: Fn(&H)>(&mut self, call: F)
        requires
            forall|i: int| 0 <= i < old(self)@.len() ==> call_requires(call, (&old(self)@[i].0,)),
        ensures
            final(self)@ == after_invoke(old(self)@),
            forall|i: int|
                0 <= i < old(self)@.len() ==> call_ensures(call, (&(#[trigger] old(self)@[i]).0,), ()),
    {
        let n = self.slots.len();
        let mut kept: Vec<Slot0<H>> = Vec::new();
        let mut i: usize = 0;
        while i < n
            invariant
                n == self.slots@.len(),
                self@ == old(self)@,
                i <= n,
                forall|j: int| 0 <= j < n ==> call_requires(call, (&old(self)@[j].0,)),
                forall|j: int| 0 <= j < i ==> call_ensures(call, (&(#[trigger] old(self)@[j]).0,), ()),
                kept@.map_values(|s: Slot0<H>| s.registration()) == after_invoke(
                    old(self)@.take(i as int),
                ),
            decreases n - i,
        {
            let h = self.slots[i].target();
            let m = self.slots[i].mode();
            let k = self.slots[i].key();
            assert(old(self)@[i as int] == (h, m, k));
            call(&h);
            proof {
                let p = |e: Registration<H>| e.1 == CallbackLifeTime::Persistent;
                old(self)@.take(i as int).lemma_filter_push(old(self)@[i as int], p);
                assert(old(self)@.take(i + 1) =~= old(self)@.take(i as int).push(
                    old(self)@[i as int],
                ));
            }
            let ghost before = kept@;
            if m == CallbackLifeTime::Persistent {
                kept.push(Slot0::from_parts(h, m, k));
                proof {
                    assert(kept@.map_values(|s: Slot0<H>| s.registration()) =~= before.map_values(
                        |s: Slot0<H>| s.registration(),
                    ).push((h, m, k)));
                }
            }
            i = i + 1;
        }
        self.slots = kept;
        assert(old(self)@.take(n as int) =~= old(self)@);
    }
}

impl< H: Fn() + Copy + PartialEq> Action0<H> {
    /// Registers `f` as persistent; ignored if `f` is already registered plainly (in any mode).
    pub fn add_fn(&mut self, f: H)
        ensures
            final(self)@ == old(self)@ || final(self)@ == old(self)@.push(
                (f, CallbackLifeTime::Persistent, None),
            ),
            (forall|i: int| 0 <= i < old(self)@.len() ==> (#[trigger] old(self)@[i]).2 is Some)
                ==> final(self)@ == old(self)@.push((f, CallbackLifeTime::Persistent, None)),
            H::obeys_eq_spec() ==> final(self)@ == after_add(old(self)@, f, CallbackLifeTime::Persistent),
    {
        self.add_fn_with_mode(f, CallbackLifeTime::Persistent);
    }

    /// Registers `f` to fire once; ignored if `f` is already registered plainly (in any mode).
    pub fn add_fn_once(&mut self, f: H)
        ensures
            final(self)@ == old(self)@ || final(self)@ == old(self)@.push(
                (f, CallbackLifeTime::Once, None),
            ),
            (forall|i: int| 0 <= i < old(self)@.len() ==> (#[trigger] old(self)@[i]).2 is Some)
                ==> final(self)@ == old(self)@.push((f, CallbackLifeTime::Once, None)),
            H::obeys_eq_spec() ==> final(self)@ == after_add(old(self)@, f, CallbackLifeTime::Once),
    {
        self.add_fn_with_mode(f, CallbackLifeTime::Once);
    }

    /// Registers `f` with lifetime `mode`, unless `f` is already registered plainly (in any
    /// mode). With no plain registration yet (an empty list, say), `f` is always appended.
    pub fn add_fn_with_mode(&mut self, f: H, mode: CallbackLifeTime)
        ensures
            final(self)@ == old(self)@ || final(self)@ == old(self)@.push((f, mode, None)),
            (forall|i: int| 0 <= i < old(self)@.len() ==> (#[trigger] old(self)@[i]).2 is Some)
                ==> final(self)@ == old(self)@.push((f, mode, None)),
            H::obeys_eq_spec() ==> final(self)@ == after_add(old(self)@, f, mode),
    {
        let n = self.slots.len();
        let mut i: usize = 0;
        while i < n
            invariant
                n == self.slots@.len(),
                self@ == old(self)@,
                i <= n,
                H::obeys_eq_spec() ==> forall|j: int|
                    0 <= j < i ==> !plain_of(#[trigger] old(self)@[j], f),
            decreases n - i,
        {
            let k = self.slots[i].key();
            let g = self.slots[i].target();
            assert(old(self)@[i as int].0 == g && old(self)@[i as int].2 == k);
            if k.is_none() && g == f {
                assert(H::obeys_eq_spec() ==> plain_of(old(self)@[i as int], f));
                return;
            }
            i = i + 1;
        }
        self.slots.push(Slot0::Static { f, mode });
        assert(self@ =~= old(self)@.push((f, mode, None)));
    }

    /// Unregisters plain handler `f` (in any mode); keyed registrations stay.
    pub fn remove_fn(&mut self, f: H)
        ensures
            final(self)@.len() <= old(self)@.len(),
            H::obeys_eq_spec() ==> final(self)@ == old(self)@.filter(
                |e: Registration<H>| !plain_of(e, f),
            ),
    {
        let n = self.slots.len();
        let mut kept: Vec<Slot0<H>> = Vec::new();
        let mut i: usize = 0;
        while i < n
            invariant
                n == self.slots@.len(),
                self@ == old(self)@,
                i <= n,
                kept@.len() <= i,
                H::obeys_eq_spec() ==> kept@.map_values(|s: Slot0<H>| s.registration())
                    == old(self)@.take(i as int).filter(|e: Registration<H>| !plain_of(e, f)),
            decreases n - i,
        {
            let k = self.slots[i].key();
            let g = self.slots[i].target();
            let m = self.slots[i].mode();
            proof {
                let p = |e: Registration<H>| !plain_of(e, f);
                old(self)@.take(i as int).lemma_filter_push(old(self)@[i as int], p);
                assert(old(self)@.take(i + 1) =~= old(self)@.take(i as int).push(
                    old(self)@[i as int],
                ));
            }
            let ghost before = kept@;
            if !(k.is_none() && g == f) {
                kept.push(Slot0::from_parts(g, m, k));
                proof {
                    assert(kept@.map_values(|s: Slot0<H>| s.registration()) =~= before.map_values(
                        |s: Slot0<H>| s.registration(),
                    ).push((g, m, k)));
                }
            }
            i = i + 1;
        }
        self.slots = kept;
        assert(old(self)@.take(n as int) =~= old(self)@);
    }

    /// Calls every handler in registration order, then drops the handlers registered
    /// to fire once.
    pub fn invoke(&mut self)
        requires
            forall|i: int| 0 <= i < old(self)@.len() ==> call_requires(old(self)@[i].0, ()),
        ensures
            final(self)@ == after_invoke(old(self)@),
            forall|i: int|
                0 <= i < old(self)@.len() ==> call_ensures(#[trigger] old(self)@[i].0, (), ()),
    {
        let n = self.slots.len();
        let mut kept: Vec<Slot0<H>> = Vec::new();
        let mut i: usize = 0;
        while i < n
            invariant
                n == self.slots@.len(),
                self@ == old(self)@,
                i <= n,
                forall|j: int| 0 <= j < n ==> call_requires(old(self)@[j].0, ()),
                forall|j: int| 0 <= j < i ==> call_ensures(#[trigger] old(self)@[j].0, (), ()),
                kept@.map_values(|s: Slot0<H>| s.registration()) == after_invoke(
                    old(self)@.take(i as int),
                ),
            decreases n - i,
        {
            let h = self.slots[i].target();
            let m = self.slots[i].mode();
            let k = self.slots[i].key();
            assert(old(self)@[i as int] == (h, m, k));
            h();
            proof {
                let p = |e: Registration<H>| e.1 == CallbackLifeTime::Persistent;
                old(self)@.take(i as int).lemma_filter_push(old(self)@[i as int], p);
                assert(old(self)@.take(i + 1) =~= old(self)@.take(i as int).push(
                    old(self)@[i as int],
                ));
            }
            let ghost before = kept@;
            if m == CallbackLifeTime::Persistent {
                kept.push(Slot0::from_parts(h, m, k));
                proof {
                    assert(kept@.map_values(|s: Slot0<H>| s.registration()) =~= before.map_values(
                        |s: Slot0<H>| s.registration(),
                    ).push((h, m, k)));
                }
            }
            i = i + 1;
        }
        self.slots = kept;
        assert(old(self)@.take(n as int) =~= old(self)@);
    }
}

impl< H: Copy> Default for Action0<H> {
    fn default() -> (a: Self)
        ensures
            a@ == Seq::<Registration<H>>::empty(),
    {
        Self::new()
    }
}

} // verus!
