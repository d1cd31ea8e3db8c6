use vstd::prelude::*;

verus! {

/// The property enum of a data set: one variant per property, each owning one slot.
pub trait DataSetSchema {
    /// How many properties, hence slots, the set has.
    const TOTAL_PROPERTIES: usize;
}

/// A key type of a data set over the property enum `E`: the slot it owns and how its
/// payload is read out of an `E`.
pub trait DataSetKey<E> {
    /// The payload type of the key's variant.
    type Data;

    /// The slot of this key.
    const INDEX: usize;

    /// The payload, when `val` is this key's variant.
    fn extract(val: &E) -> Option<&Self::Data>;

    /// The payload, mutably, when `val` is this key's variant.
    fn extract_mut(val: &mut E) -> Option<&mut Self::Data>;
}

/// A fixed set of optional properties, one slot per property of `E`, addressed by key types.
pub struct DataSet<E> {
    slots: Vec<Option<E>>,
}

impl<E> View for DataSet<E> {
    type V = Seq<Option<E>>;

    /// Slot `i` holds the value of property `i`, if it was added.
    closed spec fn view(&self) -> Seq<Option<E>> {
        self.slots@
    }
}

/// A sequence of `n` empty slots.
pub open spec fn empty_slots<E>(n: nat) -> Seq<Option<E>> {
    Seq::new(n, |i: int| None::<E>)
}

impl<E: DataSetSchema> DataSet<E> {
    /// One slot per property of `E`.
    pub open spec fn wf(&self) -> bool {
        self@.len() == E::TOTAL_PROPERTIES
    }

    /// A data set with every property absent.
    pub fn new() -> (s: Self)
        ensures
            s.wf(),
            s@ == empty_slots::<E>(E::TOTAL_PROPERTIES as nat),
    {
        let mut slots: Vec<Option<E>> = Vec::new();
        let total: usize = E::TOTAL_PROPERTIES;
        let mut i: usize = 0;
        while i < total
            invariant
                i <= total,
                total == E::TOTAL_PROPERTIES,
                slots@ == empty_slots::<E>(i as nat),
            decreases total - i,
        {
            slots.push(None);
            i = i + 1;
            assert(slots@ =~= empty_slots::<E>(i as nat));
        }
        DataSet { slots }
    }

    /// Whether the property of key `K` is present.
    pub fn contains<K: DataSetKey<E>>(&self, _key: K) -> (r: bool)
        requires
            self.wf(),
            K::INDEX < E::TOTAL_PROPERTIES,
        ensures
            r == self@[K::INDEX as int] is Some,
    {
        self.slots[K::INDEX].is_some()
    }

    /// Stores `val` in the slot of `K`; refused, leaving the set unchanged, when the slot is
    /// already occupied.
    pub fn add<K: DataSetKey<E>>(&mut self, _key: K, val: E) -> (r: Result<(), &'static str>)
        requires
            old(self).wf(),
            K::INDEX < E::TOTAL_PROPERTIES,
        ensures
            final(self).wf(),
            r is Err <==> old(self)@[K::INDEX as int] is Some,
            r is Err ==> final(self)@ == old(self)@,
            r is Ok ==> final(self)@ == old(self)@.update(K::INDEX as int, Some(val)),
    {
        let idx: usize = K::INDEX;
        if self.slots[idx].is_some() {
            Err("slot already occupied - use get_mut() to edit, or remove() first !")
        } else {
            self.slots.set(idx, Some(val));
            Ok(())
        }
    }

    /// Takes the value out of the slot of `K`, leaving it empty.
    pub fn remove<K: DataSetKey<E>>(&mut self, _key: K) -> (r: Option<E>)
        requires
            old(self).wf(),
            K::INDEX < E::TOTAL_PROPERTIES,
        ensures
            final(self).wf(),
            r == old(self)@[K::INDEX as int],
            final(self)@ == old(self)@.update(K::INDEX as int, None),
    {
        let idx: usize = K::INDEX;
        let mut taken: Option<E> = None;
        self.slots.set_and_swap(idx, &mut taken);
        taken
    }

    /// The payload of the property of `K`: `None` when the slot is empty; otherwise what
    /// `K::extract` reads out of the stored value.
    pub fn get<K: DataSetKey<E>>(&self, _key: K) -> (r: Option<&K::Data>)
        requires
            self.wf(),
            K::INDEX < E::TOTAL_PROPERTIES,
        ensures
            self@[K::INDEX as int] is None ==> r is None,
            self@[K::INDEX as int] matches Some(v) ==> call_ensures(
                <K as DataSetKey<E>>::extract,
                (&v,),
                r,
            ),
    {
        let idx: usize = K::INDEX;
        match &self.slots[idx] {
            Some(v) => K::extract(v),
            None => None,
        }
    }

    /// The payload of the property of `K`, mutably: `None`, with the set unchanged, when the
    /// slot is empty; otherwise what `K::extract_mut` hands out of the stored value. Only that
    /// slot can change through the reference.
    pub fn get_mut<K: DataSetKey<E>>(&mut self, _key: K) -> (r: Option<&mut K::Data>)
        requires
            old(self).wf(),
            K::INDEX < E::TOTAL_PROPERTIES,
        ensures
            final(self).wf(),
            old(self)@[K::INDEX as int] is None ==> r is None && final(self)@ == old(self)@,
            old(self)@[K::INDEX as int] matches Some(v) ==> exists|q: &mut E|
                {
                    &&& *q == v
                    &&& call_ensures(<K as DataSetKey<E>>::extract_mut, (q,), r)
                    &&& final(self)@[K::INDEX as int] == Some(*final(q))
                },
            forall|j: int|
                0 <= j < old(self)@.len() && j != K::INDEX ==> final(self)@[j] == old(self)@[j],
    {
        let idx: usize = K::INDEX;
        match self.slots[idx].as_mut() {
            Some(v) => K::extract_mut(v),
            None => None,
        }
    }
}

impl<E: DataSetSchema> Default for DataSet<E> {
    fn default() -> (s: Self)
        ensures
            s.wf(),
            s@ == empty_slots::<E>(E::TOTAL_PROPERTIES as nat),
    {
        Self::new()
    }
}

} // verus!
