use vstd::prelude::*;

use crate::collection::xy_hash_map::{lemma_entries_map_update, room_for_one_more};
use crate::collection::{fx_mix, fx_str_hash, FxHasher, XyHashMap, XyKey};

verus! {

/// Identity of a trait or enum definition: its name and its number of generic parameters.
#[derive(Clone, Debug)]
pub struct UniqueItemId {
    pub item_name: String,
    pub num_generics: usize,
}

impl View for UniqueItemId {
    type V = (Seq<char>, usize);

    open spec fn view(&self) -> (Seq<char>, usize) {
        (self.item_name@, self.num_generics)
    }
}

impl UniqueItemId {
    pub fn new(item_name: String, num_generics: usize) -> (r: Self)
        ensures
            r.item_name == item_name,
            r.num_generics == num_generics,
    {
        Self { item_name, num_generics }
    }
}

impl XyKey for UniqueItemId {
    /// Hashed as `derive(Hash)` does: the name, then the count.
    open spec fn hash_of(key: (Seq<char>, usize)) -> u64 {
        fx_mix(fx_str_hash(key.0), key.1 as u64)
    }

    fn fx_hash(&self) -> (h: u64) {
        let mut st = FxHasher::new();
        st.write_str(self.item_name.as_str());
        st.write_u64(self.num_generics as u64);
        st.finish()
    }

    fn key_eq(&self, other: &Self) -> (b: bool) {
        self.num_generics == other.num_generics && self.item_name.key_eq(&other.item_name)
    }
}

/// A definition waiting for another: the waiting item and the trait path it was given.
pub type DeferredEntry = (UniqueItemId, String);

/// Definitions that wait for another definition to be seen, keyed by the awaited one.
pub struct DeferredLinks {
    links: XyHashMap<UniqueItemId, Vec<DeferredEntry>>,
}

impl View for DeferredLinks {
    type V = Map<(Seq<char>, usize), Seq<DeferredEntry>>;

    closed spec fn view(&self) -> Map<(Seq<char>, usize), Seq<DeferredEntry>> {
        self.links@.map_values(|v: Vec<DeferredEntry>| v@)
    }
}

impl DeferredLinks {
    pub closed spec fn wf(&self) -> bool {
        self.links.wf()
    }

    /// Number of awaited definitions.
    pub closed spec fn awaited_count(&self) -> nat {
        self.links.key_seq().len()
    }

    /// Number of awaited definitions.
    pub fn awaited(&self) -> (r: usize)
        requires
            self.wf(),
        ensures
            r == self.awaited_count(),
    {
        self.links.len()
    }

    pub fn new() -> (r: Self)
        ensures
            r.wf(),
            r@ == Map::<(Seq<char>, usize), Seq<DeferredEntry>>::empty(),
            r.awaited_count() == 0,
    {
        let r = DeferredLinks { links: XyHashMap::new() };
        assert(r@ =~= Map::<(Seq<char>, usize), Seq<DeferredEntry>>::empty());
        r
    }

    /// Takes out everything waiting for `id`, in the order it was deferred.
    pub fn take_waiting(&mut self, id: &UniqueItemId) -> (r: Vec<DeferredEntry>)
        requires
            old(self).wf(),
        ensures
            final(self).wf(),
            r@ == (if old(self)@.contains_key(id@) {
                old(self)@[id@]
            } else {
                Seq::empty()
            }),
            final(self)@ == old(self)@.remove(id@),
    {
        let r = self.links.remove(id);
        assert(self@ =~= old(self)@.remove(id@));
        match r {
            Some(v) => v,
            None => Vec::new(),
        }
    }
}

/// Records that `waiting` (given `trait_path_str`) is resolved once `needed` is seen.
pub fn defer_link(
    links: &mut DeferredLinks,
    needed: UniqueItemId,
    waiting: UniqueItemId,
    trait_path_str: String,
)
    requires
        old(links).wf(),
        room_for_one_more(old(links).awaited_count() as int),
    ensures
        final(links).wf(),
        final(links)@ == old(links)@.insert(
            needed@,
            (if old(links)@.contains_key(needed@) {
                old(links)@[needed@]
            } else {
                Seq::empty()
            }).push((waiting, trait_path_str)),
        ),
{
    proof {
        links.links.lemma_wf();
    }
    match links.links.get_mut(&needed) {
        Some(list) => {
            list.push((waiting, trait_path_str));
            proof {
                let i = crate::collection::key_index(old(links).links.key_seq(), needed@)->0;
                lemma_entries_map_update(
                    old(links).links.key_seq(),
                    old(links).links.value_seq(),
                    i,
                    links.links.value_seq()[i],
                );
                assert(links@ =~= old(links)@.insert(
                    needed@,
                    old(links)@[needed@].push((waiting, trait_path_str)),
                ));
            }
        },
        None => {
            let mut list: Vec<DeferredEntry> = Vec::new();
            list.push((waiting, trait_path_str));
            links.links.insert(needed, list);
            assert(links@ =~= old(links)@.insert(
                needed@,
                Seq::<DeferredEntry>::empty().push((waiting, trait_path_str)),
            ));
        },
    }
}


} // verus!
