//! The store: a mapping from keys to entries.

use vstd::prelude::*;
use vstd::hash_map::StringHashMap;

verus! {

/// A mapping from text keys to entries of type `T`.
///
/// The store keeps whatever it is given until the key is overwritten: it
/// never looks into an entry and never drops one on its own.
#[verifier::reject_recursive_types(T)]
pub struct MemDB<T> {
    store: StringHashMap<T>,
}

impl<T> View for MemDB<T> {
    type V = Map<Seq<char>, T>;

    closed spec fn view(&self) -> Map<Seq<char>, T> {
        self.store@
    }
}

impl<T> MemDB<T> {
    /// An empty store.
    pub fn new() -> (db: Self)
        ensures
            db@ == Map::<Seq<char>, T>::empty(),
    {
        MemDB { store: StringHashMap::new() }
    }

    /// The entry under `key`, if there is one. Reading never changes the
    /// store and never judges expiry.
    pub fn get(&self, key: &str) -> (found: Option<&T>)
        ensures
            found == if self@.contains_key(key@) {
                Some(&self@[key@])
            } else {
                None
            },
    {
        self.store.get(key)
    }

    /// Puts `data` under `key`, in place of any entry that was there.
    pub fn set(&mut self, key: String, data: T)
        ensures
            final(self)@ == old(self)@.insert(key@, data),
    {
        self.store.insert(key, data);
    }
}

impl<T: View> MemDB<T> {
    /// The store as a mapping from keys to the values of its entries.
    pub open spec fn model(&self) -> Map<Seq<char>, T::V> {
        self@.map_values(|entry: T| entry@)
    }
}

} // verus!
