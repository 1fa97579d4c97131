//! A map from names to values.

use vstd::hash_map::StringHashMap;
use vstd::prelude::*;

verus! {

/// A map that is keyed by names.
#[verifier::reject_recursive_types(V)]
pub struct NameMap<V> {
    entries: StringHashMap<V>,
}

impl<V> View for NameMap<V> {
    type V = Map<Seq<char>, V>;

    closed spec fn view(&self) -> Map<Seq<char>, V> {
        self.entries@
    }
}

impl<V> NameMap<V> {
    /// A map without entries.
    pub fn new() -> (res: Self)
        ensures
            res@ == Map::<Seq<char>, V>::empty(),
    {
        NameMap { entries: StringHashMap::new() }
    }

    /// The value of a name.
    pub fn get(&self, name: &str) -> (res: Option<&V>)
        ensures
            match res {
                Some(value) => self@.contains_pair(name@, *value),
                None => !self@.contains_key(name@),
            },
    {
        self.entries.get(name)
    }

    /// Maps a name to a value, in place of the value that it had.
    pub fn insert(&mut self, name: String, value: V)
        ensures
            final(self)@ == old(self)@.insert(name@, value),
    {
        self.entries.insert(name, value);
    }

    /// Takes a name and its value out of the map.
    pub fn remove(&mut self, name: &str)
        ensures
            final(self)@ == old(self)@.remove(name@),
    {
        self.entries.remove(name);
    }
}

/// A name is found under itself, letter for letter, with the value that it was
/// mapped to last. Mapping a name, or taking it out, leaves the others alone.
pub proof fn names_are_kept_apart<V>(
    inserted: &mut NameMap<V>,
    removed: &mut NameMap<V>,
    name: String,
    value: V,
    gone: &str,
    other: Seq<char>,
)
    requires
        call_ensures(NameMap::<V>::insert, (inserted, name, value), ()),
        call_ensures(NameMap::<V>::remove, (removed, gone), ()),
    ensures
        final(inserted)@.contains_pair(name@, value),
        !final(removed)@.contains_key(gone@),
        other != name@ ==> {
            &&& final(inserted)@.contains_key(other) <==> old(inserted)@.contains_key(other)
            &&& final(inserted)@.contains_key(other) ==> final(inserted)@[other] == old(
                inserted,
            )@[other]
        },
        other != gone@ ==> {
            &&& final(removed)@.contains_key(other) <==> old(removed)@.contains_key(other)
            &&& final(removed)@.contains_key(other) ==> final(removed)@[other] == old(
                removed,
            )@[other]
        },
{
}

/// What is found under a name is what the map holds under it, and a new map
/// holds nothing.
pub proof fn names_are_found<V>(
    map: NameMap<V>,
    name: &str,
    found: Option<&V>,
    fresh: NameMap<V>,
    other: Seq<char>,
)
    requires
        call_ensures(NameMap::<V>::get, (&map, name), found),
        call_ensures(NameMap::<V>::new, (), fresh),
    ensures
        found is Some <==> map@.contains_key(name@),
        found matches Some(value) ==> *value == map@[name@],
        !fresh@.contains_key(other),
{
}

} // verus!
