//! Values that the handlers of an event loop share.
use vstd::prelude::*;
use std::collections::hash_map::Entry;
use std::collections::HashMap;
use std::hash::Hash;

verus! {

/// At most one value for each key. The value comes into being when it is first asked for.
pub struct Userdata<K, V> {
    pub slots: HashMap<K, V>,
}

impl<K, V> View for Userdata<K, V> {
    type V = Map<K, V>;

    open spec fn view(&self) -> Map<K, V> {
        self.slots@
    }
}

impl<K: Eq + Hash, V> Userdata<K, V> {
    pub fn new() -> (r: Self)
        ensures
            r@ == Map::<K, V>::empty(),
    {
        Userdata { slots: HashMap::new() }
    }

    /// The value for a key. It is made by `default` where there is none yet, and only then.
    pub fn userdata(&mut self, key: K, default: impl FnOnce() -> V) -> (r: &mut V)
        requires
            vstd::std_specs::hash::obeys_key_model::<K>(),
            !old(self)@.contains_key(key) ==> default.requires(()),
        ensures
            old(self)@.contains_key(key) ==> *r == old(self)@[key],
            !old(self)@.contains_key(key) ==> default.ensures((), *r),
            final(self)@ == old(self)@.insert(key, *final(r)),
    {
        broadcast use vstd::std_specs::hash::group_hash_axioms;

        match self.slots.entry(key) {
            Entry::Occupied(entry) => entry.into_mut(),
            Entry::Vacant(entry) => entry.insert(default()),
        }
    }
}

/// What was left in a slot is there when it is asked for again, and the other slots are untouched.
pub proof fn law_userdata_is_kept<K, V>(slots: Map<K, V>, key: K, value: V, other: K)
    requires
        other != key,
    ensures
        slots.insert(key, value).contains_key(key),
        slots.insert(key, value)[key] == value,
        slots.insert(key, value).contains_key(other) == slots.contains_key(other),
        slots.contains_key(other) ==> slots.insert(key, value)[other] == slots[other],
{
}

} // verus!
