use vstd::prelude::*;
use std::collections::hash_map::Entry;
use std::collections::HashMap;
use crate::event::EventQueue;

verus! {

/// The plugin registry: at most one plugin per type key.
pub struct Plugins<P> {
    map: HashMap<u64, P>,
}

impl<P> View for Plugins<P> {
    type V = Map<u64, P>;

    closed spec fn view(&self) -> Map<u64, P> {
        self.map@
    }
}

impl<P> Plugins<P> {
    /// The empty registry.
    pub fn new() -> (r: Self)
        ensures
            r@ == Map::<u64, P>::empty(),
    {
        Plugins { map: HashMap::new() }
    }

    /// Stores `plugin` under `key`, in place of whatever was stored there.
    pub fn add(&mut self, key: u64, plugin: P)
        ensures
            final(self)@ == old(self)@.insert(key, plugin),
    {
        self.map.insert(key, plugin);
    }

    /// Whether a plugin is stored under `key`.
    pub fn contains(&self, key: u64) -> (b: bool)
        ensures
            b == self@.contains_key(key),
    {
        self.map.contains_key(&key)
    }

    /// The plugin stored under exactly this key, if there is one.
    pub fn get(&self, key: u64) -> (r: Option<&P>)
        ensures
            match r {
                Some(p) => self@.contains_key(key) && *p == self@[key],
                None => !self@.contains_key(key),
            },
    {
        self.map.get(&key)
    }

    /// The plugin stored under exactly this key, for changing it in place. Whatever the
    /// caller leaves behind the reference is what the registry then holds under `key`;
    /// nothing else changes.
    pub fn get_mut(&mut self, key: u64) -> (r: Option<&mut P>)
        ensures
            match r {
                Some(p) => old(self)@.contains_key(key) && *p == old(self)@[key] && final(self)@ == old(
                    self,
                )@.insert(key, *final(p)),
                None => !old(self)@.contains_key(key) && final(self)@ == old(self)@,
            },
    {
        match self.map.entry(key) {
            Entry::Occupied(slot) => Some(slot.into_mut()),
            Entry::Vacant(_) => None,
        }
    }
}

/// Everything a handler can be given: the application state, the plugin registry and
/// the queue of deferred events.
pub struct Storage<S, P, E> {
    pub state: S,
    pub plugins: Plugins<P>,
    pub events: EventQueue<E>,
}

} // verus!
