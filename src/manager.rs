//! The registry of text-input states, keyed by the host's widget id and created on first use.
use std::collections::HashMap;
use vstd::prelude::*;

use crate::text_input::TextInputState;

verus! {

broadcast use vstd::std_specs::hash::group_hash_axioms;

/// Every widget's text-input state, by widget id.
pub struct TextInputManager {
    states: HashMap<u64, TextInputState>,
}

impl TextInputManager {
    /// The states by widget id.
    pub closed spec fn view(&self) -> Map<u64, TextInputState> {
        self.states@
    }

    /// Every state in the registry is well formed.
    pub open spec fn wf(&self) -> bool {
        forall|k: u64| #[trigger] self@.contains_key(k) ==> self@[k].wf()
    }

    /// An empty registry.
    pub fn new() -> (r: Self)
        ensures
            r.wf(),
            r@ == Map::<u64, TextInputState>::empty(),
    {
        TextInputManager { states: HashMap::new() }
    }

    /// The state of widget `id`, created empty if the widget has none yet.
    pub fn get_or_create(&mut self, id: u64) -> (r: &mut TextInputState)
        requires
            old(self).wf(),
        ensures
            old(self)@.contains_key(id) ==> *r == old(self)@[id],
            !old(self)@.contains_key(id) ==> r.is_fresh(),
            r.wf(),
            final(self)@ == old(self)@.insert(id, *final(r)),
            final(r).wf() ==> final(self).wf(),
    {
        let fresh = TextInputState::new();
        proof {
            if old(self)@.contains_key(id) {
                assert(old(self)@[id].wf());
            }
        }
        self.states.entry(id).or_insert(fresh)
    }

    /// Mutable access to the state of widget `id`, if it has one; nothing is created.
    pub fn get_mut(&mut self, id: u64) -> (r: Option<&mut TextInputState>)
        requires
            old(self).wf(),
        ensures
            r is Some == old(self)@.contains_key(id),
            r matches Some(s) ==> *s == old(self)@[id] && s.wf(),
            r matches Some(s) ==> final(self)@ == old(self)@.insert(id, *final(s)),
            r matches Some(s) ==> (final(s).wf() ==> final(self).wf()),
            r is None ==> final(self)@ == old(self)@ && final(self).wf(),
    {
        if self.states.contains_key(&id) {
            Some(self.get_or_create(id))
        } else {
            None
        }
    }

    /// The state of widget `id`, if it has one.
    pub fn get(&self, id: u64) -> (r: Option<&TextInputState>)
        requires
            self.wf(),
        ensures
            match r {
                Some(s) => self@.contains_key(id) && *s == self@[id],
                None => !self@.contains_key(id),
            },
    {
        self.states.get(&id)
    }
}

} // verus!
