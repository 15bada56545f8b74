//! Keyboard state: which keys are held, and which went down this frame.
//! Keys are named by their integer key codes.

use std::collections::HashSet;
use vstd::prelude::*;

verus! {

broadcast use vstd::std_specs::hash::group_hash_axioms;

pub struct KeyboardState {
    pressed: HashSet<u32>,
    just_pressed: HashSet<u32>,
}

impl KeyboardState {
    /// The keys held down.
    pub closed spec fn held(&self) -> Set<u32> {
        self.pressed@
    }

    /// The keys that went down since the last end of frame.
    pub closed spec fn went_down(&self) -> Set<u32> {
        self.just_pressed@
    }

    pub fn new() -> (state: Self)
        ensures
            state.held() == Set::<u32>::empty(),
            state.went_down() == Set::<u32>::empty(),
    {
        KeyboardState { pressed: HashSet::new(), just_pressed: HashSet::new() }
    }

    /// A key went down: it is held, and it went down this frame unless it
    /// was already held.
    pub fn key_pressed(&mut self, key: u32)
        ensures
            final(self).held() == old(self).held().insert(key),
            !old(self).held().contains(key) ==> final(self).went_down() == old(self).went_down().insert(
                key,
            ),
            old(self).held().contains(key) ==> final(self).went_down() == old(self).went_down(),
    {
        if self.pressed.insert(key) {
            self.just_pressed.insert(key);
        }
    }

    /// A key went up: it is no longer held.
    pub fn key_released(&mut self, key: u32)
        ensures
            final(self).held() == old(self).held().remove(key),
            final(self).went_down() == old(self).went_down(),
    {
        self.pressed.remove(&key);
    }

    pub fn is_key_down(&self, key: u32) -> (down: bool)
        ensures
            down == self.held().contains(key),
    {
        self.pressed.contains(&key)
    }

    pub fn was_key_pressed(&self, key: u32) -> (pressed: bool)
        ensures
            pressed == self.went_down().contains(key),
    {
        self.just_pressed.contains(&key)
    }

    /// Ends the frame: no key has gone down in the next one yet.
    pub fn end_frame(&mut self)
        ensures
            final(self).held() == old(self).held(),
            final(self).went_down() == Set::<u32>::empty(),
    {
        self.just_pressed.clear();
    }
}

} // verus!
