//! The idle character state and what it decides by itself.

use vstd::prelude::*;

verus! {

/// The idle state of a character.
#[derive(Clone, Copy, Debug, PartialEq, Eq, Structural)]
pub struct Data {
    pub is_sneaking: bool,
}

impl Data {
    /// Whether a sneaking character has to stand up: it sneaks only while it
    /// is on the ground and out of any liquid.
    pub open spec fn must_stand_up(self, on_ground: bool, in_liquid: bool) -> bool {
        self.is_sneaking && (!on_ground || in_liquid)
    }

    /// One tick of the idle state, after movement and the other inputs were
    /// handled: the idle state that the character is forced into, or `None`
    /// where the state that the handlers chose stands.
    pub fn behavior(&self, on_ground: bool, in_liquid: bool) -> (forced: Option<Data>)
        ensures
            forced == if self.must_stand_up(on_ground, in_liquid) {
                Some(Data { is_sneaking: false })
            } else {
                None
            },
    {
        if self.is_sneaking && (!on_ground || in_liquid) {
            Some(Data { is_sneaking: false })
        } else {
            None
        }
    }

    /// The idle state after the character starts to sneak.
    pub fn sneak(&self) -> (next: Data)
        ensures
            next == (Data { is_sneaking: true }),
    {
        Data { is_sneaking: true }
    }

    /// The idle state after the character stands up.
    pub fn stand(&self) -> (next: Data)
        ensures
            next == (Data { is_sneaking: false }),
    {
        Data { is_sneaking: false }
    }
}

} // verus!
