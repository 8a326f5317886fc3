use vstd::prelude::*;

use crate::actor::Actor;
use crate::units::{Point, Size};

verus! {

/// A note about an actor, shown when the pointer rests on it.
pub struct Popup {
    pub actor: Actor,
    pub message: String,
    pub is_visible: bool,
}

impl Popup {
    /// A hidden popup about `actor`. The place and size it will be shown at
    /// are chosen when it is drawn.
    pub fn new(actor: Actor, location: Point, size: Size, message: String) -> (r: Popup)
        ensures
            r.actor == actor,
            r.message == message,
            !r.is_visible,
    {
        Popup { actor, message, is_visible: false }
    }

    pub fn set_visible(&mut self, is_visible: bool)
        ensures
            final(self).is_visible == is_visible,
            final(self).actor == old(self).actor,
            final(self).message == old(self).message,
    {
        self.is_visible = is_visible;
    }
}

} // verus!
