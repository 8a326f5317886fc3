use vstd::prelude::*;

use crate::units::{fits_i32, Direction, Point};

verus! {

/// A creature of the world: a name, a position and health.
///
/// Health is a plain integer: it may fall below zero, and nothing keeps it
/// under `max_health`.
pub struct Actor {
    pub name: String,
    pub pos: Point,
    pub health: i32,
    pub max_health: i32,
}

impl Actor {
    /// A new actor at full health.
    pub fn new(name: &str, pos: Point, max_health: i32) -> (r: Actor)
        ensures
            r.name@ == name@,
            r.pos == pos,
            r.health == max_health,
            r.max_health == max_health,
    {
        Actor { name: name.to_owned(), pos, health: max_health, max_health }
    }

    pub fn name(&self) -> (r: &str)
        ensures
            r@ == self.name@,
    {
        self.name.as_str()
    }

    pub fn pos(&self) -> (r: Point)
        ensures
            r == self.pos,
    {
        self.pos
    }

    /// This actor moved one step in `direction`.
    pub open spec fn spec_walk(self, direction: Direction) -> Actor {
        Actor {
            pos: Point {
                x: (self.pos.x + direction.dx()) as i32,
                y: (self.pos.y + direction.dy()) as i32,
            },
            ..self
        }
    }

    /// Moves the actor one step in `direction`; no bounds are checked here.
    pub fn walk(&mut self, direction: Direction)
        requires
            old(self).pos.can_step(direction),
        ensures
            *final(self) == old(self).spec_walk(direction),
    {
        self.pos = self.pos.move_dir(direction);
    }

    pub open spec fn spec_is_dead(&self) -> bool {
        self.health <= 0
    }

    pub fn is_dead(&self) -> (r: bool)
        ensures
            r == self.spec_is_dead(),
    {
        self.health <= 0
    }

    /// This actor with health lowered by `amount`.
    pub open spec fn spec_hurt(self, amount: i32) -> Actor {
        Actor { health: (self.health - amount) as i32, ..self }
    }

    /// This actor with health raised by `amount`.
    pub open spec fn spec_heal(self, amount: i32) -> Actor {
        Actor { health: (self.health + amount) as i32, ..self }
    }

    /// This actor with health set to zero.
    pub open spec fn spec_kill(self) -> Actor {
        Actor { health: 0, ..self }
    }

    /// Lowers health by `amount`, with no floor.
    pub fn hurt(&mut self, amount: i32)
        requires
            fits_i32(old(self).health - amount),
        ensures
            *final(self) == old(self).spec_hurt(amount),
    {
        self.health = self.health - amount;
    }

    /// Raises health by `amount`, with no ceiling.
    pub fn heal(&mut self, amount: i32)
        requires
            fits_i32(old(self).health + amount),
        ensures
            *final(self) == old(self).spec_heal(amount),
    {
        self.health = self.health + amount;
    }

    /// Sets health to zero.
    pub fn kill(&mut self)
        ensures
            *final(self) == old(self).spec_kill(),
    {
        self.health = 0;
    }
}

/// An actor that has been killed is dead, whatever its health was.
pub proof fn lemma_killed_is_dead(a: Actor)
    ensures
        a.spec_kill().spec_is_dead(),
{
}

/// Hurting an actor by `h` and then healing it by `h` gives back the same
/// actor: its health is restored exactly, with no clamping on the way.
pub proof fn lemma_hurt_heal_restores(a: Actor, h: i32)
    requires
        fits_i32(a.health - h),
    ensures
        fits_i32(a.spec_hurt(h).health + h),
        a.spec_hurt(h).spec_heal(h) == a,
{
}

} // verus!
