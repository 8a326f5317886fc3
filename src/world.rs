use vstd::prelude::*;

use crate::actor::Actor;
use crate::log::Log;
use crate::map::TileMap;
use crate::units::Direction;

verus! {

/// The map, the actors on it, and the player.
pub struct World {
    pub map: TileMap,
    pub actors: Vec<Actor>,
    pub player: Actor,
}

impl World {
    pub fn new(map: TileMap, player: Actor) -> (r: World)
        ensures
            r.map == map,
            r.player == player,
            r.actors@.len() == 0,
    {
        World { map, actors: Vec::new(), player }
    }

    /// This world with the player moved one step in `direction`.
    pub open spec fn spec_walk(self, direction: Direction) -> World {
        World { player: self.player.spec_walk(direction), ..self }
    }

    /// Moves the player one step. No collision or bounds check is made: the
    /// new position is taken whatever it is.
    pub fn walk(&mut self, direction: Direction)
        requires
            old(self).player.pos.can_step(direction),
        ensures
            *final(self) == old(self).spec_walk(direction),
    {
        self.player.walk(direction);
    }

    /// Adds an actor besides the player.
    pub fn add_actor(&mut self, actor: Actor)
        ensures
            final(self).actors@ == old(self).actors@.push(actor),
            final(self).map == old(self).map,
            final(self).player == old(self).player,
    {
        self.actors.push(actor);
    }
}

/// All the state of a running game: the world and the message log.
pub struct Game {
    pub world: World,
    pub log: Log,
}

impl Game {
    /// A game on `world` with an empty log.
    pub fn new(world: World) -> (r: Game)
        ensures
            r.world == world,
            r.log.wf(),
            r.log.view().len() == 0,
    {
        Game { world, log: Log::new() }
    }

    /// This game with the player moved one step in `direction`.
    pub open spec fn spec_walk(self, direction: Direction) -> Game {
        Game { world: self.world.spec_walk(direction), ..self }
    }

    /// Advances time by one tick. Nothing moves on its own yet, so the game is
    /// left as it is.
    pub fn step(&mut self)
        ensures
            *final(self) == *old(self),
    {
    }
}

} // verus!
