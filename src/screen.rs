use vstd::prelude::*;

use crate::canvas::{DrawCmd, Key};
use crate::units::Size;
use crate::game_screen::{can_walk, walk_dir, GameScreen};
use crate::pause_screen::{pause_change, pause_moved, PauseScreen};
use crate::world::Game;

verus! {

/// A unit of the user interface that the screen stack drives once per frame.
pub enum Screen {
    Game(GameScreen),
    Pause(PauseScreen),
}

/// What a screen asks of the screen stack.
pub enum ScreenChange {
    /// Put this screen on top.
    PushScreen(Screen),
    /// Take the top screen away.
    RemoveTopScreen,
    /// Leave the game: every screen goes.
    ExitGame,
}

/// Whether `r` asks for a fresh pause screen on top: "Resume Game" then
/// "Exit Game", with the cursor on the first.
pub open spec fn opens_pause(r: Option<ScreenChange>) -> bool {
    r matches Some(ScreenChange::PushScreen(Screen::Pause(p))) && p.wf() && p.menu.cursor() == 0
        && p.menu.options()[0].label@ == "Resume Game"@ && p.menu.options()[1].label@
        == "Exit Game"@
}

/// The screens after a change, bottom first. Taking away the last screen
/// leaves none, which ends the game as leaving it would.
pub open spec fn apply_change(screens: Seq<Screen>, change: ScreenChange) -> Seq<Screen> {
    match change {
        ScreenChange::PushScreen(s) => screens.push(s),
        ScreenChange::RemoveTopScreen => if screens.len() == 0 {
            screens
        } else {
            screens.drop_last()
        },
        ScreenChange::ExitGame => seq![],
    }
}

/// A screen as drawing leaves it: a game screen scrolls its view towards the
/// player, any other stays as it is.
pub open spec fn rendered(s: Screen, game: Game) -> Screen {
    match s {
        Screen::Game(g) => Screen::Game(g.scrolled(game.world.player.pos, game.world.map.size)),
        Screen::Pause(p) => Screen::Pause(p),
    }
}

/// The change of screens that a screen asks for on a key, where it does not
/// depend on the state of the game: `None` for none, `Some(None)` for a new
/// pause screen on top, `Some(Some(c))` for the change `c`.
pub open spec fn input_change(s: Screen, key: Option<Key>) -> Option<Option<ScreenChange>> {
    match s {
        Screen::Game(_) => if key == Some(Key::Escape) {
            Some(None)
        } else {
            None
        },
        Screen::Pause(p) => match pause_change(p.selected_item(), key) {
            Some(c) => Some(Some(c)),
            None => None,
        },
    }
}

/// Whether `seg` is exactly the drawings of `screens`, bottom first, one
/// after the other.
pub open spec fn stack_shown(screens: Seq<Screen>, seg: Seq<DrawCmd>, game: Game, size: Size) -> bool
    decreases screens.len(),
{
    if screens.len() == 0 {
        seg.len() == 0
    } else {
        let k = seg.len() - screens.last().drawing_len(game, size);
        &&& 0 <= k
        &&& stack_shown(screens.drop_last(), seg.subrange(0, k), game, size)
        &&& screens.last().drawn(seg.subrange(k, seg.len() as int), game, size)
    }
}

impl Screen {
    /// How many commands drawing this screen takes.
    pub open spec fn drawing_len(&self, game: Game, size: Size) -> int {
        match self {
            Screen::Game(g) => g.drawing_len(game, size),
            Screen::Pause(p) => 2 + p.menu.options().len() as int,
        }
    }

    /// Whether `seg` is exactly one drawing of this screen.
    pub open spec fn drawn(&self, seg: Seq<DrawCmd>, game: Game, size: Size) -> bool {
        match self {
            Screen::Game(g) => g.drawn(seg, game, size),
            Screen::Pause(p) => p.drawn(seg, size),
        }
    }

    pub open spec fn wf(&self) -> bool {
        match self {
            Screen::Game(g) => g.wf(),
            Screen::Pause(p) => p.wf(),
        }
    }

    /// Handles a key; see the screens themselves.
    pub fn input(&mut self, game: &mut Game, key: Option<Key>) -> (r: Option<ScreenChange>)
        requires
            old(self).wf(),
            (*old(self)) is Game ==> can_walk(old(game).world.player.pos, key),
        ensures
            final(self).wf(),
            r is Some ==> *final(self) == *old(self),
            input_change(*old(self), key) is None <==> r is None,
            input_change(*old(self), key) matches Some(Some(c)) ==> r == Some(c),
            input_change(*old(self), key) == Some(None::<ScreenChange>) ==> opens_pause(r),
            (*old(self)) is Game ==> *final(self) == *old(self),
            (*old(self)) is Pause ==> (*final(self)) is Pause && *final(game) == *old(game),
            (*old(self)) is Pause ==> pause_moved(
                old(self)->Pause_0,
                final(self)->Pause_0,
                key,
            ),
            (*old(self)) is Game && walk_dir(key) is Some ==> *final(game) == old(game).spec_walk(
                walk_dir(key)->0,
            ),
            (*old(self)) is Game && walk_dir(key) is None ==> *final(game) == *old(game),
    {
        match self {
            Screen::Game(g) => g.input(game, key),
            Screen::Pause(p) => p.input(key),
        }
    }

    /// Advances time; no screen asks for a change here.
    pub fn update(&self, game: &mut Game) -> (r: Option<ScreenChange>)
        ensures
            r is None,
            *final(game) == *old(game),
    {
        match self {
            Screen::Game(g) => g.update(game),
            Screen::Pause(p) => p.update(),
        }
    }
}

} // verus!
