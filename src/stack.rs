use vstd::prelude::*;

use crate::canvas::{
    added, extends, lemma_added_concat, lemma_extends_refl, lemma_extends_trans, Canvas, Key,
};
use crate::game_screen::{can_walk, walk_dir, GameScreen};
use crate::pause_screen::{pause_moved, PauseMenu, PauseScreen};
use crate::screen::{
    apply_change, input_change, opens_pause, rendered, stack_shown, Screen, ScreenChange,
};
use crate::world::Game;

verus! {

/// The screens in play, bottom first; the top one is driven each frame and
/// all of them are drawn, bottom to top.
pub struct ScreenStack {
    screens: Vec<Screen>,
}

impl ScreenStack {
    /// The screens, bottom first.
    pub closed spec fn view(&self) -> Seq<Screen> {
        self.screens@
    }

    /// Every screen is well formed.
    pub open spec fn wf(&self) -> bool {
        forall|k: int| 0 <= k < self.view().len() ==> #[trigger] self.view()[k].wf()
    }

    /// A stack holding `first` alone.
    pub fn new(first: Screen) -> (r: ScreenStack)
        requires
            first.wf(),
        ensures
            r.wf(),
            r.view() == seq![first],
    {
        let mut screens: Vec<Screen> = Vec::new();
        screens.push(first);
        assert(screens@ =~= seq![first]);
        ScreenStack { screens }
    }

    /// A stack holding a fresh game screen alone.
    pub fn with_game_screen() -> (r: ScreenStack)
        ensures
            r.wf(),
            r.view() == seq![Screen::Game(GameScreen::spec_new())],
    {
        ScreenStack::new(Screen::Game(GameScreen::new()))
    }

    pub fn len(&self) -> (r: usize)
        ensures
            r == self.view().len(),
    {
        self.screens.len()
    }

    pub fn is_empty(&self) -> (r: bool)
        ensures
            r == (self.view().len() == 0),
    {
        self.screens.len() == 0
    }

    /// The screen at `i`, counted from the bottom.
    pub fn get(&self, i: usize) -> (r: &Screen)
        requires
            i < self.view().len(),
        ensures
            *r == self.view()[i as int],
    {
        &self.screens[i]
    }

    /// Carries out a change: push a screen, take the top one away (none is
    /// left after the last), or take all away.
    pub fn apply(&mut self, change: ScreenChange)
        requires
            old(self).wf(),
            change matches ScreenChange::PushScreen(s) ==> s.wf(),
        ensures
            final(self).wf(),
            final(self).view() == apply_change(old(self).view(), change),
    {
        let ghost before = self.screens@;
        match change {
            ScreenChange::PushScreen(s) => {
                self.screens.push(s);
                assert forall|k: int| 0 <= k < self.screens@.len() implies #[trigger] self.screens@[k].wf() by {
                    if k < before.len() {
                        assert(self.screens@[k] == before[k]);
                    }
                }
            },
            ScreenChange::RemoveTopScreen => {
                if self.screens.len() > 0 {
                    let _ = self.screens.pop();
                    assert(self.screens@ =~= old(self).screens@.drop_last());
                    assert forall|k: int| 0 <= k < self.screens@.len() implies #[trigger] self.screens@[k].wf() by {
                        assert(self.screens@[k] == before[k]);
                        assert(old(self).view()[k].wf());
                    }
                }
            },
            ScreenChange::ExitGame => {
                self.screens.clear();
                assert(self.screens@ =~= Seq::<Screen>::empty());
            },
        }
    }

    /// Runs one frame: hands `key` to the top screen and carries out the change
    /// it asks for, if any, and then the frame ends. Otherwise the top screen is
    /// updated and every screen is drawn on `canvas`, bottom to top. Returns
    /// whether any screen is left, that is, whether the game goes on.
    pub fn frame(&mut self, game: &mut Game, key: Option<Key>, canvas: &mut Canvas) -> (r: bool)
        requires
            old(self).wf(),
            old(self).view().len() > 0,
            old(game).world.map.wf(),
            old(self).view().last() is Game ==> can_walk(old(game).world.player.pos, key),
            old(canvas).wf(),
        ensures
            final(self).wf(),
            final(canvas).wf(),
            r == (final(self).view().len() > 0),
            ({
                let before = old(self).view();
                let top = before.last();
                let after = final(self).view();
                match input_change(top, key) {
                    Some(Some(c)) => after == apply_change(before, c) && *final(game) == *old(game)
                        && *final(canvas) == *old(canvas),
                    Some(None) => after.len() == before.len() + 1 && after.drop_last() == before
                        && opens_pause(Some(ScreenChange::PushScreen(after.last())))
                        && *final(game) == *old(game) && *final(canvas) == *old(canvas),
                    None => {
                        &&& extends(final(canvas).view(), old(canvas).view())
                        &&& after.len() == before.len()
                        &&& forall|k: int|
                            0 <= k < before.len() - 1 ==> #[trigger] after[k] == rendered(
                                before[k],
                                *final(game),
                            )
                        &&& stack_shown(
                            after,
                            added(final(canvas).view(), old(canvas).view()),
                            *final(game),
                            old(canvas).spec_size(),
                        )
                        &&& top is Pause ==> after.last() is Pause && pause_moved(
                            top->Pause_0,
                            after.last()->Pause_0,
                            key,
                        )
                        &&& top is Game ==> after.last() == rendered(top, *final(game))
                        &&& (top is Game && walk_dir(key) is Some) ==> *final(game) == old(
                            game,
                        ).spec_walk(walk_dir(key)->0)
                        &&& !(top is Game && walk_dir(key) is Some) ==> *final(game) == *old(game)
                    },
                }
            }),
    {
        let ghost before = self.screens@;
        let mut top = self.screens.pop().unwrap();
        assert(self.screens@ =~= before.drop_last());
        let change = top.input(game, key);
        self.screens.push(top);
        assert(self.screens@ =~= before.drop_last().push(top));
        proof {
            assert forall|k: int| 0 <= k < self.screens@.len() implies #[trigger] self.screens@[k].wf() by {
                if k < before.len() - 1 {
                    assert(self.screens@[k] == before[k]);
                }
            }
        }
        match change {
            Some(c) => {
                assert(self.screens@ =~= before);
                self.apply(c);
                return self.screens.len() > 0;
            },
            None => {},
        }
        let ghost mid = self.screens@;
        let n = self.screens.len();
        let upd = self.screens[n - 1].update(game);
        match upd {
            Some(c) => {
                self.apply(c);
            },
            None => {},
        }
        proof {
            lemma_extends_refl(canvas.view());
            assert(self.screens@.take(0) =~= Seq::<Screen>::empty());
            assert(added(canvas.view(), canvas.view()) =~= Seq::empty());
        }
        let mut i: usize = 0;
        while i < n
            invariant
                extends(canvas.view(), old(canvas).view()),
                canvas.spec_size() == old(canvas).spec_size(),
                stack_shown(
                    self.screens@.take(i as int),
                    added(canvas.view(), old(canvas).view()),
                    *game,
                    old(canvas).spec_size(),
                ),
                n == self.screens@.len(),
                n == mid.len(),
                n == before.len(),
                0 <= i <= n,
                game.world.map.wf(),
                canvas.wf(),
                forall|k: int| 0 <= k < n ==> #[trigger] mid[k].wf(),
                forall|k: int| 0 <= k < i ==> #[trigger] self.screens@[k] == rendered(mid[k], *game),
                forall|k: int| i <= k < n ==> #[trigger] self.screens@[k] == mid[k],
            decreases n - i,
        {
            assert(self.screens@[i as int] == mid[i as int]);
            assert(mid[i as int].wf());
            let ghost c0 = canvas.view();
            let ghost mut painted = mid[i as int];
            let ghost s0 = self.screens@;
            let as_game: Option<GameScreen> = match &self.screens[i] {
                Screen::Game(g) => Some(*g),
                Screen::Pause(p) => {
                    p.render(canvas);
                    proof { painted = Screen::Pause(*p); }
                    None
                },
            };
            match as_game {
                Some(g) => {
                    let mut g = g;
                    g.render(game, canvas);
                    proof { painted = Screen::Game(g); }
                    self.screens.set(i, Screen::Game(g));
                },
                None => {},
            }
            proof {
                lemma_added_concat(canvas.view(), c0, old(canvas).view());
                let shown = self.screens@.take(i + 1);
                let seg = added(canvas.view(), old(canvas).view());
                assert(shown.drop_last() =~= s0.take(i as int));
                assert(shown.last() == self.screens@[i as int]);
                assert(self.screens@[i as int] == painted);
                assert(painted.drawn(added(canvas.view(), c0), *game, canvas.spec_size()));
                assert(stack_shown(shown.drop_last(), added(c0, old(canvas).view()), *game, canvas.spec_size()));
                let k = seg.len() - shown.last().drawing_len(*game, canvas.spec_size());
                assert(seg.subrange(0, k) =~= added(c0, old(canvas).view()));
                assert(seg.subrange(k, seg.len() as int) =~= added(canvas.view(), c0));
            }
            i = i + 1;
        }
        proof {
            assert(self.screens@.take(n as int) =~= self.screens@);
            assert(self.screens@[n - 1] == rendered(mid[n - 1], *game));
            assert forall|k: int| 0 <= k < n implies #[trigger] self.screens@[k].wf() by {
                assert(mid[k].wf());
                match mid[k] {
                    Screen::Game(g) => {
                        crate::viewport::lemma_scroll_nonnegative(g.map_view, game.world.player.pos, g.map.inner(), game.world.map.size);
                    },
                    Screen::Pause(_) => {},
                }
            }
        }
        true
    }
}

/// Opening the pause menu over any stack of screens and choosing "Resume"
/// (or pressing Escape) gives back exactly the stack that was there, the
/// screens under the menu untouched.
pub proof fn lemma_resume_restores(base: Seq<Screen>, p: PauseScreen)
    requires
        p.wf(),
        p.selected_item() == PauseMenu::Resume,
    ensures
        input_change(Screen::Pause(p), Some(Key::Enter)) == Some(Some(ScreenChange::RemoveTopScreen)),
        input_change(Screen::Pause(p), Some(Key::Escape)) == Some(Some(ScreenChange::RemoveTopScreen)),
        apply_change(apply_change(base, ScreenChange::PushScreen(Screen::Pause(p))), ScreenChange::RemoveTopScreen) == base,
{
    assert(base.push(Screen::Pause(p)).drop_last() =~= base);
}

/// Choosing "Exit" in the pause menu leaves no screen, however many there were.
pub proof fn lemma_exit_empties(screens: Seq<Screen>, p: PauseScreen)
    requires
        p.wf(),
        p.selected_item() == PauseMenu::Exit,
    ensures
        input_change(Screen::Pause(p), Some(Key::Enter)) == Some(Some(ScreenChange::ExitGame)),
        apply_change(screens, ScreenChange::ExitGame).len() == 0,
{
}

} // verus!
