use vstd::prelude::*;

use crate::canvas::{added, extends, lemma_extends_refl, lemma_extends_step, Canvas, DrawCmd, Key};
use crate::menu::{next_index, prev_index, Menu, MenuOption};
use crate::screen::ScreenChange;
use crate::units::{Point, Size};

verus! {

/// The choices of the pause menu.
#[derive(Clone, Copy, Debug, PartialEq, Eq, Structural)]
pub enum PauseMenu {
    Resume,
    Exit,
}

/// The longest label that a menu of the pause screen may have.
pub const LABEL_LIMIT: usize = 64;

/// The change of screens that the pause menu asks for on a key, with
/// `selected` under the cursor.
pub open spec fn pause_change(selected: PauseMenu, key: Option<Key>) -> Option<ScreenChange> {
    match key {
        Some(Key::Enter) => match selected {
            PauseMenu::Resume => Some(ScreenChange::RemoveTopScreen),
            PauseMenu::Exit => Some(ScreenChange::ExitGame),
        },
        Some(Key::Escape) => Some(ScreenChange::RemoveTopScreen),
        _ => None,
    }
}

/// The length of the longest of the first `n` labels.
pub open spec fn longest_label(options: Seq<MenuOption<PauseMenu>>, n: int) -> int
    decreases n,
{
    if n <= 0 {
        0
    } else {
        let rest = longest_label(options, n - 1);
        let len = options[n - 1].label@.len() as int;
        if len > rest {
            len
        } else {
            rest
        }
    }
}

/// Where the menu goes on a canvas of size `size`: centred by the longest
/// label and by the number of options.
pub open spec fn menu_origin(size: Size, longest: int, n: int) -> Point {
    Point { x: (size.width / 2 - longest / 2) as i32, y: (size.height / 2 - n / 2) as i32 }
}

/// Where the drawing of option `i` of the menu stands, with the cursor on
/// option `c`: after the title, the rows above, and the cursor glyph if it is
/// above.
pub open spec fn row_index(i: int, c: int) -> int {
    1 + i + if i > c {
        1int
    } else {
        0
    }
}

/// Whether `cmd` prints the title of the pause screen.
pub open spec fn is_title(cmd: DrawCmd) -> bool {
    cmd matches DrawCmd::PrintPlain { pos, text } && pos == (Point { x: 0, y: 0 }) && text@
        == "Paused"@
}

/// Whether `cmd` prints `label` on row `i` of a menu placed at `o`.
pub open spec fn is_label(cmd: DrawCmd, o: Point, i: int, label: Seq<char>) -> bool {
    cmd matches DrawCmd::PrintPlain { pos, text } && pos == (Point {
        x: (o.x + 2) as i32,
        y: (o.y + i) as i32,
    }) && text@ == label
}

/// The cursor glyph on row `c` of a menu placed at `o`.
pub open spec fn cursor_cmd(o: Point, c: int) -> DrawCmd {
    DrawCmd::PutPlain { pos: Point { x: o.x, y: (o.y + c) as i32 }, glyph: '>' }
}

/// Whether `q` is the pause screen `p` after `key`: Up and Down move the
/// cursor with wrap-around, any other key leaves it as it was.
pub open spec fn pause_moved(p: PauseScreen, q: PauseScreen, key: Option<Key>) -> bool {
    &&& q.wf()
    &&& q.menu.options() == p.menu.options()
    &&& key == Some(Key::Up) ==> q.menu.cursor() == prev_index(p.menu.cursor(), 2)
    &&& key == Some(Key::Down) ==> q.menu.cursor() == next_index(p.menu.cursor(), 2)
    &&& key != Some(Key::Up) && key != Some(Key::Down) ==> q == p
}

/// The overlay shown while the game is paused: a menu to resume or leave.
pub struct PauseScreen {
    pub menu: Menu<PauseMenu>,
}

impl PauseScreen {
    /// The menu offers Resume then Exit, with short labels.
    pub open spec fn wf(&self) -> bool {
        &&& self.menu.wf()
        &&& self.menu.options().len() == 2
        &&& self.menu.options()[0].value == PauseMenu::Resume
        &&& self.menu.options()[1].value == PauseMenu::Exit
        &&& forall|i: int|
            0 <= i < self.menu.options().len() ==> #[trigger] self.menu.options()[i].label@.len()
                <= LABEL_LIMIT
    }

    /// Whether the drawing `v`, from index `at` on, shows this screen on a
    /// canvas of size `size`: the title, then each label in its row of the
    /// centred menu, with the cursor glyph right after the selected label.
    pub open spec fn drawn_on(&self, v: Seq<DrawCmd>, at: int, size: Size) -> bool {
        let opts = self.menu.options();
        let o = menu_origin(size, longest_label(opts, opts.len() as int), opts.len() as int);
        let c = self.menu.cursor();
        &&& is_title(v[at])
        &&& forall|i: int|
            0 <= i < opts.len() ==> is_label(#[trigger] v[at + row_index(i, c)], o, i, opts[i].label@)
        &&& v[at + c + 2] == cursor_cmd(o, c)
    }

    /// Whether `seg` is exactly one drawing of this screen on a canvas of
    /// size `size`.
    pub open spec fn drawn(&self, seg: Seq<DrawCmd>, size: Size) -> bool {
        seg.len() == 2 + self.menu.options().len() && self.drawn_on(seg, 0, size)
    }

    /// The choice under the cursor.
    pub open spec fn selected_item(&self) -> PauseMenu {
        self.menu.options()[self.menu.cursor()].value
    }

    pub fn new() -> (r: PauseScreen)
        ensures
            r.wf(),
            r.menu.cursor() == 0,
            r.selected_item() == PauseMenu::Resume,
            r.menu.options()[0].label@ == "Resume Game"@,
            r.menu.options()[1].label@ == "Exit Game"@,
    {
        let resume = MenuOption::new("Resume Game", PauseMenu::Resume);
        let exit = MenuOption::new("Exit Game", PauseMenu::Exit);
        proof {
            reveal_strlit("Resume Game");
            reveal_strlit("Exit Game");
        }
        let menu = Menu::new(vec![resume, exit]).unwrap();
        PauseScreen { menu }
    }

    /// Up and Down move the cursor, with wrap-around; Enter acts on the
    /// selected choice (Resume closes the overlay, Exit ends the game); Escape
    /// closes the overlay too.
    pub fn input(&mut self, key: Option<Key>) -> (r: Option<ScreenChange>)
        requires
            old(self).wf(),
        ensures
            final(self).wf(),
            final(self).menu.options() == old(self).menu.options(),
            r == pause_change(old(self).selected_item(), key),
            key == Some(Key::Up) ==> final(self).menu.cursor() == prev_index(old(self).menu.cursor(), 2),
            key == Some(Key::Down) ==> final(self).menu.cursor() == next_index(old(self).menu.cursor(), 2),
            key != Some(Key::Up) && key != Some(Key::Down) ==> *final(self) == *old(self),
    {
        match key {
            Some(Key::Up) => {
                self.menu.prev();
                None
            },
            Some(Key::Down) => {
                self.menu.next();
                None
            },
            Some(Key::Enter) => match self.menu.selected().option() {
                PauseMenu::Resume => Some(ScreenChange::RemoveTopScreen),
                PauseMenu::Exit => Some(ScreenChange::ExitGame),
            },
            Some(Key::Escape) => Some(ScreenChange::RemoveTopScreen),
            _ => None,
        }
    }

    /// Nothing happens over time while paused.
    pub fn update(&self) -> (r: Option<ScreenChange>)
        ensures
            r is None,
    {
        None
    }

    /// Draws the title, then the menu centred on the canvas, with a cursor
    /// glyph left of the selected choice.
    pub fn render(&self, canvas: &mut Canvas)
        requires
            self.wf(),
            old(canvas).wf(),
        ensures
            final(canvas).wf(),
            final(canvas).spec_size() == old(canvas).spec_size(),
            extends(final(canvas).view(), old(canvas).view()),
            final(canvas).view().len() == old(canvas).view().len() + 2 + self.menu.options().len(),
            self.drawn(added(final(canvas).view(), old(canvas).view()), old(canvas).spec_size()),
    {
        let ghost start = canvas.view();
        canvas.print_plain(Point::new(0, 0), "Paused");
        proof { lemma_extends_refl(start); lemma_extends_step(canvas.view(), start, start); }
        let ghost title = canvas.view();

        let items = self.menu.items();
        let n = items.len();
        let mut longest: usize = 0;
        let mut i: usize = 0;
        while i < n
            invariant
                self.wf(),
                items@ == self.menu.options(),
                n == items@.len(),
                0 <= i <= n,
                longest <= LABEL_LIMIT,
                longest == longest_label(items@, i as int),
            decreases n - i,
        {
            let len = items[i].text().unicode_len();
            if len > longest {
                longest = len;
            }
            i = i + 1;
        }

        let size = canvas.size();
        let x = size.width / 2 - (longest as i32) / 2;
        let y = size.height / 2 - (n as i32) / 2;
        let mut i: usize = 0;
        while i < n
            invariant
                self.wf(),
                items@ == self.menu.options(),
                n == items@.len(),
                n == 2,
                0 <= i <= n,
                -LABEL_LIMIT <= x <= crate::canvas::CANVAS_LIMIT,
                -2 <= y <= crate::canvas::CANVAS_LIMIT,
                canvas.wf(),
                canvas.spec_size() == old(canvas).spec_size(),
                extends(canvas.view(), start),
                canvas.view().len() == start.len() + 1 + i + (if i > self.menu.cursor() { 1int } else { 0 }),
                x == menu_origin(old(canvas).spec_size(), longest_label(items@, n as int), n as int).x,
                y == menu_origin(old(canvas).spec_size(), longest_label(items@, n as int), n as int).y,
                canvas.view()[start.len() as int] == title[start.len() as int],
                is_title(title[start.len() as int]),
                forall|k: int|
                    0 <= k < i ==> is_label(
                        #[trigger] canvas.view()[start.len() + row_index(k, self.menu.cursor())],
                        menu_origin(old(canvas).spec_size(), longest_label(items@, n as int), n as int),
                        k,
                        items@[k].label@,
                    ),
                i > self.menu.cursor() ==> canvas.view()[start.len() + self.menu.cursor() + 2]
                    == cursor_cmd(
                    menu_origin(old(canvas).spec_size(), longest_label(items@, n as int), n as int),
                    self.menu.cursor(),
                ),
            decreases n - i,
        {
            let row = Point::new(x, y + i as i32);
            let ghost prev = canvas.view();
            canvas.print_plain(row.right(2), items[i].text());
            proof {
                lemma_extends_step(canvas.view(), prev, start);
                assert forall|k: int| 0 <= k < prev.len() implies #[trigger] canvas.view()[k] == prev[k] by {
                    assert(canvas.view().drop_last()[k] == prev[k]);
                }
            }
            if self.menu.is_selected(i) {
                let ghost prev = canvas.view();
                canvas.put_plain(row, '>');
                proof { lemma_extends_step(canvas.view(), prev, start); }
            }
            i = i + 1;
        }
        proof {
            let v = canvas.view();
            let at = start.len() as int;
            let seg = added(v, start);
            let opts = self.menu.options();
            let c = self.menu.cursor();
            let o = menu_origin(old(canvas).spec_size(), longest_label(opts, opts.len() as int), opts.len() as int);
            assert(seg[0] == v[at]);
            assert(seg[c + 2] == v[at + c + 2]);
            assert forall|i: int| 0 <= i < opts.len() implies is_label(#[trigger] seg[row_index(i, c)], o, i, opts[i].label@) by {
                assert(seg[row_index(i, c)] == v[at + row_index(i, c)]);
            }
        }
    }
}

} // verus!
