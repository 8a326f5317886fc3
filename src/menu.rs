use vstd::prelude::*;

verus! {

/// One entry of a menu: the label shown and the value it stands for.
pub struct MenuOption<T> {
    pub label: &'static str,
    pub value: T,
}

impl<T> MenuOption<T> {
    pub fn new(label: &'static str, value: T) -> (r: MenuOption<T>)
        ensures
            r.label == label,
            r.value == value,
    {
        MenuOption { label, value }
    }

    pub fn text(&self) -> (r: &'static str)
        ensures
            r == self.label,
    {
        self.label
    }

    pub fn option(&self) -> (r: &T)
        ensures
            *r == self.value,
    {
        &self.value
    }
}

/// Why a menu could not be made.
#[derive(Clone, Copy, Debug, PartialEq, Eq, Structural)]
pub enum MenuError {
    /// A menu needs at least one option.
    NoOptions,
}

/// A list of options with a cursor that wraps around at both ends.
pub struct Menu<T> {
    options: Vec<MenuOption<T>>,
    cursor: usize,
}

/// The cursor position after `next` on a menu of `n` options.
pub open spec fn next_index(i: int, n: int) -> int {
    if i + 1 == n {
        0
    } else {
        i + 1
    }
}

/// The cursor position after `prev` on a menu of `n` options.
pub open spec fn prev_index(i: int, n: int) -> int {
    if i == 0 {
        n - 1
    } else {
        i - 1
    }
}

impl<T> Menu<T> {
    /// The options, in order.
    pub closed spec fn options(&self) -> Seq<MenuOption<T>> {
        self.options@
    }

    /// The index of the selected option.
    pub closed spec fn cursor(&self) -> int {
        self.cursor as int
    }

    /// The cursor designates one of the options.
    pub open spec fn wf(&self) -> bool {
        0 <= self.cursor() < self.options().len()
    }

    /// A menu over `options` with the first one selected; fails on no options.
    pub fn new(options: Vec<MenuOption<T>>) -> (r: Result<Menu<T>, MenuError>)
        ensures
            r is Err <==> options@.len() == 0,
            r matches Ok(m) ==> m.wf() && m.options() == options@ && m.cursor() == 0,
            r matches Err(e) ==> e == MenuError::NoOptions,
    {
        if options.len() == 0 {
            Err(MenuError::NoOptions)
        } else {
            Ok(Menu { options, cursor: 0 })
        }
    }

    pub fn len(&self) -> (r: usize)
        ensures
            r == self.options().len(),
    {
        self.options.len()
    }

    /// Moves the cursor down by one, from the last option to the first.
    pub fn next(&mut self)
        requires
            old(self).wf(),
        ensures
            final(self).wf(),
            final(self).options() == old(self).options(),
            final(self).cursor() == next_index(old(self).cursor(), old(self).options().len() as int),
    {
        if self.cursor >= self.options.len() - 1 {
            self.cursor = 0;
        } else {
            self.cursor = self.cursor + 1;
        }
    }

    /// Moves the cursor up by one, from the first option to the last.
    pub fn prev(&mut self)
        requires
            old(self).wf(),
        ensures
            final(self).wf(),
            final(self).options() == old(self).options(),
            final(self).cursor() == prev_index(old(self).cursor(), old(self).options().len() as int),
    {
        if self.cursor == 0 {
            self.cursor = self.options.len() - 1;
        } else {
            self.cursor = self.cursor - 1;
        }
    }

    pub fn cursor_index(&self) -> (r: usize)
        ensures
            r == self.cursor(),
    {
        self.cursor
    }

    /// The option under the cursor.
    pub fn selected(&self) -> (r: &MenuOption<T>)
        requires
            self.wf(),
        ensures
            *r == self.options()[self.cursor()],
    {
        &self.options[self.cursor]
    }

    /// Whether the option at index `i` is the selected one.
    pub fn is_selected(&self, i: usize) -> (r: bool)
        ensures
            r == (i == self.cursor()),
    {
        i == self.cursor
    }

    /// All options in order, for drawing; the cursor is left as it is.
    pub fn items(&self) -> (r: &[MenuOption<T>])
        ensures
            r@ == self.options(),
    {
        self.options.as_slice()
    }
}

/// Moving the cursor of a menu of `n` options, forwards or backwards, keeps
/// it within `[0, n)`; `prev` at the first option gives the last and `next` at
/// the last option gives the first.
pub proof fn lemma_cursor_wraps(i: int, n: int)
    requires
        0 <= i < n,
    ensures
        0 <= next_index(i, n) < n,
        0 <= prev_index(i, n) < n,
        i == 0 ==> prev_index(i, n) == n - 1,
        i == n - 1 ==> next_index(i, n) == 0,
        next_index(prev_index(i, n), n) == i,
        prev_index(next_index(i, n), n) == i,
{
}

/// The cursor index after a sequence of moves, `true` standing for `next`
/// and `false` for `prev`.
pub open spec fn cursor_after(i: int, n: int, moves: Seq<bool>) -> int
    decreases moves.len(),
{
    if moves.len() == 0 {
        i
    } else {
        let j = cursor_after(i, n, moves.drop_last());
        if moves.last() {
            next_index(j, n)
        } else {
            prev_index(j, n)
        }
    }
}

/// For every sequence of moves on a menu of `n` options the cursor stays
/// within `[0, n)`.
pub proof fn lemma_cursor_in_range(i: int, n: int, moves: Seq<bool>)
    requires
        0 <= i < n,
    ensures
        0 <= cursor_after(i, n, moves) < n,
    decreases moves.len(),
{
    if moves.len() > 0 {
        lemma_cursor_in_range(i, n, moves.drop_last());
    }
}

} // verus!
