use vstd::prelude::*;

use crate::units::{Point, Size};

verus! {

/// A key that the game reacts to.
#[derive(Clone, Copy, Debug, PartialEq, Eq, Structural)]
pub enum Key {
    Up,
    Down,
    Left,
    Right,
    Escape,
    Enter,
}

/// The colours that the game draws with.
#[derive(Clone, Copy, Debug, PartialEq, Eq, Structural)]
pub enum Color {
    Black,
    White,
    Red,
    DarkerGrey,
    DarkestSepia,
    DesaturatedGreen,
    /// The pale background of panel titles.
    Parchment,
}

/// One drawing operation on a character grid. The plain forms use the
/// default palette: white on black.
#[derive(Debug)]
pub enum DrawCmd {
    Put { pos: Point, glyph: char, fg: Color, bg: Color },
    PutPlain { pos: Point, glyph: char },
    Print { pos: Point, text: String, fg: Color, bg: Color },
    PrintPlain { pos: Point, text: String },
}

/// The largest width or height of a canvas.
pub const CANVAS_LIMIT: i32 = 1048576;

/// Whether the drawing `new` goes on from `old`: `old` followed by more.
pub open spec fn extends(new: Seq<DrawCmd>, old: Seq<DrawCmd>) -> bool {
    old.len() <= new.len() && new.take(old.len() as int) == old
}

/// Every drawing goes on from itself.
pub proof fn lemma_extends_refl(a: Seq<DrawCmd>)
    ensures
        extends(a, a),
{
    assert(a.take(a.len() as int) =~= a);
}

/// One more command keeps a drawing going on from the same start.
pub proof fn lemma_extends_step(new: Seq<DrawCmd>, prev: Seq<DrawCmd>, old: Seq<DrawCmd>)
    requires
        extends(prev, old),
        new.len() == prev.len() + 1,
        new.drop_last() == prev,
    ensures
        extends(new, old),
{
    assert(new.take(old.len() as int) =~= prev.take(old.len() as int));
}

/// Going on from a drawing that goes on from `a` goes on from `a`.
pub proof fn lemma_extends_trans(c: Seq<DrawCmd>, b: Seq<DrawCmd>, a: Seq<DrawCmd>)
    requires
        extends(c, b),
        extends(b, a),
    ensures
        extends(c, a),
{
    assert(c.take(a.len() as int) =~= b.take(a.len() as int));
}

/// What `new` drew after `old`.
pub open spec fn added(new: Seq<DrawCmd>, old: Seq<DrawCmd>) -> Seq<DrawCmd> {
    new.subrange(old.len() as int, new.len() as int)
}

/// What was drawn after `a` is what was drawn up to `b`, then what was drawn
/// after `b`.
pub proof fn lemma_added_concat(c: Seq<DrawCmd>, b: Seq<DrawCmd>, a: Seq<DrawCmd>)
    requires
        extends(c, b),
        extends(b, a),
    ensures
        added(c, a) == added(b, a) + added(c, b),
        extends(c, a),
{
    lemma_extends_trans(c, b, a);
    assert forall|i: int| a.len() <= i < b.len() implies c[i] == b[i] by {
        lemma_extends_index(c, b, i);
    }
    assert(added(c, a) =~= added(b, a) + added(c, b));
}

/// A drawing that goes on from another agrees with it where the other is
/// defined.
pub proof fn lemma_extends_index(new: Seq<DrawCmd>, old: Seq<DrawCmd>, i: int)
    requires
        extends(new, old),
        0 <= i < old.len(),
    ensures
        new[i] == old[i],
{
    assert(new.take(old.len() as int)[i] == new[i]);
}

/// A character grid of a given size that records what is drawn on it, in
/// order, for a display to carry out.
pub struct Canvas {
    size: Size,
    cmds: Vec<DrawCmd>,
}

impl Canvas {
    /// What has been drawn so far, in order.
    pub closed spec fn view(&self) -> Seq<DrawCmd> {
        self.cmds@
    }

    pub closed spec fn spec_size(&self) -> Size {
        self.size
    }

    /// The canvas's size is neither negative nor past the screen limit.
    pub open spec fn wf(&self) -> bool {
        &&& 0 <= self.spec_size().width <= CANVAS_LIMIT
        &&& 0 <= self.spec_size().height <= CANVAS_LIMIT
    }

    pub fn new(size: Size) -> (r: Canvas)
        requires
            0 <= size.width <= CANVAS_LIMIT,
            0 <= size.height <= CANVAS_LIMIT,
        ensures
            r.wf(),
            r.spec_size() == size,
            r.view().len() == 0,
    {
        Canvas { size, cmds: Vec::new() }
    }

    pub fn size(&self) -> (r: Size)
        ensures
            r == self.spec_size(),
    {
        self.size
    }

    /// Forgets what was drawn.
    pub fn clear(&mut self)
        ensures
            final(self).view().len() == 0,
            final(self).spec_size() == old(self).spec_size(),
    {
        self.cmds.clear();
    }

    /// Hands out what was drawn, in order, and starts afresh.
    pub fn flush(&mut self) -> (r: Vec<DrawCmd>)
        ensures
            r@ == old(self).view(),
            final(self).view().len() == 0,
            final(self).spec_size() == old(self).spec_size(),
    {
        let mut out: Vec<DrawCmd> = Vec::new();
        std::mem::swap(&mut out, &mut self.cmds);
        out
    }

    pub fn commands(&self) -> (r: &[DrawCmd])
        ensures
            r@ == self.view(),
    {
        self.cmds.as_slice()
    }

    pub fn put(&mut self, pos: Point, glyph: char, fg: Color, bg: Color)
        ensures
            final(self).view() == old(self).view().push(DrawCmd::Put { pos, glyph, fg, bg }),
            final(self).view().drop_last() == old(self).view(),
            final(self).spec_size() == old(self).spec_size(),
    {
        self.cmds.push(DrawCmd::Put { pos, glyph, fg, bg });
        assert(self.cmds@.drop_last() =~= old(self).cmds@);
    }

    pub fn put_plain(&mut self, pos: Point, glyph: char)
        ensures
            final(self).view() == old(self).view().push(DrawCmd::PutPlain { pos, glyph }),
            final(self).view().drop_last() == old(self).view(),
            final(self).spec_size() == old(self).spec_size(),
    {
        self.cmds.push(DrawCmd::PutPlain { pos, glyph });
        assert(self.cmds@.drop_last() =~= old(self).cmds@);
    }

    pub fn print(&mut self, pos: Point, text: &str, fg: Color, bg: Color)
        ensures
            final(self).view().len() == old(self).view().len() + 1,
            final(self).view().drop_last() == old(self).view(),
            final(self).view().last() matches DrawCmd::Print { pos: p, text: t, fg: f, bg: b }
                && p == pos && t@ == text@ && f == fg && b == bg,
            final(self).spec_size() == old(self).spec_size(),
    {
        self.cmds.push(DrawCmd::Print { pos, text: text.to_owned(), fg, bg });
    }

    pub fn print_plain(&mut self, pos: Point, text: &str)
        ensures
            final(self).view().len() == old(self).view().len() + 1,
            final(self).view().drop_last() == old(self).view(),
            final(self).view().last() matches DrawCmd::PrintPlain { pos: p, text: t }
                && p == pos && t@ == text@,
            final(self).spec_size() == old(self).spec_size(),
    {
        self.cmds.push(DrawCmd::PrintPlain { pos, text: text.to_owned() });
    }
}

} // verus!
