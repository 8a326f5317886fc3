use vstd::prelude::*;

use crate::canvas::{Canvas, Color, DrawCmd};
use crate::units::{Point, Rectangle, Size, BORDER};

verus! {

/// The largest coordinate or extent of a panel on the screen.
pub const SCREEN_LIMIT: i32 = 1048576;

/// A bordered panel of the screen; it draws relative to the area inside its
/// border.
#[derive(Clone, Copy, Debug, PartialEq, Eq, Structural)]
pub struct Widget {
    pub rect: Rectangle,
}

impl Widget {
    /// The panel has room for its border and lies within the screen limits.
    pub open spec fn wf(self) -> bool {
        &&& self.rect.wf()
        &&& 0 <= self.rect.location.x <= SCREEN_LIMIT
        &&& 0 <= self.rect.location.y <= SCREEN_LIMIT
        &&& self.rect.size.width <= SCREEN_LIMIT
        &&& self.rect.size.height <= SCREEN_LIMIT
    }

    /// The top-left cell inside the border.
    pub open spec fn origin(self) -> Point {
        Point {
            x: (self.rect.location.x + BORDER) as i32,
            y: (self.rect.location.y + BORDER) as i32,
        }
    }

    /// The size of the area inside the border.
    pub open spec fn inner(self) -> Size {
        Size {
            width: (self.rect.size.width - BORDER) as i32,
            height: (self.rect.size.height - BORDER) as i32,
        }
    }

    /// Whether `pos`, taken relative to the inner area, lies inside it.
    pub open spec fn contains(self, pos: Point) -> bool {
        0 <= pos.x < self.inner().width && 0 <= pos.y < self.inner().height
    }

    /// The absolute position of `pos` taken relative to the inner area.
    pub open spec fn absolute(self, pos: Point) -> Point {
        Point { x: (self.origin().x + pos.x) as i32, y: (self.origin().y + pos.y) as i32 }
    }

    pub fn new(location: Point, size: Size) -> (r: Widget)
        ensures
            r.rect.location == location,
            r.rect.size == size,
    {
        Widget { rect: Rectangle::new(location, size) }
    }

    pub fn inner_exec(&self) -> (r: Size)
        requires
            self.wf(),
        ensures
            r == self.inner(),
    {
        self.rect.inner_size()
    }

    fn absolute_exec(&self, pos: Point) -> (r: Point)
        requires
            self.wf(),
            self.contains(pos),
        ensures
            r == self.absolute(pos),
    {
        Point { x: self.rect.location.x + BORDER + pos.x, y: self.rect.location.y + BORDER + pos.y }
    }

    /// Puts a glyph at `pos` inside the panel.
    pub fn put(&self, canvas: &mut Canvas, pos: Point, glyph: char, fg: Color, bg: Color)
        requires
            self.wf(),
            self.contains(pos),
        ensures
            final(canvas).view() == old(canvas).view().push(
                DrawCmd::Put { pos: self.absolute(pos), glyph, fg, bg },
            ),
            final(canvas).view().drop_last() == old(canvas).view(),
            final(canvas).spec_size() == old(canvas).spec_size(),
    {
        canvas.put(self.absolute_exec(pos), glyph, fg, bg);
    }

    /// Puts a glyph at `pos` inside the panel, in the default colours.
    pub fn put_plain(&self, canvas: &mut Canvas, pos: Point, glyph: char)
        requires
            self.wf(),
            self.contains(pos),
        ensures
            final(canvas).view() == old(canvas).view().push(
                DrawCmd::PutPlain { pos: self.absolute(pos), glyph },
            ),
            final(canvas).view().drop_last() == old(canvas).view(),
            final(canvas).spec_size() == old(canvas).spec_size(),
    {
        canvas.put_plain(self.absolute_exec(pos), glyph);
    }

    /// Prints `text` from `pos` inside the panel.
    pub fn print(&self, canvas: &mut Canvas, pos: Point, text: &str, fg: Color, bg: Color)
        requires
            self.wf(),
            self.contains(pos),
        ensures
            final(canvas).view().len() == old(canvas).view().len() + 1,
            final(canvas).view().drop_last() == old(canvas).view(),
            final(canvas).view().last() matches DrawCmd::Print { pos: p, text: t, fg: f, bg: b }
                && p == self.absolute(pos) && t@ == text@ && f == fg && b == bg,
            final(canvas).spec_size() == old(canvas).spec_size(),
    {
        canvas.print(self.absolute_exec(pos), text, fg, bg);
    }
}

} // verus!
