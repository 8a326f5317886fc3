use vstd::prelude::*;

use crate::canvas::{
    added, extends, lemma_extends_index, lemma_extends_refl, lemma_extends_step, Canvas, Color,
    DrawCmd,
};
use crate::units::fits_i32;
use crate::units::{Point, Rectangle};

verus! {

/// Glyphs of the panel frames in the game's font.
pub const GLYPH_RIGHT_EDGE: char = '\u{0}';
pub const GLYPH_BOTTOM_EDGE: char = '\u{1}';
pub const GLYPH_TOP_EDGE: char = '\u{2}';
pub const GLYPH_LEFT_EDGE: char = '\u{3}';
pub const GLYPH_TOP_RIGHT: char = '\u{4}';
pub const GLYPH_BOTTOM_LEFT: char = '\u{5}';
pub const GLYPH_TOP_LEFT: char = '\u{6}';
pub const GLYPH_BOTTOM_RIGHT: char = '\u{7}';
pub const GLYPH_TITLE_LEFT: char = '\u{81}';
pub const GLYPH_TITLE_RIGHT: char = '\u{82}';

/// Drawing `glyph` at `(dx, dy)` from the top-left corner of `rect`.
pub open spec fn frame_cell(rect: Rectangle, dx: int, dy: int, glyph: char) -> DrawCmd {
    DrawCmd::PutPlain {
        pos: Point { x: (rect.location.x + dx) as i32, y: (rect.location.y + dy) as i32 },
        glyph,
    }
}

/// The top and bottom edge cells of column `j` of the frame of `rect`.
pub open spec fn column_cells(rect: Rectangle, j: int) -> (DrawCmd, DrawCmd) {
    (
        frame_cell(rect, j, 0, GLYPH_TOP_EDGE),
        frame_cell(rect, j, rect.size.height as int, GLYPH_BOTTOM_EDGE),
    )
}

/// The left and right edge cells of row `j` of the frame of `rect`.
pub open spec fn row_cells(rect: Rectangle, j: int) -> (DrawCmd, DrawCmd) {
    (
        frame_cell(rect, 0, j, GLYPH_LEFT_EDGE),
        frame_cell(rect, rect.size.width as int, j, GLYPH_RIGHT_EDGE),
    )
}

/// Whether `v`, from index `at` on, holds the frame of `rect`: the four
/// corners, then the top and bottom cells of each inner column from the left,
/// then the left and right cells of each inner row from the top.
pub open spec fn box_drawn(v: Seq<DrawCmd>, at: int, rect: Rectangle) -> bool {
    let r = rect.size.width as int;
    let b = rect.size.height as int;
    &&& v[at] == frame_cell(rect, 0, 0, GLYPH_TOP_LEFT)
    &&& v[at + 1] == frame_cell(rect, r, 0, GLYPH_TOP_RIGHT)
    &&& v[at + 2] == frame_cell(rect, 0, b, GLYPH_BOTTOM_LEFT)
    &&& v[at + 3] == frame_cell(rect, r, b, GLYPH_BOTTOM_RIGHT)
    &&& forall|j: int|
        1 <= j < r ==> #[trigger] column_cells(rect, j) == (v[at + 2 + 2 * j], v[at + 3 + 2 * j])
    &&& forall|j: int|
        1 <= j < b ==> #[trigger] row_cells(rect, j) == (v[at + 2 * r + 2 * j], v[at + 2 * r + 2 * j + 1])
}

/// How many cells the border of a rectangle of size `w` by `h` has: it runs
/// from column 0 to column `w` and from row 0 to row `h`.
pub open spec fn border_cells(w: int, h: int) -> int {
    2 * w + 2 * h
}

/// Draws the frame of `rect` on its outermost cells, from `location` to
/// `location + size`: one glyph per cell.
pub fn draw_box(canvas: &mut Canvas, rect: Rectangle)
    requires
        rect.wf(),
    ensures
        final(canvas).spec_size() == old(canvas).spec_size(),
        final(canvas).view().len() == old(canvas).view().len() + border_cells(
            rect.size.width as int,
            rect.size.height as int,
        ),
        extends(final(canvas).view(), old(canvas).view()),
        box_drawn(final(canvas).view(), old(canvas).view().len() as int, rect),
{
    let ghost start = canvas.view();
    let loc = rect.location;
    let right = rect.size.width;
    let bottom = rect.size.height;

    canvas.put_plain(loc.offset(0, 0), GLYPH_TOP_LEFT);
    canvas.put_plain(loc.offset(right, 0), GLYPH_TOP_RIGHT);
    canvas.put_plain(loc.offset(0, bottom), GLYPH_BOTTOM_LEFT);
    canvas.put_plain(loc.offset(right, bottom), GLYPH_BOTTOM_RIGHT);
    assert(extends(canvas.view(), start)) by {
        assert(canvas.view().take(start.len() as int) =~= start);
    }

    let mut x: i32 = 1;
    while x < right
        invariant
            rect.wf(),
            loc == rect.location,
            right == rect.size.width,
            bottom == rect.size.height,
            1 <= x <= right,
            canvas.spec_size() == old(canvas).spec_size(),
            canvas.view().len() == start.len() + 4 + 2 * (x - 1),
            extends(canvas.view(), start),
            canvas.view()[start.len() as int] == frame_cell(rect, 0, 0, GLYPH_TOP_LEFT),
            canvas.view()[start.len() + 1int] == frame_cell(rect, right as int, 0, GLYPH_TOP_RIGHT),
            canvas.view()[start.len() + 2int] == frame_cell(rect, 0, bottom as int, GLYPH_BOTTOM_LEFT),
            canvas.view()[start.len() + 3int] == frame_cell(rect, right as int, bottom as int, GLYPH_BOTTOM_RIGHT),
            forall|j: int|
                1 <= j < x ==> #[trigger] column_cells(rect, j) == (
                    canvas.view()[start.len() + 2 + 2 * j],
                    canvas.view()[start.len() + 3 + 2 * j],
                ),
        decreases right - x,
    {
        let ghost p0 = canvas.view();
        canvas.put_plain(loc.offset(x, 0), GLYPH_TOP_EDGE);
        proof { lemma_extends_step(canvas.view(), p0, start); }
        let ghost p1 = canvas.view();
        canvas.put_plain(loc.offset(x, bottom), GLYPH_BOTTOM_EDGE);
        proof {
            lemma_extends_step(canvas.view(), p1, start);
            assert forall|j: int| 1 <= j < x + 1 implies #[trigger] column_cells(rect, j) == (
                canvas.view()[start.len() + 2 + 2 * j],
                canvas.view()[start.len() + 3 + 2 * j],
            ) by {
                if j < x {
                    assert(canvas.view()[start.len() + 2 + 2 * j] == p0[start.len() + 2 + 2 * j]);
                    assert(canvas.view()[start.len() + 3 + 2 * j] == p0[start.len() + 3 + 2 * j]);
                }
            }
        }
        x = x + 1;
    }

    let mut y: i32 = 1;
    while y < bottom
        invariant
            rect.wf(),
            loc == rect.location,
            right == rect.size.width,
            bottom == rect.size.height,
            1 <= y <= bottom,
            canvas.spec_size() == old(canvas).spec_size(),
            canvas.view().len() == start.len() + 4 + 2 * (right - 1) + 2 * (y - 1),
            extends(canvas.view(), start),
            canvas.view()[start.len() as int] == frame_cell(rect, 0, 0, GLYPH_TOP_LEFT),
            canvas.view()[start.len() + 1int] == frame_cell(rect, right as int, 0, GLYPH_TOP_RIGHT),
            canvas.view()[start.len() + 2int] == frame_cell(rect, 0, bottom as int, GLYPH_BOTTOM_LEFT),
            canvas.view()[start.len() + 3int] == frame_cell(rect, right as int, bottom as int, GLYPH_BOTTOM_RIGHT),
            forall|j: int|
                1 <= j < right ==> #[trigger] column_cells(rect, j) == (
                    canvas.view()[start.len() + 2 + 2 * j],
                    canvas.view()[start.len() + 3 + 2 * j],
                ),
            forall|j: int|
                1 <= j < y ==> #[trigger] row_cells(rect, j) == (
                    canvas.view()[start.len() + 2 * right + 2 * j],
                    canvas.view()[start.len() + 2 * right + 2 * j + 1],
                ),
        decreases bottom - y,
    {
        let ghost p0 = canvas.view();
        canvas.put_plain(loc.offset(0, y), GLYPH_LEFT_EDGE);
        proof { lemma_extends_step(canvas.view(), p0, start); }
        let ghost p1 = canvas.view();
        canvas.put_plain(loc.offset(right, y), GLYPH_RIGHT_EDGE);
        proof {
            lemma_extends_step(canvas.view(), p1, start);
            assert forall|j: int| 1 <= j < right implies #[trigger] column_cells(rect, j) == (
                canvas.view()[start.len() + 2 + 2 * j],
                canvas.view()[start.len() + 3 + 2 * j],
            ) by {
                assert(canvas.view()[start.len() + 2 + 2 * j] == p0[start.len() + 2 + 2 * j]);
                assert(canvas.view()[start.len() + 3 + 2 * j] == p0[start.len() + 3 + 2 * j]);
            }
            assert forall|j: int| 1 <= j < y + 1 implies #[trigger] row_cells(rect, j) == (
                canvas.view()[start.len() + 2 * right + 2 * j],
                canvas.view()[start.len() + 2 * right + 2 * j + 1],
            ) by {
                if j < y {
                    assert(canvas.view()[start.len() + 2 * right + 2 * j] == p0[start.len() + 2 * right + 2 * j]);
                    assert(canvas.view()[start.len() + 2 * right + 2 * j + 1] == p0[start.len() + 2 * right + 2 * j + 1]);
                }
            }
        }
        y = y + 1;
    }
}

/// A frame drawn in a drawing stays drawn when the drawing goes on.
pub proof fn lemma_box_drawn_extends(new: Seq<DrawCmd>, old: Seq<DrawCmd>, at: int, rect: Rectangle)
    requires
        extends(new, old),
        0 <= at,
        at + border_cells(rect.size.width as int, rect.size.height as int) <= old.len(),
        rect.wf(),
        box_drawn(old, at, rect),
    ensures
        box_drawn(new, at, rect),
{
    let r = rect.size.width as int;
    let b = rect.size.height as int;
    lemma_extends_index(new, old, at);
    lemma_extends_index(new, old, at + 1);
    lemma_extends_index(new, old, at + 2);
    lemma_extends_index(new, old, at + 3);
    assert forall|j: int| 1 <= j < r implies #[trigger] column_cells(rect, j) == (
        new[at + 2 + 2 * j],
        new[at + 3 + 2 * j],
    ) by {
        lemma_extends_index(new, old, at + 2 + 2 * j);
        lemma_extends_index(new, old, at + 3 + 2 * j);
    }
    assert forall|j: int| 1 <= j < b implies #[trigger] row_cells(rect, j) == (
        new[at + 2 * r + 2 * j],
        new[at + 2 * r + 2 * j + 1],
    ) by {
        lemma_extends_index(new, old, at + 2 * r + 2 * j);
        lemma_extends_index(new, old, at + 2 * r + 2 * j + 1);
    }
}

/// Whether `cmd` prints `title` into the top edge of `rect`.
pub open spec fn is_title_print(cmd: DrawCmd, rect: Rectangle, title: Seq<char>) -> bool {
    cmd matches DrawCmd::Print { pos, text, fg, bg } && pos == (Point {
        x: (rect.location.x + 4) as i32,
        y: rect.location.y,
    }) && text@ == title && fg == Color::Black && bg == Color::Parchment
}

/// How many commands a titled frame of `rect` takes.
pub open spec fn titled_box_len(rect: Rectangle) -> int {
    border_cells(rect.size.width as int, rect.size.height as int) + 5
}

/// Whether `v`, from index `at` on, holds the frame of `rect` with `title`:
/// the frame, then the two ornaments round the title, the two ends of its
/// background, and the title itself.
pub open spec fn titled_box_drawn(v: Seq<DrawCmd>, at: int, rect: Rectangle, title: Seq<char>) -> bool {
    let b = at + border_cells(rect.size.width as int, rect.size.height as int);
    let n = title.len() as int;
    &&& box_drawn(v, at, rect)
    &&& v[b] == frame_cell(rect, 2, 0, GLYPH_TOP_RIGHT)
    &&& v[b + 1] == frame_cell(rect, n + 5, 0, GLYPH_TOP_LEFT)
    &&& v[b + 2] == frame_cell(rect, 3, 0, GLYPH_TITLE_LEFT)
    &&& v[b + 3] == frame_cell(rect, n + 4, 0, GLYPH_TITLE_RIGHT)
    &&& is_title_print(v[b + 4], rect, title)
}

/// Whether `seg` is exactly the frame of `rect` with `title`.
pub open spec fn titled_box_shown(seg: Seq<DrawCmd>, rect: Rectangle, title: Seq<char>) -> bool {
    seg.len() == titled_box_len(rect) && titled_box_drawn(seg, 0, rect, title)
}

/// Draws the frame of `rect` with `title` set into its top edge, on a
/// parchment background between two ornaments.
pub fn draw_box_with_title(canvas: &mut Canvas, title: &str, rect: Rectangle)
    requires
        rect.wf(),
        title@.len() + 5 <= i32::MAX,
        fits_i32(rect.location.x + title@.len() + 5),
    ensures
        final(canvas).spec_size() == old(canvas).spec_size(),
        final(canvas).view().len() == old(canvas).view().len() + titled_box_len(rect),
        extends(final(canvas).view(), old(canvas).view()),
        titled_box_shown(added(final(canvas).view(), old(canvas).view()), rect, title@),
{
    let ghost start = canvas.view();
    draw_box(canvas, rect);
    let ghost boxed = canvas.view();
    let loc = rect.location;
    let n = title.unicode_len() as i32;
    let ghost b = boxed.len() as int;
    canvas.put_plain(loc.offset(2, 0), GLYPH_TOP_RIGHT);
    canvas.put_plain(loc.offset(n + 5, 0), GLYPH_TOP_LEFT);
    canvas.put_plain(loc.offset(3, 0), GLYPH_TITLE_LEFT);
    canvas.put_plain(loc.offset(n + 4, 0), GLYPH_TITLE_RIGHT);
    let ghost ends = canvas.view();
    assert(ends[b] == frame_cell(rect, 2, 0, GLYPH_TOP_RIGHT));
    assert(ends[b + 1] == frame_cell(rect, n + 5, 0, GLYPH_TOP_LEFT));
    assert(ends[b + 2] == frame_cell(rect, 3, 0, GLYPH_TITLE_LEFT));
    assert(ends[b + 3] == frame_cell(rect, n + 4, 0, GLYPH_TITLE_RIGHT));
    canvas.print(loc.offset(4, 0), title, Color::Black, Color::Parchment);
    proof {
        assert(canvas.view().drop_last()[b] == ends[b]);
        assert(canvas.view().drop_last()[b + 1] == ends[b + 1]);
        assert(canvas.view().drop_last()[b + 2] == ends[b + 2]);
        assert(canvas.view().drop_last()[b + 3] == ends[b + 3]);
        assert(canvas.view().take(boxed.len() as int) =~= boxed);
        assert(canvas.view().take(start.len() as int) =~= start);
        lemma_box_drawn_extends(canvas.view(), boxed, start.len() as int, rect);
        let v = canvas.view();
        let at = start.len() as int;
        let seg = added(v, start);
        let r = rect.size.width as int;
        let bt = rect.size.height as int;
        assert forall|j: int| 1 <= j < r implies #[trigger] column_cells(rect, j) == (
            seg[2 + 2 * j],
            seg[3 + 2 * j],
        ) by {
            assert(column_cells(rect, j) == (v[at + 2 + 2 * j], v[at + 3 + 2 * j]));
        }
        assert forall|j: int| 1 <= j < bt implies #[trigger] row_cells(rect, j) == (
            seg[2 * r + 2 * j],
            seg[2 * r + 2 * j + 1],
        ) by {
            assert(row_cells(rect, j) == (v[at + 2 * r + 2 * j], v[at + 2 * r + 2 * j + 1]));
        }
        let bb = border_cells(r, bt);
        assert(seg[bb] == v[at + bb]);
        assert(seg[bb + 1] == v[at + bb + 1]);
        assert(seg[bb + 2] == v[at + bb + 2]);
        assert(seg[bb + 3] == v[at + bb + 3]);
        assert(seg[bb + 4] == v[at + bb + 4]);
        assert(seg[0] == v[at]);
        assert(seg[1] == v[at + 1]);
        assert(seg[2] == v[at + 2]);
        assert(seg[3] == v[at + 3]);
    }
}

} // verus!
