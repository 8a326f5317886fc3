use vstd::prelude::*;

use crate::units::{Point, Size};

verus! {

/// How close, in columns, the player may come to the left or right edge of
/// the map frame before the view scrolls.
pub const MARGIN_X: i32 = 10;

/// How close, in rows, the player may come to the top or bottom edge of the
/// map frame before the view scrolls.
pub const MARGIN_Y: i32 = 5;

/// The view offset along one axis after one frame: `view` is the offset, `local`
/// the player's position relative to the frame, `frame` the frame's extent,
/// `map` the map's, and `margin` the margin on that axis. The view first moves
/// forwards by one if the player is within `frame - margin` of its start and
/// the map goes on, then backwards by one if the player is within `margin` of
/// the start and the view is not at the map's start.
pub open spec fn scroll_axis(view: int, local: int, frame: int, map: int, margin: int) -> int {
    let v1 = if local >= frame - margin && view + frame < map {
        view + 1
    } else {
        view
    };
    if local <= margin && v1 > 0 {
        v1 - 1
    } else {
        v1
    }
}

/// The view offset after one frame with the player at `player`.
pub open spec fn spec_scroll(view: Point, player: Point, frame: Size, map: Size) -> Point {
    Point {
        x: scroll_axis(view.x as int, player.x - view.x, frame.width as int, map.width as int, MARGIN_X as int) as i32,
        y: scroll_axis(view.y as int, player.y - view.y, frame.height as int, map.height as int, MARGIN_Y as int) as i32,
    }
}

/// A view offset along one axis shows no cell past the map's edges, unless
/// the map is narrower than the frame, where the view stays at the start.
pub open spec fn axis_in_bounds(view: int, frame: int, map: int) -> bool {
    0 <= view && (view + frame <= map || view == 0)
}

/// The view offset keeps the frame within the map on both axes.
pub open spec fn view_in_bounds(view: Point, frame: Size, map: Size) -> bool {
    axis_in_bounds(view.x as int, frame.width as int, map.width as int)
        && axis_in_bounds(view.y as int, frame.height as int, map.height as int)
}

/// One axis of `scroll_view`, in wide integers.
fn scroll_axis_exec(view: i32, local: i64, frame: i32, map: i32, margin: i32) -> (r: i32)
    requires
        frame >= 0,
    ensures
        r == scroll_axis(view as int, local as int, frame as int, map as int, margin as int),
{
    let mut v: i32 = view;
    if local >= frame as i64 - margin as i64 && (view as i64) + (frame as i64) < map as i64 {
        v = view + 1;
    }
    if local <= margin as i64 && v > 0 {
        v = v - 1;
    }
    v
}

/// Nudges the view offset of the map frame by at most one cell per axis
/// towards the player, when the player comes within the margins of the frame
/// and the map goes on in that direction.
pub fn scroll_view(view: Point, player: Point, frame: Size, map: Size) -> (r: Point)
    requires
        frame.width >= 0,
        frame.height >= 0,
    ensures
        r == spec_scroll(view, player, frame, map),
{
    let local_x: i64 = player.x as i64 - view.x as i64;
    let local_y: i64 = player.y as i64 - view.y as i64;
    let x = scroll_axis_exec(view.x, local_x, frame.width, map.width, MARGIN_X);
    let y = scroll_axis_exec(view.y, local_y, frame.height, map.height, MARGIN_Y);
    Point { x, y }
}

/// Scrolling never takes the view past the map's edges: a view within bounds
/// stays within bounds wherever the player stands.
pub proof fn lemma_scroll_in_bounds(view: Point, player: Point, frame: Size, map: Size)
    requires
        view_in_bounds(view, frame, map),
        frame.width >= 0,
        frame.height >= 0,
    ensures
        view_in_bounds(spec_scroll(view, player, frame, map), frame, map),
{
}

/// Scrolling never makes a view offset negative.
pub proof fn lemma_scroll_nonnegative(view: Point, player: Point, frame: Size, map: Size)
    requires
        view.x >= 0,
        view.y >= 0,
    ensures
        spec_scroll(view, player, frame, map).x >= 0,
        spec_scroll(view, player, frame, map).y >= 0,
{
}

/// The view offset after the player has stood at each of `path` in turn, one
/// frame each.
pub open spec fn scroll_along(view: Point, path: Seq<Point>, frame: Size, map: Size) -> Point
    decreases path.len(),
{
    if path.len() == 0 {
        view
    } else {
        spec_scroll(scroll_along(view, path.drop_last(), frame, map), path.last(), frame, map)
    }
}

/// However the player moves (rightwards without end, say), a view that starts
/// within bounds never shows past the map: its offset never goes beyond
/// `W - fw` across nor `H - fh` down, when the map is at least as large as
/// the frame, and never below 0.
pub proof fn lemma_scroll_along_in_bounds(view: Point, path: Seq<Point>, frame: Size, map: Size)
    requires
        view_in_bounds(view, frame, map),
        frame.width >= 0,
        frame.height >= 0,
    ensures
        view_in_bounds(scroll_along(view, path, frame, map), frame, map),
        map.width >= frame.width ==> scroll_along(view, path, frame, map).x <= map.width - frame.width,
        map.height >= frame.height ==> scroll_along(view, path, frame, map).y <= map.height - frame.height,
    decreases path.len(),
{
    if path.len() > 0 {
        lemma_scroll_along_in_bounds(view, path.drop_last(), frame, map);
        lemma_scroll_in_bounds(scroll_along(view, path.drop_last(), frame, map), path.last(), frame, map);
    }
}

} // verus!
