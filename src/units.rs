use vstd::prelude::*;

verus! {

/// One of the four grid directions.
#[derive(Clone, Copy, Debug, PartialEq, Eq, Structural)]
pub enum Direction {
    Up,
    Down,
    Left,
    Right,
}

impl Direction {
    /// Horizontal component of the unit offset.
    pub open spec fn dx(self) -> int {
        match self {
            Direction::Left => -1,
            Direction::Right => 1,
            _ => 0,
        }
    }

    /// Vertical component of the unit offset (y grows downwards).
    pub open spec fn dy(self) -> int {
        match self {
            Direction::Up => -1,
            Direction::Down => 1,
            _ => 0,
        }
    }

    /// The unit offset of this direction.
    pub fn as_tuple(&self) -> (r: (i32, i32))
        ensures
            r.0 == self.dx(),
            r.1 == self.dy(),
    {
        match self {
            Direction::Up => (0, -1),
            Direction::Down => (0, 1),
            Direction::Left => (-1, 0),
            Direction::Right => (1, 0),
        }
    }
}

/// Whether `v` fits in an `i32`.
pub open spec fn fits_i32(v: int) -> bool {
    i32::MIN <= v <= i32::MAX
}

/// A position on the tile grid or on the console.
#[derive(Clone, Copy, Debug, PartialEq, Eq, Structural)]
pub struct Point {
    pub x: i32,
    pub y: i32,
}

impl Point {
    pub fn new(x: i32, y: i32) -> (r: Point)
        ensures
            r.x == x,
            r.y == y,
    {
        Point { x, y }
    }

    pub fn zero() -> (r: Point)
        ensures
            r.x == 0,
            r.y == 0,
    {
        Point { x: 0, y: 0 }
    }

    /// Whether this point shifted by `(dx, dy)` is still representable.
    pub open spec fn can_offset(self, dx: int, dy: int) -> bool {
        fits_i32(self.x + dx) && fits_i32(self.y + dy)
    }

    /// Whether one step in `dir` from this point is representable.
    pub open spec fn can_step(self, dir: Direction) -> bool {
        self.can_offset(dir.dx(), dir.dy())
    }

    /// This point translated by `(dx, dy)`.
    pub fn offset(&self, dx: i32, dy: i32) -> (r: Point)
        requires
            self.can_offset(dx as int, dy as int),
        ensures
            r.x == self.x + dx,
            r.y == self.y + dy,
    {
        Point { x: self.x + dx, y: self.y + dy }
    }

    /// This point translated by another point taken as an offset.
    pub fn add(&self, other: Point) -> (r: Point)
        requires
            self.can_offset(other.x as int, other.y as int),
        ensures
            r.x == self.x + other.x,
            r.y == self.y + other.y,
    {
        self.offset(other.x, other.y)
    }

    /// This point translated by the opposite of another point.
    pub fn sub(&self, other: Point) -> (r: Point)
        requires
            self.can_offset(-other.x, -other.y),
        ensures
            r.x == self.x - other.x,
            r.y == self.y - other.y,
    {
        Point { x: self.x - other.x, y: self.y - other.y }
    }

    /// The neighbouring point one step in `dir`.
    pub fn move_dir(&self, dir: Direction) -> (r: Point)
        requires
            self.can_step(dir),
        ensures
            r.x == self.x + dir.dx(),
            r.y == self.y + dir.dy(),
    {
        let (dx, dy) = dir.as_tuple();
        self.offset(dx, dy)
    }

    pub fn up(&self, n: i32) -> (r: Point)
        requires
            self.can_offset(0, -n),
        ensures
            r.x == self.x,
            r.y == self.y - n,
    {
        Point { x: self.x, y: self.y - n }
    }

    pub fn down(&self, n: i32) -> (r: Point)
        requires
            self.can_offset(0, n as int),
        ensures
            r.x == self.x,
            r.y == self.y + n,
    {
        Point { x: self.x, y: self.y + n }
    }

    pub fn left(&self, n: i32) -> (r: Point)
        requires
            self.can_offset(-n, 0),
        ensures
            r.x == self.x - n,
            r.y == self.y,
    {
        Point { x: self.x - n, y: self.y }
    }

    pub fn right(&self, n: i32) -> (r: Point)
        requires
            self.can_offset(n as int, 0),
        ensures
            r.x == self.x + n,
            r.y == self.y,
    {
        Point { x: self.x + n, y: self.y }
    }

    pub fn as_tuple(&self) -> (r: (i32, i32))
        ensures
            r == (self.x, self.y),
    {
        (self.x, self.y)
    }
}

/// A width and a height.
#[derive(Clone, Copy, Debug, PartialEq, Eq, Structural)]
pub struct Size {
    pub width: i32,
    pub height: i32,
}

impl Size {
    pub fn new(width: i32, height: i32) -> (r: Size)
        ensures
            r.width == width,
            r.height == height,
    {
        Size { width, height }
    }

    pub fn as_tuple(&self) -> (r: (i32, i32))
        ensures
            r == (self.width, self.height),
    {
        (self.width, self.height)
    }
}

/// Width of the border drawn around a panel, on each side.
pub const BORDER: i32 = 1;

/// A rectangle given by its top-left corner and its size. As a panel it
/// covers the cells from `location` to `location + size`, both included; the
/// outermost of them are the border.
#[derive(Clone, Copy, Debug, PartialEq, Eq, Structural)]
pub struct Rectangle {
    pub location: Point,
    pub size: Size,
}

impl Rectangle {
    /// A rectangle whose corners and inner area are representable.
    pub open spec fn wf(self) -> bool {
        &&& self.size.width >= BORDER
        &&& self.size.height >= BORDER
        &&& fits_i32(self.location.x + self.size.width)
        &&& fits_i32(self.location.y + self.size.height)
    }

    pub fn new(location: Point, size: Size) -> (r: Rectangle)
        ensures
            r.location == location,
            r.size == size,
    {
        Rectangle { location, size }
    }

    pub fn location(&self) -> (r: Point)
        ensures
            r == self.location,
    {
        self.location
    }

    pub fn width(&self) -> (r: i32)
        ensures
            r == self.size.width,
    {
        self.size.width
    }

    pub fn height(&self) -> (r: i32)
        ensures
            r == self.size.height,
    {
        self.size.height
    }

    /// The top-left cell inside the border.
    pub fn inner_location(&self) -> (r: Point)
        requires
            self.wf(),
        ensures
            r.x == self.location.x + BORDER,
            r.y == self.location.y + BORDER,
    {
        Point { x: self.location.x + BORDER, y: self.location.y + BORDER }
    }

    /// The size of the area inside the border.
    pub fn inner_size(&self) -> (r: Size)
        requires
            self.wf(),
        ensures
            r.width == self.size.width - BORDER,
            r.height == self.size.height - BORDER,
            r.width >= 0,
            r.height >= 0,
    {
        Size { width: self.size.width - BORDER, height: self.size.height - BORDER }
    }

    /// This rectangle moved by `(dx, dy)`.
    pub fn translate(&self, dx: i32, dy: i32) -> (r: Rectangle)
        requires
            self.location.can_offset(dx as int, dy as int),
        ensures
            r.location.x == self.location.x + dx,
            r.location.y == self.location.y + dy,
            r.size == self.size,
    {
        Rectangle { location: self.location.offset(dx, dy), size: self.size }
    }

    /// This rectangle grown by `(dw, dh)`, its location kept.
    pub fn resize(&self, dw: i32, dh: i32) -> (r: Rectangle)
        requires
            fits_i32(self.size.width + dw),
            fits_i32(self.size.height + dh),
        ensures
            r.location == self.location,
            r.size.width == self.size.width + dw,
            r.size.height == self.size.height + dh,
    {
        Rectangle {
            location: self.location,
            size: Size { width: self.size.width + dw, height: self.size.height + dh },
        }
    }
}

} // verus!
