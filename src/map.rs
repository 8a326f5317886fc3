use vstd::prelude::*;

use crate::units::Size;

verus! {

/// Conversion of a character of a textual map into a value.
pub trait FromChar {
    type Ret;

    /// The value that `c` stands for.
    spec fn spec_from_char(c: char) -> Self::Ret;

    fn from_char(c: char) -> (r: Self::Ret)
        ensures
            r == Self::spec_from_char(c),
    ;
}

/// One terrain cell of the map grid.
#[derive(Clone, Copy, Debug, PartialEq, Eq, Structural)]
pub enum Tile {
    Empty,
    Wall,
    Floor,
    Grass,
}

/// The tile that a character of a textual map stands for.
pub open spec fn tile_of_char(c: char) -> Tile {
    if c == '#' {
        Tile::Wall
    } else if c == '.' {
        Tile::Floor
    } else if c == ',' {
        Tile::Grass
    } else {
        Tile::Empty
    }
}

impl FromChar for Tile {
    type Ret = Tile;

    open spec fn spec_from_char(c: char) -> Tile {
        tile_of_char(c)
    }

    fn from_char(c: char) -> (r: Tile) {
        if c == '#' {
            Tile::Wall
        } else if c == '.' {
            Tile::Floor
        } else if c == ',' {
            Tile::Grass
        } else {
            Tile::Empty
        }
    }
}

/// The error of a map that cannot be built.
#[derive(Clone, Copy, Debug, PartialEq, Eq)]
pub struct MapBuildError {
    pub msg: &'static str,
}

impl MapBuildError {
    pub fn new(message: &'static str) -> (r: MapBuildError)
        ensures
            r.msg == message,
    {
        MapBuildError { msg: message }
    }
}

/// The message of the error given for rows of different lengths.
pub const DIMENSION_MISMATCH: &'static str = "Different length lines";

/// Whether all rows have the same length.
pub open spec fn rectangular<A>(rows: Seq<Seq<A>>) -> bool {
    forall|i: int, j: int|
        0 <= i < rows.len() && 0 <= j < rows.len() ==> #[trigger] rows[i].len()
            == #[trigger] rows[j].len()
}

/// The width of a grid: the length of its first row, or 0 for no rows.
pub open spec fn grid_width<A>(rows: Seq<Seq<A>>) -> int {
    if rows.len() == 0 {
        0
    } else {
        rows[0].len() as int
    }
}

/// The nested view of a vector of rows.
pub open spec fn rows_view<A>(rows: Seq<Vec<A>>) -> Seq<Seq<A>> {
    rows.map_values(|r: Vec<A>| r@)
}

/// A rectangular grid of tiles and its size.
pub struct TileMap {
    pub tiles: Vec<Vec<Tile>>,
    pub size: Size,
}

impl TileMap {
    /// The grid as rows of tiles.
    pub open spec fn grid(&self) -> Seq<Seq<Tile>> {
        rows_view(self.tiles@)
    }

    /// Every row is `size.width` long and there are `size.height` rows.
    pub open spec fn wf(&self) -> bool {
        &&& self.tiles@.len() == self.size.height
        &&& forall|i: int| 0 <= i < self.tiles@.len() ==> #[trigger] self.tiles@[i]@.len() == self.size.width
    }

    /// Builds a map from its rows, which must all have the same length.
    pub fn new(rows: Vec<Vec<Tile>>) -> (r: Result<TileMap, MapBuildError>)
        requires
            rows@.len() <= i32::MAX,
            forall|i: int| 0 <= i < rows@.len() ==> #[trigger] rows@[i]@.len() <= i32::MAX,
        ensures
            r is Ok <==> rectangular(rows_view(rows@)),
            r matches Ok(m) ==> {
                &&& m.wf()
                &&& m.grid() == rows_view(rows@)
                &&& m.size.width == grid_width(rows_view(rows@))
                &&& m.size.height == rows@.len()
            },
            r matches Err(e) ==> e.msg == DIMENSION_MISMATCH,
    {
        let ghost grid = rows_view(rows@);
        let n = rows.len();
        let width: usize = if n == 0 { 0 } else { rows[0].len() };
        let mut i: usize = 0;
        while i < n
            invariant
                n == rows@.len(),
                grid == rows_view(rows@),
                i <= n,
                n > 0 ==> width == grid[0].len(),
                forall|k: int| 0 <= k < i ==> #[trigger] grid[k].len() == width,
            decreases n - i,
        {
            if rows[i].len() != width {
                assert(grid[i as int].len() != grid[0].len());
                return Err(MapBuildError::new(DIMENSION_MISMATCH));
            }
            i = i + 1;
        }
        assert forall|a: int, b: int| 0 <= a < grid.len() && 0 <= b < grid.len() implies #[trigger] grid[a].len()
            == #[trigger] grid[b].len() by {
            assert(grid[a].len() == width);
            assert(grid[b].len() == width);
        }
        assert forall|k: int| 0 <= k < rows@.len() implies #[trigger] rows@[k]@.len() == width by {
            assert(grid[k] == rows@[k]@);
        }
        let size = Size::new(width as i32, n as i32);
        Ok(TileMap { tiles: rows, size })
    }

    pub fn width(&self) -> (r: i32)
        ensures
            r == self.size.width,
    {
        self.size.width
    }

    pub fn height(&self) -> (r: i32)
        ensures
            r == self.size.height,
    {
        self.size.height
    }

    pub fn size(&self) -> (r: Size)
        ensures
            r == self.size,
    {
        self.size
    }

    /// The tile at column `x` of row `y`.
    pub fn tile(&self, x: usize, y: usize) -> (r: Tile)
        requires
            self.wf(),
            y < self.size.height,
            x < self.size.width,
        ensures
            r == self.grid()[y as int][x as int],
    {
        self.tiles[y][x]
    }
}

/// Splits text at line breaks: the lines completed so far, without the empty
/// ones, and the line under way.
pub open spec fn scan_lines(s: Seq<char>) -> (Seq<Seq<char>>, Seq<char>)
    decreases s.len(),
{
    if s.len() == 0 {
        (seq![], seq![])
    } else {
        let (done, cur) = scan_lines(s.drop_last());
        if s.last() == '\n' {
            if cur.len() > 0 {
                (done.push(cur), seq![])
            } else {
                (done, seq![])
            }
        } else {
            (done, cur.push(s.last()))
        }
    }
}

/// The non-empty lines of a text, in order.
pub open spec fn text_lines(s: Seq<char>) -> Seq<Seq<char>> {
    let (done, cur) = scan_lines(s);
    if cur.len() > 0 {
        done.push(cur)
    } else {
        done
    }
}

/// The tiles that one line of text stands for.
pub open spec fn line_tiles(l: Seq<char>) -> Seq<Tile> {
    l.map_values(|c: char| tile_of_char(c))
}

/// The rows of tiles that lines of text stand for.
pub open spec fn tiles_of_lines(ls: Seq<Seq<char>>) -> Seq<Seq<Tile>> {
    ls.map_values(|l: Seq<char>| line_tiles(l))
}

/// The rows of tiles that a textual map stands for: one row per non-empty line.
pub open spec fn text_rows(s: Seq<char>) -> Seq<Seq<Tile>> {
    tiles_of_lines(text_lines(s))
}

proof fn lemma_rows_view_push(rows: Seq<Vec<Tile>>, r: Vec<Tile>)
    ensures
        rows_view(rows.push(r)) == rows_view(rows).push(r@),
{
    assert(rows_view(rows.push(r)) =~= rows_view(rows).push(r@));
}

proof fn lemma_tiles_of_lines_push(ls: Seq<Seq<char>>, l: Seq<char>)
    ensures
        tiles_of_lines(ls.push(l)) == tiles_of_lines(ls).push(line_tiles(l)),
{
    assert(tiles_of_lines(ls.push(l)) =~= tiles_of_lines(ls).push(line_tiles(l)));
}

proof fn lemma_scan_bounds(s: Seq<char>)
    ensures
        scan_lines(s).0.len() + (if scan_lines(s).1.len() > 0 { 1int } else { 0 }) <= s.len(),
        scan_lines(s).1.len() <= s.len(),
        forall|k: int| 0 <= k < scan_lines(s).0.len() ==> #[trigger] scan_lines(s).0[k].len() <= s.len(),
    decreases s.len(),
{
    if s.len() > 0 {
        lemma_scan_bounds(s.drop_last());
    }
}

/// A value that describes a map.
pub trait IntoMap: Sized {
    /// The rows of tiles that this value describes.
    spec fn spec_rows(&self) -> Seq<Seq<Tile>>;

    /// Whether this value is small enough for a map's size to hold it.
    spec fn fits(&self) -> bool;

    /// Builds the map, or fails when the rows differ in length.
    fn as_map(self) -> (r: Result<TileMap, MapBuildError>)
        requires
            self.fits(),
        ensures
            r is Ok <==> rectangular(self.spec_rows()),
            r matches Ok(m) ==> {
                &&& m.wf()
                &&& m.grid() == self.spec_rows()
                &&& m.size.width == grid_width(self.spec_rows())
                &&& m.size.height == self.spec_rows().len()
            },
            r matches Err(e) ==> e.msg == DIMENSION_MISMATCH,
    ;
}

impl IntoMap for Vec<Vec<Tile>> {
    open spec fn spec_rows(&self) -> Seq<Seq<Tile>> {
        rows_view(self@)
    }

    open spec fn fits(&self) -> bool {
        &&& self@.len() <= i32::MAX
        &&& forall|i: int| 0 <= i < self@.len() ==> #[trigger] self@[i]@.len() <= i32::MAX
    }

    fn as_map(self) -> (r: Result<TileMap, MapBuildError>) {
        TileMap::new(self)
    }
}

impl IntoMap for String {
    open spec fn spec_rows(&self) -> Seq<Seq<Tile>> {
        text_rows(self@)
    }

    open spec fn fits(&self) -> bool {
        self@.len() <= i32::MAX
    }

    fn as_map(self) -> (r: Result<TileMap, MapBuildError>) {
        let rows = rows_of_text(self.as_str());
        TileMap::new(rows)
    }
}

/// The rows of tiles of a textual map: one row per non-empty line, one tile per
/// character.
pub fn rows_of_text(text: &str) -> (r: Vec<Vec<Tile>>)
    requires
        text@.len() <= i32::MAX,
    ensures
        rows_view(r@) == text_rows(text@),
        r@.len() <= i32::MAX,
        forall|i: int| 0 <= i < r@.len() ==> #[trigger] r@[i]@.len() <= i32::MAX,
{
    let ghost s = text@;
    let mut done: Vec<Vec<Tile>> = Vec::new();
    let mut cur: Vec<Tile> = Vec::new();
    for c in it: text.chars()
        invariant
            it.seq() == s,
            rows_view(done@) == tiles_of_lines(scan_lines(s.take(it.index() as int)).0),
            cur@ == line_tiles(scan_lines(s.take(it.index() as int)).1),
    {
        let ghost i = it.index() as int;
        proof {
            assert(s.take(i + 1).drop_last() == s.take(i));
            assert(c == s[i]);
            assert(s.take(i + 1).last() == c);
        }
        if c == '\n' {
            if cur.len() > 0 {
                let line = cur;
                cur = Vec::new();
                proof {
                    lemma_rows_view_push(done@, line);
                    lemma_tiles_of_lines_push(
                        scan_lines(s.take(i)).0,
                        scan_lines(s.take(i)).1,
                    );
                }
                done.push(line);
            }
            assert(cur@ =~= line_tiles(scan_lines(s.take(i + 1)).1));
        } else {
            cur.push(Tile::from_char(c));
            assert(cur@ =~= line_tiles(scan_lines(s.take(i + 1)).1));
        }
    }
    assert(s.take(s.len() as int) == s);
    if cur.len() > 0 {
        proof {
            lemma_rows_view_push(done@, cur);
            lemma_tiles_of_lines_push(scan_lines(s).0, scan_lines(s).1);
        }
        done.push(cur);
    }
    assert(rows_view(done@) == text_rows(s));
    proof {
        lemma_scan_bounds(s);
        let lines = text_lines(s);
        assert forall|k: int| 0 <= k < done@.len() implies #[trigger] done@[k]@.len() <= i32::MAX by {
            assert(rows_view(done@)[k] == done@[k]@);
            assert(text_rows(s)[k] == line_tiles(lines[k]));
            if k < scan_lines(s).0.len() {
                assert(lines[k] == scan_lines(s).0[k]);
            } else {
                assert(lines[k] == scan_lines(s).1);
            }
        }
    }
    done
}

/// A source that a map can be built from.
pub trait MapBuilder {
    /// The rows of tiles that this source describes.
    spec fn spec_rows(&self) -> Seq<Seq<Tile>>;

    /// Whether this source is small enough for a map's size to hold it.
    spec fn fits(&self) -> bool;

    /// Builds the map, or fails when the rows differ in length.
    fn build(&self) -> (r: Result<TileMap, MapBuildError>)
        requires
            self.fits(),
        ensures
            r is Ok <==> rectangular(self.spec_rows()),
            r matches Ok(m) ==> {
                &&& m.wf()
                &&& m.grid() == self.spec_rows()
                &&& m.size.width == grid_width(self.spec_rows())
                &&& m.size.height == self.spec_rows().len()
            },
            r matches Err(e) ==> e.msg == DIMENSION_MISMATCH,
    ;
}

/// Builds a map from its textual form: one line per row, one character per
/// tile.
pub struct MapFromString {
    pub text: String,
}

impl MapFromString {
    pub fn new(text: String) -> (r: MapFromString)
        ensures
            r.text == text,
    {
        MapFromString { text }
    }
}

impl MapBuilder for MapFromString {
    open spec fn spec_rows(&self) -> Seq<Seq<Tile>> {
        text_rows(self.text@)
    }

    open spec fn fits(&self) -> bool {
        self.text@.len() <= i32::MAX
    }

    fn build(&self) -> (r: Result<TileMap, MapBuildError>) {
        let rows = rows_of_text(self.text.as_str());
        TileMap::new(rows)
    }
}

} // verus!
