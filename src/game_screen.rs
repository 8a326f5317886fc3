use vstd::prelude::*;

use crate::canvas::{
    added, extends, lemma_added_concat, lemma_extends_index, lemma_extends_refl, lemma_extends_step,
    lemma_extends_trans, Canvas, Color, DrawCmd, Key,
};
use crate::log::{Log, MessageType};
use crate::map::{Tile, TileMap};
use crate::pause_screen::PauseScreen;
use crate::primitives::{border_cells, draw_box_with_title, titled_box_len, titled_box_shown};
use crate::screen::{opens_pause, Screen, ScreenChange};
use crate::units::{Direction, Point, Rectangle, Size};
use crate::viewport::{scroll_view, spec_scroll};
use crate::widget::Widget;
use crate::world::Game;

verus! {

/// The glyph of the player.
pub const PLAYER_GLYPH: char = '@';

/// The glyph of the bar along the top of the screen.
pub const GLYPH_TOP_BAR: char = '\u{80}';

/// The glyph of the bar along the right of the screen.
pub const GLYPH_SIDE_BAR: char = '\u{81}';

/// The glyph of the ornaments of the top bar.
pub const GLYPH_ORNAMENT: char = '\u{8}';

/// The glyph that closes an ornament of the top bar.
pub const GLYPH_ORNAMENT_END: char = '\u{9}';

/// The colour of the background of a tile.
pub open spec fn tile_color(t: Tile) -> Color {
    match t {
        Tile::Empty => Color::Black,
        Tile::Wall => Color::DarkerGrey,
        Tile::Floor => Color::DarkestSepia,
        Tile::Grass => Color::DesaturatedGreen,
    }
}

pub fn tile_color_exec(t: Tile) -> (r: Color)
    ensures
        r == tile_color(t),
{
    match t {
        Tile::Empty => Color::Black,
        Tile::Wall => Color::DarkerGrey,
        Tile::Floor => Color::DarkestSepia,
        Tile::Grass => Color::DesaturatedGreen,
    }
}

/// The colour of the text of a message.
pub open spec fn message_color(t: MessageType) -> Color {
    match t {
        MessageType::Info => Color::White,
        MessageType::Error => Color::Red,
    }
}

fn message_color_exec(t: MessageType) -> (r: Color)
    ensures
        r == message_color(t),
{
    match t {
        MessageType::Info => Color::White,
        MessageType::Error => Color::Red,
    }
}

/// The direction that a key moves the player in, if any.
pub open spec fn key_direction(key: Key) -> Option<Direction> {
    match key {
        Key::Up => Some(Direction::Up),
        Key::Down => Some(Direction::Down),
        Key::Left => Some(Direction::Left),
        Key::Right => Some(Direction::Right),
        _ => None,
    }
}

/// The direction that an optional key moves the player in, if any.
pub open spec fn walk_dir(key: Option<Key>) -> Option<Direction> {
    match key {
        Some(k) => key_direction(k),
        None => None,
    }
}

/// Whether the step that `key` asks for, if any, leaves `pos` representable.
pub open spec fn can_walk(pos: Point, key: Option<Key>) -> bool {
    match walk_dir(key) {
        Some(d) => pos.can_step(d),
        None => true,
    }
}

/// How many cells of a frame of extent `frame` show a map of extent `map`
/// from offset `view` on one axis.
pub open spec fn visible_extent(view: int, frame: int, map: int) -> int {
    if view >= map {
        0
    } else if view + frame <= map {
        frame
    } else {
        map - view
    }
}

/// The drawing of the first `n` visible cells of one map row: `row` is the
/// row, `vx` the first column shown and `origin` where that column goes.
pub open spec fn row_cmds(row: Seq<Tile>, vx: int, origin: Point, n: int) -> Seq<DrawCmd>
    decreases n,
{
    if n <= 0 {
        seq![]
    } else {
        row_cmds(row, vx, origin, n - 1).push(
            DrawCmd::Put {
                pos: Point { x: (origin.x + n - 1) as i32, y: origin.y },
                glyph: ' ',
                fg: Color::White,
                bg: tile_color(row[vx + n - 1]),
            },
        )
    }
}

/// The drawing of the first `h` visible rows of the map, `w` cells each, seen
/// from `view` and drawn from `origin`, row after row.
pub open spec fn map_cmds(grid: Seq<Seq<Tile>>, view: Point, origin: Point, w: int, h: int) -> Seq<
    DrawCmd,
>
    decreases h,
{
    if h <= 0 {
        seq![]
    } else {
        map_cmds(grid, view, origin, w, h - 1) + row_cmds(
            grid[view.y + h - 1],
            view.x as int,
            Point { x: origin.x, y: (origin.y + h - 1) as i32 },
            w,
        )
    }
}

/// Whether `seg` is exactly an ornament of the top bar at column `x`: its
/// left end, `n` cells of parchment, its right end.
pub open spec fn ornament_shown(seg: Seq<DrawCmd>, x: int, n: int) -> bool {
    &&& seg.len() == n + 2
    &&& seg[0] == DrawCmd::PutPlain { pos: Point { x: x as i32, y: 0 }, glyph: GLYPH_ORNAMENT }
    &&& forall|i: int|
        1 <= i <= n ==> #[trigger] seg[i] == DrawCmd::Put {
            pos: Point { x: (x + i) as i32, y: 0 },
            glyph: ' ',
            fg: Color::White,
            bg: Color::Parchment,
        }
    &&& seg[n + 1] == DrawCmd::PutPlain {
        pos: Point { x: (x + n + 1) as i32, y: 0 },
        glyph: GLYPH_ORNAMENT_END,
    }
}

/// How many cells of the side bar a canvas of size `size` has.
pub open spec fn side_len(size: Size) -> int {
    if size.width > 0 && size.height > 1 {
        size.height - 1
    } else {
        0
    }
}

/// Whether `seg` is exactly the bars of a canvas of size `size`: the top bar
/// from left to right, the side bar down the last column, the corner
/// ornament, then the ornaments over the info panel and over the map panel,
/// which starts at column `info_width + 1`.
pub open spec fn bars_shown(seg: Seq<DrawCmd>, size: Size, info_width: int) -> bool {
    let w = size.width as int;
    let side = side_len(size);
    let corner = if w > 0 {
        1int
    } else {
        0
    };
    let o = w + side + corner;
    &&& seg.len() == o + 11
    &&& forall|x: int|
        0 <= x < w ==> #[trigger] seg[x] == DrawCmd::PutPlain {
            pos: Point { x: x as i32, y: 0 },
            glyph: GLYPH_TOP_BAR,
        }
    &&& forall|y: int|
        1 <= y <= side ==> #[trigger] seg[w + y - 1] == DrawCmd::PutPlain {
            pos: Point { x: (w - 1) as i32, y: y as i32 },
            glyph: GLYPH_SIDE_BAR,
        }
    &&& w > 0 ==> seg[w + side] == DrawCmd::PutPlain {
        pos: Point { x: (w - 1) as i32, y: 0 },
        glyph: GLYPH_ORNAMENT,
    }
    &&& ornament_shown(seg.subrange(o, o + 6), 3, 4)
    &&& ornament_shown(seg.subrange(o + 6, o + 11), info_width + 4, 3)
}

/// The main screen of play: the map, an info panel and the message panel.
#[derive(Clone, Copy, Debug, PartialEq, Eq, Structural)]
pub struct GameScreen {
    pub map: Widget,
    pub info: Widget,
    pub messages: Widget,
    /// The map cell shown at the top-left of the map panel.
    pub map_view: Point,
}

impl GameScreen {
    /// The panels fit on the screen, and the view offset is not negative.
    pub open spec fn wf(self) -> bool {
        &&& self.map.wf()
        &&& self.info.wf()
        &&& self.messages.wf()
        &&& self.map_view.x >= 0
        &&& self.map_view.y >= 0
    }

    /// The drawing of the part of `map` that the view offset shows.
    pub open spec fn map_drawing(self, map: TileMap) -> Seq<DrawCmd> {
        map_cmds(
            map.grid(),
            self.map_view,
            self.map.origin(),
            visible_extent(self.map_view.x as int, self.map.inner().width as int, map.size.width as int),
            visible_extent(self.map_view.y as int, self.map.inner().height as int, map.size.height as int),
        )
    }

    /// The drawing of the player at `player`: one glyph if the view offset
    /// puts it inside the map panel, nothing otherwise.
    pub open spec fn player_drawing(self, player: Point) -> Seq<DrawCmd> {
        let local = Point {
            x: (player.x - self.map_view.x) as i32,
            y: (player.y - self.map_view.y) as i32,
        };
        if 0 <= player.x - self.map_view.x < self.map.inner().width && 0 <= player.y - self.map_view.y
            < self.map.inner().height {
            seq![DrawCmd::PutPlain { pos: self.map.absolute(local), glyph: PLAYER_GLYPH }]
        } else {
            seq![]
        }
    }

    /// How many commands the three titled panels take.
    pub open spec fn boxes_len(self) -> int {
        titled_box_len(self.map.rect) + titled_box_len(self.info.rect) + titled_box_len(
            self.messages.rect,
        )
    }

    /// Whether `seg` is exactly what `draw_borders` draws on a canvas of size
    /// `size`: the panels titled "Map", "Info" and "Messages", then the bars
    /// and their ornaments.
    #[verifier::opaque]
    pub open spec fn borders_shown(self, seg: Seq<DrawCmd>, size: Size) -> bool {
        let l1 = titled_box_len(self.map.rect);
        let l2 = l1 + titled_box_len(self.info.rect);
        let l3 = self.boxes_len();
        &&& seg.len() == self.borders_len(size)
        &&& titled_box_shown(seg.subrange(0, l1), self.map.rect, "Map"@)
        &&& titled_box_shown(seg.subrange(l1, l2), self.info.rect, "Info"@)
        &&& titled_box_shown(seg.subrange(l2, l3), self.messages.rect, "Messages"@)
        &&& bars_shown(seg.subrange(l3, seg.len() as int), size, self.info.rect.size.width as int)
    }

    /// How many messages the message panel shows of `log`: one per row of the
    /// panel's height, starting on the first row inside its top border.
    pub open spec fn messages_count(self, log: Log) -> int {
        if log.view().len() < self.messages.rect.size.height {
            log.view().len() as int
        } else {
            self.messages.rect.size.height as int
        }
    }

    /// Whether `seg` is exactly the newest messages of `log`, newest on the
    /// top row of the message panel, each in the colour of its kind.
    pub open spec fn messages_shown(self, seg: Seq<DrawCmd>, log: Log) -> bool {
        &&& seg.len() == self.messages_count(log)
        &&& forall|k: int|
            0 <= k < seg.len() ==> (#[trigger] seg[k] matches DrawCmd::Print { pos, text, fg, bg }
                && pos == self.messages.absolute(Point { x: 0, y: k as i32 }) && text@
                == log.view()[k].text@ && fg == message_color(log.view()[k].ty) && bg
                == Color::Black)
    }

    /// The map part and the player, as drawn with this screen's view offset.
    pub open spec fn play_drawing(self, game: Game) -> Seq<DrawCmd> {
        self.map_drawing(game.world.map) + self.player_drawing(game.world.player.pos)
    }

    /// How many commands drawing this screen takes.
    pub open spec fn drawing_len(self, game: Game, size: Size) -> int {
        self.borders_len(size) + self.play_drawing(game).len() + self.messages_count(game.log)
    }

    /// Whether `seg` is exactly one drawing of this screen, on a canvas of
    /// size `size`: the borders, the visible map, the player, then the newest
    /// messages.
    pub open spec fn drawn(self, seg: Seq<DrawCmd>, game: Game, size: Size) -> bool {
        let b = self.borders_len(size);
        let p = b + self.play_drawing(game).len();
        &&& seg.len() == self.drawing_len(game, size)
        &&& self.borders_shown(seg.subrange(0, b), size)
        &&& seg.subrange(b, p) == self.play_drawing(game)
        &&& self.messages_shown(seg.subrange(p, seg.len() as int), game.log)
    }

    /// How many commands `draw_borders` takes on a canvas of size `size`.
    pub open spec fn borders_len(self, size: Size) -> int {
        self.boxes_len() + size.width + side_len(size) + (if size.width > 0 {
            1int
        } else {
            0
        }) + 11
    }

    /// This screen after one drawing with the player at `player` on a map of
    /// size `map`: only the view offset changes, by scrolling.
    pub open spec fn scrolled(self, player: Point, map: Size) -> GameScreen {
        GameScreen { map_view: spec_scroll(self.map_view, player, self.map.inner(), map), ..self }
    }

    /// A game screen laid out for an 80 by 50 console, its view at the map's
    /// top-left corner.
    pub open spec fn spec_new() -> GameScreen {
        GameScreen {
            map: Widget { rect: Rectangle { location: Point { x: 19, y: 1 }, size: Size { width: 59, height: 34 } } },
            info: Widget { rect: Rectangle { location: Point { x: 0, y: 1 }, size: Size { width: 18, height: 48 } } },
            messages: Widget { rect: Rectangle { location: Point { x: 19, y: 36 }, size: Size { width: 59, height: 13 } } },
            map_view: Point { x: 0, y: 0 },
        }
    }

    pub fn new() -> (r: GameScreen)
        ensures
            r == GameScreen::spec_new(),
            r.wf(),
            r.map_view == (Point { x: 0, y: 0 }),
            r.map.rect.location == (Point { x: 19, y: 1 }),
            r.map.rect.size == (Size { width: 59, height: 34 }),
            r.info.rect.location == (Point { x: 0, y: 1 }),
            r.info.rect.size == (Size { width: 18, height: 48 }),
            r.messages.rect.location == (Point { x: 19, y: 36 }),
            r.messages.rect.size == (Size { width: 59, height: 13 }),
    {
        GameScreen {
            map: Widget::new(Point::new(19, 1), Size::new(59, 34)),
            info: Widget::new(Point::new(0, 1), Size::new(18, 48)),
            messages: Widget::new(Point::new(19, 36), Size::new(59, 13)),
            map_view: Point::zero(),
        }
    }

    /// Handles a key: an arrow walks the player, Escape opens the pause menu,
    /// anything else does nothing.
    pub fn input(&self, game: &mut Game, key: Option<Key>) -> (r: Option<ScreenChange>)
        requires
            can_walk(old(game).world.player.pos, key),
        ensures
            walk_dir(key) is Some ==> r is None && *final(game) == old(game).spec_walk(
                walk_dir(key)->0,
            ),
            key == Some(Key::Escape) ==> *final(game) == *old(game) && opens_pause(r),
            (key is None || key == Some(Key::Enter)) ==> r is None && *final(game) == *old(game),
    {
        match key {
            Some(Key::Up) => {
                game.world.walk(Direction::Up);
                None
            },
            Some(Key::Down) => {
                game.world.walk(Direction::Down);
                None
            },
            Some(Key::Left) => {
                game.world.walk(Direction::Left);
                None
            },
            Some(Key::Right) => {
                game.world.walk(Direction::Right);
                None
            },
            Some(Key::Escape) => Some(ScreenChange::PushScreen(Screen::Pause(PauseScreen::new()))),
            _ => None,
        }
    }

    /// Advances the game by one tick; asks for no change of screen.
    pub fn update(&self, game: &mut Game) -> (r: Option<ScreenChange>)
        ensures
            r is None,
            *final(game) == *old(game),
    {
        game.step();
        None
    }

    /// Draws the panels, the visible part of the map, the player and the
    /// newest messages, after scrolling the view towards the player.
    pub fn render(&mut self, game: &Game, canvas: &mut Canvas)
        requires
            old(self).wf(),
            game.world.map.wf(),
            old(canvas).wf(),
        ensures
            *final(self) == old(self).scrolled(game.world.player.pos, game.world.map.size),
            final(self).wf(),
            final(canvas).wf(),
            final(canvas).spec_size() == old(canvas).spec_size(),
            extends(final(canvas).view(), old(canvas).view()),
            final(self).drawn(added(final(canvas).view(), old(canvas).view()), *game, old(canvas).spec_size()),
    {
        let ghost start = canvas.view();
        let frame = self.map.inner_exec();
        self.map_view = scroll_view(self.map_view, game.world.player.pos, frame, game.world.map.size());
        proof {
            crate::viewport::lemma_scroll_nonnegative(old(self).map_view, game.world.player.pos, frame, game.world.map.size);
        }
        self.draw_borders(canvas);
        let ghost c1 = canvas.view();
        self.draw_info(game, canvas);
        self.draw_map(&game.world.map, canvas);
        let ghost c2 = canvas.view();
        self.draw_player(game.world.player.pos, canvas);
        let ghost c3 = canvas.view();
        self.draw_messages(&game.log, canvas);
        proof {
            assert(extends(c2, c1)) by {
                assert(c2.take(c1.len() as int) =~= c1);
            }
            assert(extends(c3, c2)) by {
                assert(c3.take(c2.len() as int) =~= c2);
            }
            let v = canvas.view();
            lemma_added_concat(c3, c2, c1);
            lemma_added_concat(v, c3, c1);
            lemma_added_concat(v, c1, start);
            let seg = added(v, start);
            let b = self.borders_len(canvas.spec_size());
            let play = self.play_drawing(*game);
            assert(added(c3, c1) =~= play);
            assert(seg.subrange(0, b) =~= added(c1, start));
            assert(seg.subrange(b, b + play.len()) =~= play);
            assert(seg.subrange(b + play.len(), seg.len() as int) =~= added(v, c3));
        }
    }

    /// Draws the three panels with their titles, and the bars along the top
    /// and the right of the screen with their ornaments.
    pub fn draw_borders(&self, canvas: &mut Canvas)
        requires
            self.wf(),
            old(canvas).wf(),
        ensures
            final(canvas).spec_size() == old(canvas).spec_size(),
            extends(final(canvas).view(), old(canvas).view()),
            self.borders_shown(added(final(canvas).view(), old(canvas).view()), old(canvas).spec_size()),
            final(canvas).view().len() == old(canvas).view().len() + self.borders_len(old(canvas).spec_size()),
    {
        let ghost start = canvas.view();
        proof {
            reveal_strlit("Map");
            reveal_strlit("Info");
            reveal_strlit("Messages");
        }
        draw_box_with_title(canvas, "Map", self.map.rect);
        let ghost c1 = canvas.view();
        draw_box_with_title(canvas, "Info", self.info.rect);
        let ghost c2 = canvas.view();
        draw_box_with_title(canvas, "Messages", self.messages.rect);
        let ghost c3 = canvas.view();
        let ghost t = c3.len() as int;
        proof { lemma_extends_refl(c3); }

        let size = canvas.size();
        let width = size.width;
        let height = size.height;
        let mut x: i32 = 0;
        while x < width
            invariant
                0 <= x <= width,
                width == canvas.spec_size().width,
                height == canvas.spec_size().height,
                canvas.spec_size() == old(canvas).spec_size(),
                canvas.wf(),
                t == c3.len(),
                extends(canvas.view(), c3),
                canvas.view().len() == t + x,
                forall|k: int|
                    0 <= k < x ==> #[trigger] canvas.view()[t + k] == (DrawCmd::PutPlain {
                        pos: Point { x: k as i32, y: 0 },
                        glyph: GLYPH_TOP_BAR,
                    }),
            decreases width - x,
        {
            let ghost prev = canvas.view();
            canvas.put_plain(Point::new(x, 0), GLYPH_TOP_BAR);
            proof {
                lemma_extends_step(canvas.view(), prev, c3);
                assert forall|k: int| 0 <= k < x + 1 implies #[trigger] canvas.view()[t + k] == (DrawCmd::PutPlain {
                    pos: Point { x: k as i32, y: 0 },
                    glyph: GLYPH_TOP_BAR,
                }) by {
                    if k < x {
                        assert(canvas.view()[t + k] == prev[t + k]);
                    }
                }
            }
            x = x + 1;
        }
        let mut y: i32 = 1;
        while y < height && width > 0
            invariant
                1 <= y,
                y <= height || y == 1,
                width <= 0 || height <= 1 ==> y == 1,
                width == canvas.spec_size().width,
                height == canvas.spec_size().height,
                canvas.spec_size() == old(canvas).spec_size(),
                canvas.wf(),
                t == c3.len(),
                extends(canvas.view(), c3),
                canvas.view().len() == t + width + (y - 1),
                forall|k: int|
                    0 <= k < width ==> #[trigger] canvas.view()[t + k] == (DrawCmd::PutPlain {
                        pos: Point { x: k as i32, y: 0 },
                        glyph: GLYPH_TOP_BAR,
                    }),
                forall|k: int|
                    1 <= k < y ==> #[trigger] canvas.view()[t + width + k - 1] == (DrawCmd::PutPlain {
                        pos: Point { x: (width - 1) as i32, y: k as i32 },
                        glyph: GLYPH_SIDE_BAR,
                    }),
            decreases height - y,
        {
            let ghost prev = canvas.view();
            canvas.put_plain(Point::new(width - 1, y), GLYPH_SIDE_BAR);
            proof {
                lemma_extends_step(canvas.view(), prev, c3);
                assert forall|k: int| 0 <= k < width implies #[trigger] canvas.view()[t + k] == (DrawCmd::PutPlain {
                    pos: Point { x: k as i32, y: 0 },
                    glyph: GLYPH_TOP_BAR,
                }) by {
                    assert(canvas.view()[t + k] == prev[t + k]);
                }
                assert forall|k: int| 1 <= k < y + 1 implies #[trigger] canvas.view()[t + width + k - 1] == (DrawCmd::PutPlain {
                    pos: Point { x: (width - 1) as i32, y: k as i32 },
                    glyph: GLYPH_SIDE_BAR,
                }) by {
                    if k < y {
                        assert(canvas.view()[t + width + k - 1] == prev[t + width + k - 1]);
                    }
                }
            }
            y = y + 1;
        }
        let ghost bars = canvas.view();
        if width > 0 {
            let ghost prev = canvas.view();
            canvas.put_plain(Point::new(width - 1, 0), GLYPH_ORNAMENT);
            proof { lemma_extends_step(canvas.view(), prev, c3); }
        }
        let ghost c4 = canvas.view();
        self.draw_ornament(canvas, 3, 4);
        let ghost c5 = canvas.view();
        let bar = self.info.rect.size.width + 1;
        self.draw_ornament(canvas, bar + 3, 3);
        proof {
            assert(extends(c4, bars)) by {
                assert(c4.take(bars.len() as int) =~= bars);
            }
            self.lemma_borders_assembled(start, c1, c2, c3, bars, c4, c5, canvas.view(), size);
        }
    }

    #[verifier::rlimit(60)]
    proof fn lemma_borders_assembled(
        self,
        start: Seq<DrawCmd>,
        c1: Seq<DrawCmd>,
        c2: Seq<DrawCmd>,
        c3: Seq<DrawCmd>,
        bars: Seq<DrawCmd>,
        c4: Seq<DrawCmd>,
        c5: Seq<DrawCmd>,
        v: Seq<DrawCmd>,
        size: Size,
    )
        requires
            extends(c1, start),
            extends(c2, c1),
            extends(c3, c2),
            extends(bars, c3),
            extends(c4, bars),
            extends(c5, c4),
            extends(v, c5),
            titled_box_shown(added(c1, start), self.map.rect, "Map"@),
            titled_box_shown(added(c2, c1), self.info.rect, "Info"@),
            titled_box_shown(added(c3, c2), self.messages.rect, "Messages"@),
            size.width >= 0,
            size.height >= 0,
            bars.len() == c3.len() + size.width + side_len(size),
            c4.len() == bars.len() + if size.width > 0 { 1int } else { 0 },
            forall|k: int|
                0 <= k < size.width ==> #[trigger] bars[c3.len() + k] == (DrawCmd::PutPlain {
                    pos: Point { x: k as i32, y: 0 },
                    glyph: GLYPH_TOP_BAR,
                }),
            forall|k: int|
                1 <= k <= side_len(size) ==> #[trigger] bars[c3.len() + size.width + k - 1] == (DrawCmd::PutPlain {
                    pos: Point { x: (size.width - 1) as i32, y: k as i32 },
                    glyph: GLYPH_SIDE_BAR,
                }),
            size.width > 0 ==> c4[bars.len() as int] == (DrawCmd::PutPlain {
                pos: Point { x: (size.width - 1) as i32, y: 0 },
                glyph: GLYPH_ORNAMENT,
            }),
            ornament_shown(added(c5, c4), 3, 4),
            ornament_shown(added(v, c5), self.info.rect.size.width + 4, 3),
        ensures
            self.borders_shown(added(v, start), size),
            extends(v, start),
            v.len() == start.len() + self.borders_len(size),
    {
        reveal(GameScreen::borders_shown);
        let width = size.width as int;
        let t = c3.len() as int;
        lemma_added_concat(c2, c1, start);
        lemma_added_concat(c3, c2, start);
        lemma_added_concat(c4, bars, c3);
        lemma_added_concat(c5, c4, c3);
        lemma_added_concat(v, c5, c3);
        lemma_added_concat(v, c3, start);
        let seg = added(v, start);
        let l1 = titled_box_len(self.map.rect);
        let l2 = l1 + titled_box_len(self.info.rect);
        let l3 = self.boxes_len();
        assert(seg.subrange(0, l1) =~= added(c1, start));
        assert(seg.subrange(l1, l2) =~= added(c2, c1));
        assert(seg.subrange(l2, l3) =~= added(c3, c2));
        let bs = seg.subrange(l3, seg.len() as int);
        assert(bs =~= added(v, c3));
        let side = side_len(size);
        let o = width + side + if width > 0 { 1int } else { 0 };
        assert(bs.subrange(o, o + 6) =~= added(c5, c4));
        assert(bs.subrange(o + 6, o + 11) =~= added(v, c5));
        lemma_extends_trans(v, c5, c4);
        lemma_extends_trans(v, c4, bars);
        assert forall|k: int| 0 <= k < width implies #[trigger] bs[k] == (DrawCmd::PutPlain {
            pos: Point { x: k as i32, y: 0 },
            glyph: GLYPH_TOP_BAR,
        }) by {
            lemma_extends_index(v, bars, t + k);
        }
        assert forall|k: int| 1 <= k <= side implies #[trigger] bs[width + k - 1] == (DrawCmd::PutPlain {
            pos: Point { x: (width - 1) as i32, y: k as i32 },
            glyph: GLYPH_SIDE_BAR,
        }) by {
            lemma_extends_index(v, bars, t + width + k - 1);
        }
        if width > 0 {
            lemma_extends_index(v, c4, t + width + side);
        }
    }

    /// Draws an ornament of the top bar at column `x`: `n` cells of parchment
    /// between its two ends.
    fn draw_ornament(&self, canvas: &mut Canvas, x: i32, n: i32)
        requires
            0 <= x <= 2 * crate::widget::SCREEN_LIMIT,
            0 <= n <= 8,
        ensures
            final(canvas).spec_size() == old(canvas).spec_size(),
            extends(final(canvas).view(), old(canvas).view()),
            ornament_shown(added(final(canvas).view(), old(canvas).view()), x as int, n as int),
    {
        let ghost start = canvas.view();
        let ghost at = start.len() as int;
        canvas.put_plain(Point::new(x, 0), GLYPH_ORNAMENT);
        proof { lemma_extends_refl(start); lemma_extends_step(canvas.view(), start, start); }
        let mut i: i32 = 1;
        while i <= n
            invariant
                1 <= i <= n + 1,
                0 <= x <= 2 * crate::widget::SCREEN_LIMIT,
                n <= 8,
                at == start.len(),
                canvas.spec_size() == old(canvas).spec_size(),
                extends(canvas.view(), start),
                canvas.view().len() == start.len() + i,
                canvas.view()[at] == (DrawCmd::PutPlain { pos: Point { x: x, y: 0 }, glyph: GLYPH_ORNAMENT }),
                forall|k: int|
                    1 <= k < i ==> #[trigger] canvas.view()[at + k] == (DrawCmd::Put {
                        pos: Point { x: (x + k) as i32, y: 0 },
                        glyph: ' ',
                        fg: Color::White,
                        bg: Color::Parchment,
                    }),
            decreases n + 1 - i,
        {
            let ghost prev = canvas.view();
            canvas.put(Point::new(x + i, 0), ' ', Color::White, Color::Parchment);
            proof {
                lemma_extends_step(canvas.view(), prev, start);
                assert(canvas.view()[at] == prev[at]);
                assert forall|k: int| 1 <= k < i + 1 implies #[trigger] canvas.view()[at + k] == (DrawCmd::Put {
                    pos: Point { x: (x + k) as i32, y: 0 },
                    glyph: ' ',
                    fg: Color::White,
                    bg: Color::Parchment,
                }) by {
                    if k < i {
                        assert(canvas.view()[at + k] == prev[at + k]);
                    }
                }
            }
            i = i + 1;
        }
        let ghost prev = canvas.view();
        canvas.put_plain(Point::new(x + n + 1, 0), GLYPH_ORNAMENT_END);
        proof {
            lemma_extends_step(canvas.view(), prev, start);
            let v = canvas.view();
            let seg = added(v, start);
            assert(seg[0] == v[at]);
            assert(v[at] == prev[at]);
            assert forall|k: int| 1 <= k <= n implies #[trigger] seg[k] == (DrawCmd::Put {
                pos: Point { x: (x + k) as i32, y: 0 },
                glyph: ' ',
                fg: Color::White,
                bg: Color::Parchment,
            }) by {
                assert(seg[k] == v[at + k]);
                assert(v[at + k] == prev[at + k]);
            }
            assert(seg[n + 1] == v[at + n + 1]);
        }
    }

    /// The info panel shows nothing yet.
    pub fn draw_info(&self, game: &Game, canvas: &mut Canvas)
        ensures
            *final(canvas) == *old(canvas),
    {
    }

    /// Draws the part of the map that the view offset shows: one cell per
    /// visible tile, row after row, coloured by the tile; cells past the map's
    /// edges are left undrawn.
    pub fn draw_map(&self, map: &TileMap, canvas: &mut Canvas)
        requires
            self.wf(),
            map.wf(),
        ensures
            final(canvas).spec_size() == old(canvas).spec_size(),
            final(canvas).view() == old(canvas).view() + self.map_drawing(*map),
    {
        let ghost start = canvas.view();
        let ghost grid = map.grid();
        let ghost origin = self.map.origin();
        let frame = self.map.inner_exec();
        let view = self.map_view;
        let w: i32 = if view.x >= map.width() {
            0
        } else if view.x as i64 + frame.width as i64 <= map.width() as i64 {
            frame.width
        } else {
            map.width() - view.x
        };
        let h: i32 = if view.y >= map.height() {
            0
        } else if view.y as i64 + frame.height as i64 <= map.height() as i64 {
            frame.height
        } else {
            map.height() - view.y
        };
        let mut y: i32 = 0;
        while y < h
            invariant
                self.wf(),
                map.wf(),
                grid == map.grid(),
                origin == self.map.origin(),
                view == self.map_view,
                frame == self.map.inner(),
                w == visible_extent(view.x as int, frame.width as int, map.size.width as int),
                h == visible_extent(view.y as int, frame.height as int, map.size.height as int),
                0 <= y <= h,
                canvas.spec_size() == old(canvas).spec_size(),
                canvas.view() == start + map_cmds(grid, view, origin, w as int, y as int),
            decreases h - y,
        {
            let ghost before_row = canvas.view();
            let mut x: i32 = 0;
            while x < w
                invariant
                    self.wf(),
                    map.wf(),
                    grid == map.grid(),
                    origin == self.map.origin(),
                    view == self.map_view,
                    frame == self.map.inner(),
                    w == visible_extent(view.x as int, frame.width as int, map.size.width as int),
                    h == visible_extent(view.y as int, frame.height as int, map.size.height as int),
                    0 <= y < h,
                    0 <= x <= w,
                    canvas.spec_size() == old(canvas).spec_size(),
                    before_row == start + map_cmds(grid, view, origin, w as int, y as int),
                    canvas.view() == before_row + row_cmds(
                        grid[view.y + y],
                        view.x as int,
                        Point { x: origin.x, y: (origin.y + y) as i32 },
                        x as int,
                    ),
                decreases w - x,
            {
                let tile = map.tile((view.x + x) as usize, (view.y + y) as usize);
                let ghost prev = canvas.view();
                self.map.put(canvas, Point::new(x, y), ' ', Color::White, tile_color_exec(tile));
                proof {
                    let row = grid[view.y + y];
                    let o = Point { x: origin.x, y: (origin.y + y) as i32 };
                    assert(row_cmds(row, view.x as int, o, x + 1) == row_cmds(row, view.x as int, o, x as int).push(
                        DrawCmd::Put { pos: Point { x: (o.x + x) as i32, y: o.y }, glyph: ' ', fg: Color::White, bg: tile_color(row[view.x + x]) },
                    ));
                    assert(canvas.view() =~= before_row + row_cmds(row, view.x as int, o, x + 1));
                }
                x = x + 1;
            }
            proof {
                assert(map_cmds(grid, view, origin, w as int, y + 1) == map_cmds(grid, view, origin, w as int, y as int) + row_cmds(
                    grid[view.y + y],
                    view.x as int,
                    Point { x: origin.x, y: (origin.y + y) as i32 },
                    w as int,
                ));
                assert(canvas.view() =~= start + map_cmds(grid, view, origin, w as int, y + 1));
            }
            y = y + 1;
        }
    }

    /// Draws the player where the view offset puts it, if that is inside the
    /// map panel.
    pub fn draw_player(&self, player: Point, canvas: &mut Canvas)
        requires
            self.wf(),
        ensures
            final(canvas).spec_size() == old(canvas).spec_size(),
            final(canvas).view() == old(canvas).view() + self.player_drawing(player),
    {
        let frame = self.map.inner_exec();
        let lx: i64 = player.x as i64 - self.map_view.x as i64;
        let ly: i64 = player.y as i64 - self.map_view.y as i64;
        if 0 <= lx && lx < frame.width as i64 && 0 <= ly && ly < frame.height as i64 {
            self.map.put_plain(canvas, Point::new(lx as i32, ly as i32), PLAYER_GLYPH);
            assert(canvas.view() =~= old(canvas).view() + self.player_drawing(player));
        } else {
            assert(canvas.view() =~= old(canvas).view() + self.player_drawing(player));
        }
    }

    /// Draws the newest messages of the log, newest on top, one per row of the
    /// message panel, as many as fit.
    pub fn draw_messages(&self, log: &Log, canvas: &mut Canvas)
        requires
            self.wf(),
        ensures
            final(canvas).spec_size() == old(canvas).spec_size(),
            extends(final(canvas).view(), old(canvas).view()),
            self.messages_shown(added(final(canvas).view(), old(canvas).view()), *log),
    {
        let ghost start = canvas.view();
        let origin = self.messages.rect.inner_location();
        let rows = self.messages.rect.size.height;
        let n = log.shown(rows as usize);
        let items = log.items();
        proof { lemma_extends_refl(start); }
        let mut i: usize = 0;
        while i < n
            invariant
                self.wf(),
                origin == self.messages.origin(),
                rows == self.messages.rect.size.height,
                items@ == log.view(),
                n <= items@.len(),
                n <= rows,
                0 <= i <= n,
                canvas.spec_size() == old(canvas).spec_size(),
                canvas.view().len() == start.len() + i,
                extends(canvas.view(), start),
                forall|k: int|
                    0 <= k < i ==> (#[trigger] canvas.view()[start.len() + k] matches DrawCmd::Print {
                        pos,
                        text,
                        fg,
                        bg,
                    } && pos == self.messages.absolute(Point { x: 0, y: k as i32 }) && text@
                        == log.view()[k].text@ && fg == message_color(log.view()[k].ty) && bg
                        == Color::Black),
            decreases n - i,
        {
            let msg = &items[i];
            let ghost prev = canvas.view();
            canvas.print(
                Point::new(origin.x, origin.y + i as i32),
                msg.text(),
                message_color_exec(msg.ty()),
                Color::Black,
            );
            proof {
                assert forall|k: int| 0 <= k < i implies #[trigger] canvas.view()[start.len() + k] == prev[start.len() + k] by {
                    assert(canvas.view().drop_last()[start.len() + k] == prev[start.len() + k]);
                }
                lemma_extends_step(canvas.view(), prev, start);
            }
            i = i + 1;
        }
        proof {
            let seg = added(canvas.view(), start);
            assert forall|k: int| 0 <= k < seg.len() implies seg[k] == canvas.view()[start.len() + k] by {}
        }
    }
}

} // verus!
