use rslike::actor::Actor;
use rslike::canvas::{Canvas, Color, DrawCmd, Key};
use rslike::game_screen::{GameScreen, PLAYER_GLYPH};
use rslike::log::MessageType;
use rslike::map::{IntoMap, MapBuilder, MapFromString, Tile, TileMap, DIMENSION_MISMATCH};
use rslike::pause_screen::{PauseMenu, PauseScreen};
use rslike::popups::Popup;
use rslike::primitives::{draw_box, draw_box_with_title};
use rslike::screen::{Screen, ScreenChange};
use rslike::stack::ScreenStack;
use rslike::units::{Point, Rectangle, Size};
use rslike::viewport::scroll_view;
use rslike::world::{Game, World};

fn game_on(w: usize, h: usize, player: Point) -> Game {
    let mut rows = Vec::new();
    for _ in 0..h {
        rows.push(vec![Tile::Floor; w]);
    }
    let map = TileMap::new(rows).unwrap();
    Game::new(World::new(map, Actor::new("Player", player, 10)))
}

fn console() -> Canvas {
    Canvas::new(Size::new(80, 50))
}

#[test]
fn scroll_moves_view_right_near_the_right_margin() {
    let frame = Size::new(57, 32);
    let map = Size::new(100, 40);
    assert_eq!(scroll_view(Point::new(0, 0), Point::new(46, 10), frame, map), Point::new(0, 0));
    assert_eq!(scroll_view(Point::new(0, 0), Point::new(47, 10), frame, map), Point::new(1, 0));
    assert_eq!(scroll_view(Point::new(3, 0), Point::new(13, 10), frame, map), Point::new(2, 0));
    assert_eq!(scroll_view(Point::new(0, 4), Point::new(20, 9), frame, map), Point::new(0, 3));
    assert_eq!(scroll_view(Point::new(0, 4), Point::new(20, 31), frame, map), Point::new(0, 5));
}

#[test]
fn scrolling_right_stops_at_map_edge() {
    let frame = Size::new(57, 32);
    let map = Size::new(100, 40);
    let mut view = Point::new(0, 0);
    for _ in 0..200 {
        view = scroll_view(view, Point::new(99, 39), frame, map);
        assert!(view.x <= 100 - 57);
        assert!(view.y <= 40 - 32);
    }
    assert_eq!(view, Point::new(43, 8));
    for _ in 0..200 {
        view = scroll_view(view, Point::new(0, 0), frame, map);
        assert!(view.x >= 0 && view.y >= 0);
    }
    assert_eq!(view, Point::new(0, 0));
}

#[test]
fn scroll_lags_a_fast_player_by_one_step_per_frame() {
    let frame = Size::new(57, 32);
    let map = Size::new(200, 40);
    let view = scroll_view(Point::new(0, 0), Point::new(150, 10), frame, map);
    assert_eq!(view, Point::new(1, 0));
}

#[test]
fn small_map_never_scrolls() {
    let frame = Size::new(57, 32);
    let map = Size::new(5, 5);
    let mut view = Point::new(0, 0);
    for p in [Point::new(4, 4), Point::new(0, 0), Point::new(100, 100)] {
        view = scroll_view(view, p, frame, map);
        assert_eq!(view, Point::new(0, 0));
    }
}

#[test]
fn resume_returns_to_the_same_game_screen() {
    let mut game = game_on(5, 5, Point::new(2, 2));
    let mut canvas = console();
    let mut stack = ScreenStack::with_game_screen();
    assert!(stack.frame(&mut game, Some(Key::Escape), &mut canvas));
    assert_eq!(stack.len(), 2);
    assert!(matches!(stack.get(1), Screen::Pause(_)));
    assert!(stack.frame(&mut game, Some(Key::Enter), &mut canvas));
    assert_eq!(stack.len(), 1);
    match stack.get(0) {
        Screen::Game(g) => assert_eq!(*g, GameScreen::new()),
        Screen::Pause(_) => panic!("the game screen must be back on top"),
    }
}

#[test]
fn escape_on_pause_screen_resumes() {
    let mut game = game_on(5, 5, Point::new(2, 2));
    let mut canvas = console();
    let mut stack = ScreenStack::with_game_screen();
    stack.frame(&mut game, Some(Key::Escape), &mut canvas);
    assert!(stack.frame(&mut game, Some(Key::Escape), &mut canvas));
    assert_eq!(stack.len(), 1);
}

#[test]
fn exit_empties_the_stack_whatever_its_depth() {
    for depth in 1..4 {
        let mut game = game_on(5, 5, Point::new(2, 2));
        let mut canvas = console();
        let mut stack = ScreenStack::with_game_screen();
        for _ in 0..depth {
            stack.apply(ScreenChange::PushScreen(Screen::Pause(PauseScreen::new())));
        }
        assert_eq!(stack.len(), depth + 1);
        assert!(stack.frame(&mut game, Some(Key::Down), &mut canvas));
        assert!(!stack.frame(&mut game, Some(Key::Enter), &mut canvas));
        assert_eq!(stack.len(), 0);
        assert!(stack.is_empty());
    }
}

#[test]
fn removing_the_last_screen_ends_the_game() {
    let mut stack = ScreenStack::with_game_screen();
    stack.apply(ScreenChange::RemoveTopScreen);
    assert!(stack.is_empty());
    stack.apply(ScreenChange::RemoveTopScreen);
    assert!(stack.is_empty());
}

#[test]
fn pause_menu_keys() {
    let mut p = PauseScreen::new();
    assert_eq!(*p.menu.selected().option(), PauseMenu::Resume);
    assert!(p.input(None).is_none());
    assert!(p.input(Some(Key::Left)).is_none());
    assert!(p.input(Some(Key::Down)).is_none());
    assert_eq!(*p.menu.selected().option(), PauseMenu::Exit);
    assert!(matches!(p.input(Some(Key::Enter)), Some(ScreenChange::ExitGame)));
    assert!(p.input(Some(Key::Up)).is_none());
    assert!(matches!(p.input(Some(Key::Enter)), Some(ScreenChange::RemoveTopScreen)));
    assert!(p.input(Some(Key::Up)).is_none());
    assert_eq!(*p.menu.selected().option(), PauseMenu::Exit);
    assert!(matches!(p.input(Some(Key::Escape)), Some(ScreenChange::RemoveTopScreen)));
    assert!(p.update().is_none());
}

#[test]
fn player_walks_past_the_map_edge_unclamped() {
    // No bounds are enforced on movement: the player may leave the map.
    let mut game = game_on(5, 5, Point::new(2, 2));
    let mut canvas = console();
    let mut stack = ScreenStack::with_game_screen();
    for key in [Key::Up, Key::Up, Key::Left] {
        assert!(stack.frame(&mut game, Some(key), &mut canvas));
    }
    assert_eq!(game.world.player.pos(), Point::new(1, 0));
    assert!(stack.frame(&mut game, Some(Key::Up), &mut canvas));
    assert_eq!(game.world.player.pos(), Point::new(1, -1));
}

#[test]
fn game_screen_keys() {
    let mut game = game_on(5, 5, Point::new(2, 2));
    let g = GameScreen::new();
    assert!(g.input(&mut game, Some(Key::Right)).is_none());
    assert!(g.input(&mut game, Some(Key::Down)).is_none());
    assert_eq!(game.world.player.pos(), Point::new(3, 3));
    assert!(g.input(&mut game, Some(Key::Enter)).is_none());
    assert!(g.input(&mut game, None).is_none());
    assert_eq!(game.world.player.pos(), Point::new(3, 3));
    match g.input(&mut game, Some(Key::Escape)) {
        Some(ScreenChange::PushScreen(Screen::Pause(p))) => assert_eq!(p.menu.cursor_index(), 0),
        _ => panic!("escape must open the pause menu"),
    }
    assert!(g.update(&mut game).is_none());
}

#[test]
fn input_change_skips_drawing_that_frame() {
    let mut game = game_on(5, 5, Point::new(2, 2));
    let mut canvas = console();
    let mut stack = ScreenStack::with_game_screen();
    stack.frame(&mut game, Some(Key::Escape), &mut canvas);
    assert_eq!(canvas.commands().len(), 0);
    stack.frame(&mut game, None, &mut canvas);
    assert!(canvas.commands().len() > 0);
}

#[test]
fn draw_map_shows_every_visible_tile() {
    let game = game_on(5, 4, Point::new(2, 2));
    let g = GameScreen::new();
    let mut canvas = console();
    g.draw_map(&game.world.map, &mut canvas);
    let cmds = canvas.flush();
    assert_eq!(cmds.len(), 20);
    match &cmds[0] {
        DrawCmd::Put { pos, glyph, bg, .. } => {
            assert_eq!(*pos, Point::new(20, 2));
            assert_eq!(*glyph, ' ');
            assert_eq!(*bg, Color::DarkestSepia);
        },
        _ => panic!("tiles are drawn with colours"),
    }
    match &cmds[19] {
        DrawCmd::Put { pos, .. } => assert_eq!(*pos, Point::new(24, 5)),
        _ => panic!("tiles are drawn with colours"),
    }
    assert_eq!(canvas.commands().len(), 0);
}

#[test]
fn draw_player_inside_the_frame_only() {
    let g = GameScreen::new();
    let mut canvas = console();
    g.draw_player(Point::new(2, 3), &mut canvas);
    g.draw_player(Point::new(-1, 3), &mut canvas);
    g.draw_player(Point::new(58, 3), &mut canvas);
    g.draw_player(Point::new(2, 33), &mut canvas);
    let cmds = canvas.commands();
    assert_eq!(cmds.len(), 1);
    assert!(matches!(&cmds[0], DrawCmd::PutPlain { pos, glyph } if *pos == Point::new(22, 5) && *glyph == PLAYER_GLYPH));
}

#[test]
fn draw_messages_newest_on_top() {
    let mut game = game_on(5, 5, Point::new(2, 2));
    game.log.log(String::from("old"), MessageType::Info, 1);
    game.log.log(String::from("bad"), MessageType::Error, 2);
    let g = GameScreen::new();
    let mut canvas = console();
    g.draw_messages(&game.log, &mut canvas);
    let cmds = canvas.commands();
    assert_eq!(cmds.len(), 2);
    assert!(matches!(&cmds[0], DrawCmd::Print { pos, text, fg: Color::Red, bg: Color::Black } if *pos == Point::new(20, 37) && text == "bad"));
    assert!(matches!(&cmds[1], DrawCmd::Print { pos, text, fg: Color::White, .. } if *pos == Point::new(20, 38) && text == "old"));
}

#[test]
fn render_scrolls_the_view_towards_the_player() {
    let game = game_on(100, 60, Point::new(50, 40));
    let mut g = GameScreen::new();
    let mut canvas = console();
    g.render(&game, &mut canvas);
    assert_eq!(g.map_view, Point::new(1, 1));
    g.render(&game, &mut canvas);
    assert_eq!(g.map_view, Point::new(2, 2));
}

#[test]
fn pause_screen_draws_title_options_and_cursor() {
    let p = PauseScreen::new();
    let mut canvas = console();
    p.render(&mut canvas);
    let cmds = canvas.commands();
    assert_eq!(cmds.len(), 4);
    assert!(matches!(&cmds[0], DrawCmd::PrintPlain { pos, text } if *pos == Point::new(0, 0) && text == "Paused"));
    assert!(matches!(&cmds[1], DrawCmd::PrintPlain { pos, text } if *pos == Point::new(37, 24) && text == "Resume Game"));
    assert!(matches!(&cmds[2], DrawCmd::PutPlain { pos, glyph: '>' } if *pos == Point::new(35, 24)));
    assert!(matches!(&cmds[3], DrawCmd::PrintPlain { pos, text } if *pos == Point::new(37, 25) && text == "Exit Game"));
}

#[test]
fn box_is_drawn_on_its_border() {
    let mut canvas = console();
    let rect = Rectangle::new(Point::new(1, 1), Size::new(4, 3));
    draw_box(&mut canvas, rect);
    let cmds = canvas.commands();
    assert_eq!(cmds.len(), 2 * 4 + 2 * 3);
    assert!(matches!(&cmds[0], DrawCmd::PutPlain { pos, glyph: '\u{6}' } if *pos == Point::new(1, 1)));
    assert!(matches!(&cmds[1], DrawCmd::PutPlain { pos, glyph: '\u{4}' } if *pos == Point::new(5, 1)));
    assert!(matches!(&cmds[2], DrawCmd::PutPlain { pos, glyph: '\u{5}' } if *pos == Point::new(1, 4)));
    assert!(matches!(&cmds[3], DrawCmd::PutPlain { pos, glyph: '\u{7}' } if *pos == Point::new(5, 4)));
    assert!(matches!(&cmds[4], DrawCmd::PutPlain { pos, glyph: '\u{2}' } if *pos == Point::new(2, 1)));
    assert!(matches!(&cmds[5], DrawCmd::PutPlain { pos, glyph: '\u{1}' } if *pos == Point::new(2, 4)));
    assert!(matches!(&cmds[10], DrawCmd::PutPlain { pos, glyph: '\u{3}' } if *pos == Point::new(1, 2)));
    assert!(matches!(&cmds[11], DrawCmd::PutPlain { pos, glyph: '\u{0}' } if *pos == Point::new(5, 2)));
    canvas.clear();
    draw_box_with_title(&mut canvas, "Map", Rectangle::new(Point::new(0, 0), Size::new(10, 5)));
    let cmds = canvas.commands();
    assert_eq!(cmds.len(), 2 * 10 + 2 * 5 + 5);
    assert!(matches!(&cmds[30], DrawCmd::PutPlain { pos, glyph: '\u{4}' } if *pos == Point::new(2, 0)));
    assert!(matches!(&cmds[31], DrawCmd::PutPlain { pos, glyph: '\u{6}' } if *pos == Point::new(8, 0)));
    assert!(matches!(&cmds[cmds.len() - 1], DrawCmd::Print { pos, text, fg: Color::Black, bg: Color::Parchment } if *pos == Point::new(4, 0) && text == "Map"));
}

#[test]
fn popup_starts_hidden() {
    let mut p = Popup::new(
        Actor::new("Dog", Point::zero(), 5),
        Point::new(1, 1),
        Size::new(10, 3),
        String::from("a dog"),
    );
    assert!(!p.is_visible);
    p.set_visible(true);
    assert!(p.is_visible);
    assert_eq!(p.message, "a dog");
}

#[test]
fn borders_tile_the_console() {
    let g = GameScreen::new();
    let mut canvas = console();
    g.draw_borders(&mut canvas);
    let cmds = canvas.commands();
    let boxes = (2 * 59 + 2 * 34 + 5) + (2 * 18 + 2 * 48 + 5) + (2 * 59 + 2 * 13 + 5);
    assert_eq!(cmds.len(), boxes + 80 + 49 + 1 + 11);
    // The info panel ends at column 18, the map panel starts at 19 and ends
    // at 78, next to the side bar at 79.
    assert!(matches!(&cmds[1], DrawCmd::PutPlain { pos, .. } if *pos == Point::new(78, 1)));
    assert!(matches!(&cmds[2 * 59 + 2 * 34 + 5 + 1], DrawCmd::PutPlain { pos, .. } if *pos == Point::new(18, 1)));
    assert!(matches!(&cmds[boxes], DrawCmd::PutPlain { pos, glyph: '\u{80}' } if *pos == Point::new(0, 0)));
    assert!(matches!(&cmds[boxes + 80], DrawCmd::PutPlain { pos, glyph: '\u{81}' } if *pos == Point::new(79, 1)));
    assert!(matches!(&cmds[boxes + 129], DrawCmd::PutPlain { pos, glyph: '\u{8}' } if *pos == Point::new(79, 0)));
    assert!(matches!(&cmds[boxes + 130], DrawCmd::PutPlain { pos, glyph: '\u{8}' } if *pos == Point::new(3, 0)));
    assert!(matches!(&cmds[boxes + 136], DrawCmd::PutPlain { pos, glyph: '\u{8}' } if *pos == Point::new(22, 0)));
}

#[test]
fn pause_cursor_moves_and_every_screen_is_drawn() {
    let mut game = game_on(5, 5, Point::new(2, 2));
    let mut canvas = console();
    let mut stack = ScreenStack::with_game_screen();
    stack.frame(&mut game, Some(Key::Escape), &mut canvas);
    assert!(stack.frame(&mut game, Some(Key::Up), &mut canvas));
    match stack.get(1) {
        Screen::Pause(p) => assert_eq!(p.menu.cursor_index(), 1),
        Screen::Game(_) => panic!("the pause screen stays on top"),
    }
    let cmds = canvas.flush();
    let last = cmds.len() - 1;
    assert!(matches!(&cmds[last], DrawCmd::PutPlain { pos, glyph: '>' } if *pos == Point::new(35, 25)));
    assert!(matches!(&cmds[last - 1], DrawCmd::PrintPlain { text, .. } if text == "Exit Game"));
    assert!(matches!(&cmds[last - 2], DrawCmd::PrintPlain { text, .. } if text == "Resume Game"));
    assert!(matches!(&cmds[last - 3], DrawCmd::PrintPlain { text, .. } if text == "Paused"));
    assert!(matches!(&cmds[0], DrawCmd::PutPlain { pos, .. } if *pos == Point::new(19, 1)));
}

#[test]
fn message_panel_shows_one_message_per_row_of_its_height() {
    let mut game = game_on(5, 5, Point::new(2, 2));
    for i in 0..20u64 {
        game.log.log(format!("m{}", i), MessageType::Info, i);
    }
    let g = GameScreen::new();
    let mut canvas = console();
    g.draw_messages(&game.log, &mut canvas);
    let cmds = canvas.commands();
    assert_eq!(cmds.len(), 13);
    assert!(matches!(&cmds[0], DrawCmd::Print { pos, text, .. } if *pos == Point::new(20, 37) && text == "m19"));
    assert!(matches!(&cmds[12], DrawCmd::Print { pos, text, .. } if *pos == Point::new(20, 49) && text == "m7"));
}

#[test]
fn escape_pushes_a_fresh_pause_menu() {
    let mut game = game_on(5, 5, Point::new(2, 2));
    let g = GameScreen::new();
    match g.input(&mut game, Some(Key::Escape)) {
        Some(ScreenChange::PushScreen(Screen::Pause(p))) => {
            let items = p.menu.items();
            assert_eq!(items.len(), 2);
            assert_eq!(items[0].text(), "Resume Game");
            assert_eq!(*items[0].option(), PauseMenu::Resume);
            assert_eq!(items[1].text(), "Exit Game");
            assert_eq!(*items[1].option(), PauseMenu::Exit);
        },
        _ => panic!("escape must open the pause menu"),
    }
    assert_eq!(game.world.player.pos(), Point::new(2, 2));
}

#[test]
fn map_text_error_names_the_mismatch() {
    assert!(matches!(String::from("##\n#\n").as_map(), Err(e) if e.msg == DIMENSION_MISMATCH));
    assert!(matches!(MapFromString::new(String::from(".\n..\n")).build(), Err(e) if e.msg == DIMENSION_MISMATCH));
}
