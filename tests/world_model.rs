use rslike::actor::Actor;
use rslike::log::{Log, MessageType, LOG_CAPACITY};
use rslike::map::{
    rows_of_text, FromChar, IntoMap, MapBuildError, MapBuilder, MapFromString, Tile, TileMap,
    DIMENSION_MISMATCH,
};
use rslike::menu::{Menu, MenuError, MenuOption};
use rslike::units::{Direction, Point, Rectangle, Size};
use rslike::util::FirstLast;
use rslike::world::{Game, World};

fn floor_map(w: usize, h: usize) -> TileMap {
    let mut rows = Vec::new();
    for _ in 0..h {
        rows.push(vec![Tile::Floor; w]);
    }
    TileMap::new(rows).unwrap()
}

#[test]
fn point_moves_one_step_per_direction() {
    let p = Point::new(3, 4);
    assert_eq!(p.move_dir(Direction::Up), Point::new(3, 3));
    assert_eq!(p.move_dir(Direction::Down), Point::new(3, 5));
    assert_eq!(p.move_dir(Direction::Left), Point::new(2, 4));
    assert_eq!(p.move_dir(Direction::Right), Point::new(4, 4));
    assert_eq!(Point::zero(), Point::new(0, 0));
    assert_eq!(p.add(Point::new(-5, 10)), Point::new(-2, 14));
    assert_eq!(p.sub(Point::new(1, 1)), Point::new(2, 3));
    assert_eq!(Direction::Left.as_tuple(), (-1, 0));
}

#[test]
fn rectangle_inner_area_is_inset_by_the_border() {
    let r = Rectangle::new(Point::new(19, 1), Size::new(59, 34));
    assert_eq!(r.inner_location(), Point::new(20, 2));
    assert_eq!(r.inner_size(), Size::new(58, 33));
    let moved = r.translate(1, -1);
    assert_eq!(moved.location(), Point::new(20, 0));
    let grown = r.resize(2, 3);
    assert_eq!(grown.size, Size::new(61, 37));
}

#[test]
fn text_map_has_width_and_height_of_its_lines() {
    let m = String::from("#.,x\n....\n####\n").as_map().unwrap();
    assert_eq!(m.size(), Size::new(4, 3));
    assert_eq!(m.tile(0, 0), Tile::Wall);
    assert_eq!(m.tile(1, 0), Tile::Floor);
    assert_eq!(m.tile(2, 0), Tile::Grass);
    assert_eq!(m.tile(3, 0), Tile::Empty);
    assert_eq!(m.tile(3, 2), Tile::Wall);
}

#[test]
fn text_map_skips_empty_lines() {
    let m = String::from("\n\n##\n\n..\n").as_map().unwrap();
    assert_eq!(m.width(), 2);
    assert_eq!(m.height(), 2);
    assert_eq!(m.tile(0, 1), Tile::Floor);
}

#[test]
fn text_map_with_uneven_lines_is_refused() {
    let r = String::from("###\n#\n").as_map();
    match r {
        Err(e) => assert_eq!(e.msg, DIMENSION_MISMATCH),
        Ok(_) => panic!("uneven lines must not build a map"),
    }
}

#[test]
fn empty_text_gives_empty_map() {
    let m = String::new().as_map().unwrap();
    assert_eq!(m.size(), Size::new(0, 0));
}

#[test]
fn rows_of_text_maps_each_character() {
    let rows = rows_of_text("#.\n,?");
    assert_eq!(rows, vec![vec![Tile::Wall, Tile::Floor], vec![Tile::Grass, Tile::Empty]]);
    assert_eq!(Tile::from_char('#'), Tile::Wall);
    assert_eq!(Tile::from_char(' '), Tile::Empty);
}

#[test]
fn grid_of_tiles_builds_map_or_fails_on_mismatch() {
    let ok = vec![vec![Tile::Wall; 3], vec![Tile::Floor; 3]].as_map().unwrap();
    assert_eq!(ok.size(), Size::new(3, 2));
    let bad = vec![vec![Tile::Wall; 3], vec![Tile::Floor; 2]].as_map();
    assert!(bad.is_err());
    assert_eq!(MapBuildError::new("x").msg, "x");
}

#[test]
fn map_from_string_builder() {
    let b = MapFromString::new(String::from(".,\n#.\n"));
    let m = b.build().unwrap();
    assert_eq!(m.tile(0, 1), Tile::Wall);
    assert!(MapFromString::new(String::from("..\n.\n")).build().is_err());
}

#[test]
fn killed_actor_is_dead_whatever_its_health() {
    for h in [-5, 0, 1, 100, i32::MAX] {
        let mut a = Actor::new("Dog", Point::zero(), h);
        a.kill();
        assert!(a.is_dead());
        assert_eq!(a.health, 0);
    }
}

#[test]
fn hurt_then_heal_restores_health() {
    let mut a = Actor::new("Dog", Point::zero(), 100);
    for h in [0, 1, 7, 150, -30] {
        a.hurt(h);
        a.heal(h);
        assert_eq!(a.health, 100);
    }
    a.hurt(250);
    assert_eq!(a.health, -150);
    assert!(a.is_dead());
    a.heal(1000);
    assert_eq!(a.health, 850);
    assert_eq!(a.max_health, 100);
    assert_eq!(a.name(), "Dog");
}

#[test]
fn actor_walks_without_bounds() {
    let mut a = Actor::new("Cat", Point::new(0, 0), 10);
    a.walk(Direction::Up);
    a.walk(Direction::Left);
    assert_eq!(a.pos(), Point::new(-1, -1));
}

#[test]
fn menu_wraps_at_both_ends() {
    let mut m = Menu::new(vec![
        MenuOption::new("a", 1),
        MenuOption::new("b", 2),
        MenuOption::new("c", 3),
    ])
    .unwrap();
    assert_eq!(m.cursor_index(), 0);
    m.prev();
    assert_eq!(m.cursor_index(), 2);
    assert_eq!(*m.selected().option(), 3);
    m.next();
    assert_eq!(m.cursor_index(), 0);
    m.next();
    m.next();
    assert_eq!(m.cursor_index(), 2);
    m.next();
    assert_eq!(m.cursor_index(), 0);
    assert!(m.is_selected(0));
    assert!(!m.is_selected(1));
    assert_eq!(m.items().len(), 3);
    assert_eq!(m.items()[1].text(), "b");
}

#[test]
fn menu_cursor_stays_in_range_over_many_moves() {
    let mut m = Menu::new(vec![MenuOption::new("a", 'a'), MenuOption::new("b", 'b')]).unwrap();
    for i in 0..50 {
        if i % 3 == 0 {
            m.prev();
        } else {
            m.next();
        }
        assert!(m.cursor_index() < 2);
    }
    let mut one = Menu::new(vec![MenuOption::new("only", ())]).unwrap();
    one.next();
    assert_eq!(one.cursor_index(), 0);
    one.prev();
    assert_eq!(one.cursor_index(), 0);
}

#[test]
fn empty_menu_is_refused() {
    let r: Result<Menu<u8>, MenuError> = Menu::new(Vec::new());
    assert!(matches!(r, Err(MenuError::NoOptions)));
}

#[test]
fn log_is_newest_first_and_trimmed() {
    let mut log = Log::new();
    log.log(String::from("first"), MessageType::Info, 1);
    log.log(String::from("second"), MessageType::Error, 2);
    assert_eq!(log.len(), 2);
    assert_eq!(log.items()[0].text(), "second");
    assert_eq!(log.items()[0].ty(), MessageType::Error);
    assert_eq!(log.items()[1].timestamp(), 1);
    assert_eq!(log.shown(1), 1);
    assert_eq!(log.shown(10), 2);
    for i in 0..(LOG_CAPACITY as u64 + 5) {
        log.log(format!("m{}", i), MessageType::Info, 10 + i);
    }
    assert_eq!(log.len(), LOG_CAPACITY);
    assert_eq!(log.items()[0].text(), format!("m{}", LOG_CAPACITY + 4));
}

#[test]
fn world_walk_moves_player_without_bounds() {
    let map = floor_map(5, 5);
    let mut world = World::new(map, Actor::new("Player", Point::new(2, 2), 10));
    world.walk(Direction::Up);
    world.walk(Direction::Up);
    world.walk(Direction::Left);
    assert_eq!(world.player.pos(), Point::new(1, 0));
    world.walk(Direction::Up);
    assert_eq!(world.player.pos(), Point::new(1, -1));
    world.add_actor(Actor::new("Dog", Point::new(4, 4), 5));
    assert_eq!(world.actors.len(), 1);
    let mut game = Game::new(world);
    game.step();
    assert_eq!(game.world.player.pos(), Point::new(1, -1));
    assert_eq!(game.log.len(), 0);
}

#[test]
fn first_and_last_of_vec() {
    let mut v = vec![1, 2, 3];
    assert_eq!(*FirstLast::first(&v), 1);
    assert_eq!(*FirstLast::last(&v), 3);
    *FirstLast::first_mut(&mut v) = 10;
    *FirstLast::last_mut(&mut v) = 30;
    assert_eq!(v, vec![10, 2, 30]);
}
