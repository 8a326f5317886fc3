//! The core of a tile-based roguelike: geometry, the world and its map,
//! actors, a message log, menus, and the stack of screens that drives each
//! frame through input, update and drawing.

pub mod units;
pub mod map;
pub mod actor;
pub mod menu;
pub mod log;
pub mod world;
pub mod canvas;
pub mod viewport;
pub mod primitives;
pub mod widget;
pub mod game_screen;
pub mod pause_screen;
pub mod screen;
pub mod stack;
pub mod util;
pub mod popups;
