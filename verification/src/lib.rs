//! A tile-grid dungeon crawl: rectangles, the tile map and its generators,
//! an entity store, the systems that move and draw its entities, and the
//! tick that ties them together.

pub mod components;
pub mod dice;
pub mod dungeon;
pub mod ecs;
pub mod game;
pub mod map;
pub mod rect;
pub mod systems;

pub use components::{Color, Component, ComponentKind, DrawCall, Position, Renderable};
pub use ecs::{Command, EntityId, EntityStore};
pub use game::{player_input, Key, ScreenCall, State};
pub use map::{
    draw_map, new_map_rooms_and_corridors, new_map_test, xy_idx, MapError, TileType,
};
pub use rect::Rect;
pub use systems::{try_move_player, LeftWalker};
