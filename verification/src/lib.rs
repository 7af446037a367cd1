//! Verified core of the dungeon crawler: map tile layout, scene-graph traversal,
//! mesh naming conventions, pixel and geometry repacking, skins, light packing,
//! and the decisions taken by the game loop.

pub mod config;
pub mod map;
pub mod text;
pub mod model;
pub mod engine;
pub mod state;
pub mod ui;
