//! A psychedelic ray-caster arena: level grid, grid walk of the rays, pixel
//! drawing, bitmap text, minimap, screens and the game's state machine.

pub mod canvas;
pub mod color;
pub mod font;
pub mod game;
pub mod hud;
pub mod map;
pub mod minimap;
pub mod raycast;
pub mod screens;
