//! Core logic of a breakout-style arcade game: axis-aligned rectangles,
//! a paddle, a bouncing ball, destructible blocks, and the per-frame
//! update that moves entities, resolves collisions and keeps score.
//!
//! Rendering, input polling and timing live outside this crate; every
//! function here works on plain integer coordinates and is verified.

pub mod ball;
pub mod block;
pub mod game;
pub mod geom;
pub mod player;

pub use geom::Rect;
pub use geom::Vel;
