//! A deterministic, integer-only simulation core for a top-down tile arena:
//! actors move with per-axis collision rollback, enemies follow a small set
//! of behaviours, projectiles and contact deal damage, and a fog of war
//! remembers which tiles the player has seen.
//!
//! Every quantity that a renderer would hold as a real number is stored in
//! fixed point (see [`fixed`]), and every clock is in whole milliseconds, so
//! a frame is a pure function of the state, the sampled input and the clock.
//!
//! * [`fixed`], [`movement`], [`entity`]: numbers, steps and boxes.
//! * [`level`], [`level_generator`]: the tile grid, its fog, and random
//!   layouts.
//! * [`player`], [`enemy`]: the actors and their turns.
//! * [`game`], [`camera`], [`controls`], [`flow`]: one frame, one view, one
//!   sample of input, one session.
//! * [`resources`], [`gfx`], [`error`]: authored data, sprites, and what can
//!   be wrong with them.

pub mod fixed;
pub mod movement;
pub mod entity;
pub mod error;
pub mod gfx;
pub mod controls;
pub mod level;
pub mod level_generator;
pub mod resources;
pub mod player;
pub mod enemy;
pub mod camera;
pub mod game;
pub mod flow;
