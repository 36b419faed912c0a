//! Core of a 2D "squeeze through gaps" platformer: a player-controlled
//! circle of variable radius falls under gravity, bounces and slides off
//! straight wall segments, and squeezes through gaps by shrinking.
//!
//! All geometry and physics run on fixed-point integers: one world unit
//! (and one second) is `fx::FX_ONE` sub-units. The embedding application
//! converts to and from its own number formats at the boundary.

pub mod config;
pub mod editor;
pub mod fx;
pub mod laws;
pub mod level;
pub mod player;
pub mod resolver;
pub mod scheduler;
pub mod segment;
pub mod vec;
