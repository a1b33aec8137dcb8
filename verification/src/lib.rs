//! A text-mode raycasting renderer: a 2D tile grid is projected into a
//! pseudo-3D character view by marching one ray per screen column.
//!
//! All geometry is carried in fixed-point arithmetic: a coordinate or an
//! angle is an `i64` counting millionths of a map unit or of a radian
//! (see [`fixed::SCALE`]).  The modules, leaf to root:
//!
//! - [`fixed`]: fixed-point division, square root and trigonometry;
//! - [`map`]: the wall grid and its wall-test predicate;
//! - [`player`]: the player's position and heading;
//! - [`controller`]: turns held keys and a frame time into a player update,
//!   rejecting moves into walls;
//! - [`raycast`]: per-column ray marching and wall-edge classification;
//! - [`screen`]: the character buffer, distance shading and frame composition.

pub mod controller;
pub mod fixed;
pub mod map;
pub mod player;
pub mod raycast;
pub mod screen;
