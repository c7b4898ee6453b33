//! Walls of a grid-built level and collision against them.
//!
//! A level is an occupancy grid. Every face of a wall cell that borders a free
//! cell, or the edge of the grid, becomes one oriented wall segment in world
//! space. An agent with a circular footprint is kept out of the walls by
//! pushing it away from each segment in turn.
//!
//! World coordinates are whole numbers of lattice units, `space::UNITS` to one
//! world unit, and walls run along the axes, as the faces of cells do. So every
//! test is exact arithmetic, and a correction is exact but for the rounding of
//! a slanting push to the next lattice point away from the wall.

pub mod grid;
pub mod space;
pub mod wall;
pub mod coverage;
pub mod reach;
mod vector;
pub mod collision;
pub mod projection;
pub mod separation;
pub mod motion;
pub mod mesh;
pub mod garage;
pub mod controls;
