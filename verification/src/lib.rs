//! Radio coverage estimation over a hexagonal grid, with the terrain source
//! and the propagation model supplied by the caller.

pub mod coverage;
pub mod decibels;
pub mod error;
pub mod grid;
pub mod model;
pub mod parallel;
pub mod path;
pub mod point;
pub mod profile;
