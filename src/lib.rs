//! A small retained-mode scene registry: drawable entries kept behind opaque
//! handles, the geometry that feeds them, and the decisions of the frame loop
//! that draws them.
pub mod driver;
pub mod geometry;
pub mod registry;
