//! The integer-valued core of the hyperbolic maze: the pickup lifecycle of
//! the maze's objects, the progress line shown to the player, and the pairing
//! of wall endpoints used by the corner pass of the collision solver.
pub mod decimal;
pub mod pickup;
pub mod hud;
pub mod corners;
