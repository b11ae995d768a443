//! A generator of a minimal building thermal model: one zone, one exterior
//! wall, an optional window cut into that wall, an optional constant
//! infiltration and optional heating and lighting loads.
//!
//! All quantities are exact fixed-point integers (see [`units`]) and the
//! geometry uses exact rational coordinates, so the area of the wall and of
//! the window add up to the configured surface area with no rounding at all.
//!
//! * [`options`]: what can be asked for, and what is wrong with it if
//!   anything is.
//! * [`geometry`]: loops and polygons; [`wall`]: the wall and its window.
//! * [`model`]: the entities and the table that holds them;
//!   [`construction`]: the stack of materials over shared substances.
//! * [`builder`]: the building itself; [`laws`]: what holds of every
//!   building that is built.

pub mod units;
pub mod numeric;
pub mod error;
pub mod geometry;
pub mod wall;
pub mod naming;
pub mod model;
pub mod options;
pub mod construction;
pub mod builder;
pub mod laws;
