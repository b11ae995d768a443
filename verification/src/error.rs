//! The two ways in which building a model can fail.

use vstd::prelude::*;
use crate::geometry::Point;

verus! {

/// What is wrong with a configuration, with the offending value.
#[derive(Clone, Copy, PartialEq, Eq, Structural, Debug)]
pub enum ConfigFault {
    /// The zone volume is zero or negative.
    NonPositiveZoneVolume { value: i64 },
    /// The surface area is zero or negative.
    NonPositiveSurfaceArea { value: i64 },
    /// A window was asked for with an area that is zero or negative.
    NonPositiveWindowArea { value: i64 },
    /// A heater was asked for with a power that is zero or negative.
    NonPositiveHeatingPower { value: i64 },
    /// A luminaire was asked for with a power that is zero or negative.
    NonPositiveLightingPower { value: i64 },
    /// A load was asked for in a model that has no space to put it in.
    NoSpace,
    /// The window is as large as the surface it is cut from, or larger.
    WindowNotSmallerThanSurface { window_area: i64 },
    /// The construction has no layer.
    EmptyConstruction,
}

/// What is wrong with a piece of geometry, with what was offered.
#[derive(Clone, Copy, PartialEq, Eq, Structural, Debug)]
pub enum GeometryFault {
    /// A loop was given a scale that is zero; the two scales are those
    /// given.
    ZeroScale { scale_x: u64, scale_z: u64 },
    /// A point was added to, or closure was asked of, a closed loop; it has
    /// this many points.
    LoopClosed { points: usize },
    /// A polygon or a hole was asked of a loop that is not closed; it has
    /// this many points.
    LoopOpen { points: usize },
    /// The points of the loop do not walk an axis-aligned rectangle in the
    /// plane `y = 0`; it has this many points.
    NotRectangular { points: usize },
    /// A side of the loop has a length that is zero or negative; the loop
    /// runs between these two opposite corners.
    Degenerate { from: Point, to: Point },
    /// The polygon already has a hole; the hole that was refused runs
    /// between these two opposite corners.
    AlreadyCut { from: Point, to: Point },
    /// The hole touches or crosses the boundary of the polygon; it runs
    /// between these two opposite corners.
    HoleNotInside { from: Point, to: Point },
    /// The window of this area cannot be cut: even in lowest terms, an end
    /// or a scale of it does not fit the machine integers, or a product on
    /// the way to it does not fit 128 bits.
    Unrepresentable { area: i64 },
}

/// Why no model was built.
#[derive(Clone, Copy, PartialEq, Eq, Structural, Debug)]
pub enum BuildError {
    /// The options ask for something that cannot be built.
    InvalidConfiguration(ConfigFault),
    /// The geometry derived from the options is not valid.
    GeometryError(GeometryFault),
}

} // verus!
