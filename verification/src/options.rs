//! What can be asked of the builder.

use vstd::prelude::*;
use crate::error::{BuildError, ConfigFault};
use crate::model::SubstanceKind;

verus! {

/// The thickness of the layer of a construction that nobody specified, in
/// millionths of a metre.
pub const DEFAULT_LAYER_THICKNESS: i64 = 20_000;

/// The emissivity of the surfaces where nobody specified one, in millionths.
pub const DEFAULT_EMISSIVITY: i64 = 840_000;

/// The value of a required quantity that nobody specified. It is negative,
/// so that it is never taken for a quantity.
pub const UNSPECIFIED: i64 = -1_000_000;

/// A layer of a test construction.
#[derive(Clone, Copy, PartialEq, Eq, Structural, Debug)]
pub enum TestMat {
    /// Concrete of the given thickness, in millionths of a metre.
    ///
    /// Density 1700 kg/m3, specific heat 800 J/(kg K), thermal conductivity
    /// 0.816 W/(m K); the emissivity is that of the options.
    Concrete(i64),
    /// Polyurethane of the given thickness, in millionths of a metre.
    ///
    /// Density 17.5 kg/m3, specific heat 2400 J/(kg K), thermal conductivity
    /// 0.0252 W/(m K); the emissivity is that of the options.
    Polyurethane(i64),
}

impl TestMat {
    /// The kind of substance that the layer is made of.
    pub open spec fn kind(self) -> SubstanceKind {
        match self {
            TestMat::Concrete(_) => SubstanceKind::Concrete,
            TestMat::Polyurethane(_) => SubstanceKind::Polyurethane,
        }
    }

    /// The thickness of the layer.
    pub open spec fn thickness(self) -> i64 {
        match self {
            TestMat::Concrete(thickness) => thickness,
            TestMat::Polyurethane(thickness) => thickness,
        }
    }

    /// The kind of substance that the layer is made of.
    pub fn substance_kind(&self) -> (r: SubstanceKind)
        ensures
            r == self.kind(),
    {
        match self {
            TestMat::Concrete(_) => SubstanceKind::Concrete,
            TestMat::Polyurethane(_) => SubstanceKind::Polyurethane,
        }
    }

    /// The thickness of the layer, in millionths of a metre.
    pub fn layer_thickness(&self) -> (r: i64)
        ensures
            r == self.thickness(),
    {
        match self {
            TestMat::Concrete(thickness) => *thickness,
            TestMat::Polyurethane(thickness) => *thickness,
        }
    }
}

/// The options of the single-zone test building. Every quantity is in
/// millionths of its SI unit.
#[derive(Debug)]
pub struct SingleZoneTestBuildingOptions {
    /// The volume of the zone. Required: it has to be positive.
    pub zone_volume: i64,
    /// The layers of the construction of the wall and of the window, from
    /// the outside to the inside. There has to be at least one.
    pub construction_layers: Vec<TestMat>,
    /// The area of the wall, window included. Required: it has to be
    /// positive.
    pub surface_area: i64,
    /// The area of the window. Where it is positive, it has to be smaller
    /// than the area of the wall; otherwise there is no window.
    pub window_area: i64,
    /// The power of the heater. There is a heater where it is positive.
    pub heating_power: i64,
    /// The power of the lighting. There is a luminaire where it is positive.
    pub lighting_power: i64,
    /// The rate of infiltration. There is infiltration where it is positive.
    pub infiltration_rate: i64,
    /// The emissivity of every substance.
    pub emissivity: i64,
}

impl Default for SingleZoneTestBuildingOptions {
    /// The options in which nothing is specified: no volume and no area
    /// yet, a single layer of polyurethane, and no window, heater, lighting
    /// or infiltration.
    fn default() -> (r: SingleZoneTestBuildingOptions)
        ensures
            r.zone_volume == UNSPECIFIED,
            r.construction_layers@ == seq![TestMat::Polyurethane(DEFAULT_LAYER_THICKNESS)],
            r.surface_area == UNSPECIFIED,
            r.window_area == 0,
            r.heating_power == 0,
            r.lighting_power == 0,
            r.infiltration_rate == 0,
            r.emissivity == DEFAULT_EMISSIVITY,
    {
        let mut construction_layers: Vec<TestMat> = Vec::new();
        construction_layers.push(TestMat::Polyurethane(DEFAULT_LAYER_THICKNESS));
        assert(construction_layers@ =~= seq![TestMat::Polyurethane(DEFAULT_LAYER_THICKNESS)]);
        SingleZoneTestBuildingOptions {
            zone_volume: UNSPECIFIED,
            construction_layers,
            surface_area: UNSPECIFIED,
            window_area: 0,
            heating_power: 0,
            lighting_power: 0,
            infiltration_rate: 0,
            emissivity: DEFAULT_EMISSIVITY,
        }
    }
}

impl SingleZoneTestBuildingOptions {
    /// Whether a window is asked for.
    pub open spec fn wants_window(&self) -> bool {
        self.window_area > 0
    }

    /// Whether a heater is asked for.
    pub open spec fn wants_heater(&self) -> bool {
        self.heating_power > 0
    }

    /// Whether a luminaire is asked for.
    pub open spec fn wants_luminaire(&self) -> bool {
        self.lighting_power > 0
    }

    /// What is wrong with the options, if anything is: the first of a zone
    /// volume that is not positive, a construction without layers, a surface
    /// area that is not positive, and a window that is not smaller than the
    /// surface.
    pub open spec fn first_fault(&self) -> Option<ConfigFault> {
        if self.zone_volume <= 0 {
            Some(ConfigFault::NonPositiveZoneVolume { value: self.zone_volume })
        } else if self.construction_layers@.len() == 0 {
            Some(ConfigFault::EmptyConstruction)
        } else if self.surface_area <= 0 {
            Some(ConfigFault::NonPositiveSurfaceArea { value: self.surface_area })
        } else if self.window_area > 0 && self.window_area >= self.surface_area {
            Some(ConfigFault::WindowNotSmallerThanSurface { window_area: self.window_area })
        } else {
            None
        }
    }

    /// Checks the options and names the first thing that is wrong with them.
    pub fn validate(&self) -> (r: Result<(), BuildError>)
        ensures
            r is Ok <==> self.first_fault() is None,
            r matches Err(e) ==> self.first_fault() matches Some(fault) && e
                == BuildError::InvalidConfiguration(fault),
    {
        if self.zone_volume <= 0 {
            return Err(
                BuildError::InvalidConfiguration(
                    ConfigFault::NonPositiveZoneVolume { value: self.zone_volume },
                ),
            );
        }
        if self.construction_layers.len() == 0 {
            return Err(BuildError::InvalidConfiguration(ConfigFault::EmptyConstruction));
        }
        if self.surface_area <= 0 {
            return Err(
                BuildError::InvalidConfiguration(
                    ConfigFault::NonPositiveSurfaceArea { value: self.surface_area },
                ),
            );
        }
        if self.window_area > 0 && self.window_area >= self.surface_area {
            return Err(
                BuildError::InvalidConfiguration(
                    ConfigFault::WindowNotSmallerThanSurface { window_area: self.window_area },
                ),
            );
        }
        Ok(())
    }
}

} // verus!
