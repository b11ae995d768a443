//! The single-zone test building: one space, one wall, and on request a
//! window, infiltration, a heater and a luminaire.

use vstd::prelude::*;
use crate::construction::{
    build_construction,
    consecutive_materials,
    is_layer_material,
    resolved_substances,
};
use crate::error::{BuildError, ConfigFault};
use crate::geometry::{Polygon, PolygonView};
use crate::model::{
    Boundary,
    ConstructionHandle,
    Fenestration,
    FenestrationHandle,
    FenestrationPositions,
    FenestrationType,
    Load,
    LoadHandle,
    LoadKind,
    Model,
    SimulationStateElement,
    SimulationStateHeader,
    Space,
    SpaceHandle,
    Substance,
    Surface,
};
use crate::options::SingleZoneTestBuildingOptions;
use crate::wall::{
    build_wall_polygon,
    cut_window,
    wall_outcome,
    window_outcome,
    lemma_moderate_areas_are_representable,
    lemma_wall_has_its_area,
    lemma_window_conserves_area,
};

verus! {

/// The heater that the options ask for, as the model keeps it once its
/// consumption is entry `index` of the simulation state.
pub open spec fn heater_of(options: SingleZoneTestBuildingOptions, index: nat) -> Load {
    Load {
        kind: LoadKind::Heater,
        max_power: options.heating_power,
        target_space: SpaceHandle(0),
        consumption_index: Some(index as usize),
    }
}

/// The luminaire that the options ask for, as the model keeps it once its
/// consumption is entry `index` of the simulation state.
pub open spec fn luminaire_of(options: SingleZoneTestBuildingOptions, index: nat) -> Load {
    Load {
        kind: LoadKind::Luminaire,
        max_power: options.lighting_power,
        target_space: SpaceHandle(0),
        consumption_index: Some(index as usize),
    }
}

/// Why no heater can be added to `model`, if none can: the heating power
/// is not positive, or the model has no space.
pub open spec fn heater_fault(model: Model, options: SingleZoneTestBuildingOptions) -> Option<
    BuildError,
> {
    if options.heating_power <= 0 {
        Some(
            BuildError::InvalidConfiguration(
                ConfigFault::NonPositiveHeatingPower { value: options.heating_power },
            ),
        )
    } else if model.spaces@.len() == 0 {
        Some(BuildError::InvalidConfiguration(ConfigFault::NoSpace))
    } else {
        None
    }
}

/// Why no luminaire can be added to `model`, if none can: the lighting
/// power is not positive, or the model has no space.
pub open spec fn luminaire_fault(model: Model, options: SingleZoneTestBuildingOptions) -> Option<
    BuildError,
> {
    if options.lighting_power <= 0 {
        Some(
            BuildError::InvalidConfiguration(
                ConfigFault::NonPositiveLightingPower { value: options.lighting_power },
            ),
        )
    } else if model.spaces@.len() == 0 {
        Some(BuildError::InvalidConfiguration(ConfigFault::NoSpace))
    } else {
        None
    }
}

/// Adds the heater that the options ask for: its largest power is the
/// heating power, and it heats the first space. Where the power is not
/// positive or the model has no space, nothing is added or registered.
pub fn add_heater(
    model: &mut Model,
    options: &SingleZoneTestBuildingOptions,
    header: &mut SimulationStateHeader,
) -> (r: Result<(), BuildError>)
    ensures
        r is Ok <==> options.heating_power > 0 && old(model).spaces@.len() > 0,
        r is Ok ==> final(model).loads@ == old(model).loads@.push(
            heater_of(*options, old(header).elements@.len()),
        ) && *final(model) == (Model { loads: final(model).loads, ..*old(model) })
            && final(header).elements@ == old(header).elements@.push(
            SimulationStateElement::LoadPowerConsumption(
                LoadHandle(old(model).loads@.len() as usize),
            ),
        ),
        r is Ok && old(model).wf() ==> final(model).wf(),
        r matches Err(e) ==> heater_fault(*old(model), *options) == Some(e) && *final(model)
            == *old(model) && *final(header) == *old(header),
{
    if options.heating_power <= 0 {
        return Err(
            BuildError::InvalidConfiguration(
                ConfigFault::NonPositiveHeatingPower { value: options.heating_power },
            ),
        );
    }
    if model.spaces.len() == 0 {
        return Err(BuildError::InvalidConfiguration(ConfigFault::NoSpace));
    }
    let heater = Load {
        kind: LoadKind::Heater,
        max_power: options.heating_power,
        target_space: SpaceHandle(0),
        consumption_index: None,
    };
    let _ = model.add_load(heater, header);
    Ok(())
}

/// Adds the luminaire that the options ask for: its largest power is the
/// lighting power, and it lights the first space. Where the power is not
/// positive or the model has no space, nothing is added or registered.
pub fn add_luminaire(
    model: &mut Model,
    options: &SingleZoneTestBuildingOptions,
    header: &mut SimulationStateHeader,
) -> (r: Result<(), BuildError>)
    ensures
        r is Ok <==> options.lighting_power > 0 && old(model).spaces@.len() > 0,
        r is Ok ==> final(model).loads@ == old(model).loads@.push(
            luminaire_of(*options, old(header).elements@.len()),
        ) && *final(model) == (Model { loads: final(model).loads, ..*old(model) })
            && final(header).elements@ == old(header).elements@.push(
            SimulationStateElement::LoadPowerConsumption(
                LoadHandle(old(model).loads@.len() as usize),
            ),
        ),
        r is Ok && old(model).wf() ==> final(model).wf(),
        r matches Err(e) ==> luminaire_fault(*old(model), *options) == Some(e) && *final(model)
            == *old(model) && *final(header) == *old(header),
{
    if options.lighting_power <= 0 {
        return Err(
            BuildError::InvalidConfiguration(
                ConfigFault::NonPositiveLightingPower { value: options.lighting_power },
            ),
        );
    }
    if model.spaces.len() == 0 {
        return Err(BuildError::InvalidConfiguration(ConfigFault::NoSpace));
    }
    let luminaire = Load {
        kind: LoadKind::Luminaire,
        max_power: options.lighting_power,
        target_space: SpaceHandle(0),
        consumption_index: None,
    };
    let _ = model.add_load(luminaire, header);
    Ok(())
}

/// The space that the options ask for.
pub open spec fn space_of(options: SingleZoneTestBuildingOptions) -> Space {
    Space {
        volume: options.zone_volume,
        infiltration: if options.infiltration_rate > 0 {
            Some(options.infiltration_rate)
        } else {
            None
        },
    }
}

/// What the geometry of the options comes to: the wall, with its hole where
/// a window is asked for, and the pane of the window.
pub open spec fn geometry_outcome(options: SingleZoneTestBuildingOptions) -> Result<
    (PolygonView, Option<PolygonView>),
    BuildError,
> {
    match wall_outcome(options.surface_area as int) {
        Err(e) => Err(e),
        Ok(wall) => if options.wants_window() {
            match window_outcome(wall, options.window_area as int) {
                Err(e) => Err(e),
                Ok(pair) => Ok((pair.0, Some(pair.1))),
            }
        } else {
            Ok((wall, None))
        },
    }
}

/// Why no model can be built from the options, if none can: a fault of the
/// configuration comes before a fault of the geometry.
pub open spec fn build_fault(options: SingleZoneTestBuildingOptions) -> Option<BuildError> {
    match options.first_fault() {
        Some(fault) => Some(BuildError::InvalidConfiguration(fault)),
        None => match geometry_outcome(options) {
            Err(e) => Some(e),
            Ok(_) => None,
        },
    }
}

/// The loads that the options ask for, the heater first, where `index` is
/// the first free entry of the simulation state.
pub open spec fn loads_of(options: SingleZoneTestBuildingOptions, index: nat) -> Seq<Load> {
    let heaters = if options.wants_heater() {
        seq![heater_of(options, index)]
    } else {
        Seq::<Load>::empty()
    };
    let luminaires = if options.wants_luminaire() {
        seq![luminaire_of(options, index + heaters.len())]
    } else {
        Seq::<Load>::empty()
    };
    heaters + luminaires
}

/// The entries that building the model adds to the simulation state: the
/// open fraction of the window, the consumption of the heater and that of
/// the luminaire, each where the options ask for the thing.
pub open spec fn elements_of(options: SingleZoneTestBuildingOptions) -> Seq<
    SimulationStateElement,
> {
    let windows = if options.wants_window() {
        seq![SimulationStateElement::FenestrationOpenFraction(FenestrationHandle(0))]
    } else {
        Seq::<SimulationStateElement>::empty()
    };
    let heaters = if options.wants_heater() {
        seq![SimulationStateElement::LoadPowerConsumption(LoadHandle(0))]
    } else {
        Seq::<SimulationStateElement>::empty()
    };
    let luminaires = if options.wants_luminaire() {
        seq![SimulationStateElement::LoadPowerConsumption(LoadHandle(heaters.len() as usize))]
    } else {
        Seq::<SimulationStateElement>::empty()
    };
    windows + heaters + luminaires
}

/// The surface is the wall of the single-zone building: it has the given
/// polygon and the only construction, and the only space in front of it.
pub open spec fn is_the_wall(surface: Surface, polygon: PolygonView) -> bool {
    &&& surface.polygon@ == polygon
    &&& surface.construction == ConstructionHandle(0)
    &&& surface.front_boundary == Boundary::Space(SpaceHandle(0))
    &&& surface.back_boundary == Boundary::Outdoor
}

/// The fenestration is the window of the single-zone building: it has the
/// given polygon and the only construction, is either open or closed, has
/// the only space in front of it, and keeps its open fraction in entry
/// `index` of the simulation state.
pub open spec fn is_the_window(fenestration: Fenestration, polygon: PolygonView, index: nat) -> bool {
    &&& fenestration.polygon@ == polygon
    &&& fenestration.construction == ConstructionHandle(0)
    &&& fenestration.operation == FenestrationPositions::Binary
    &&& fenestration.category == FenestrationType::Window
    &&& fenestration.front_boundary == Boundary::Space(SpaceHandle(0))
    &&& fenestration.back_boundary == Boundary::Outdoor
    &&& fenestration.open_fraction_index == Some(index as usize)
}

/// `model` is the single-zone building that `options` describe, built while
/// the simulation state had `index` entries.
pub open spec fn is_single_zone_model(
    model: Model,
    options: SingleZoneTestBuildingOptions,
    index: nat,
) -> bool {
    let layers = options.construction_layers@;
    &&& geometry_outcome(options) is Ok
    &&& model.spaces@ == seq![space_of(options)]
    &&& model.substances@ == resolved_substances(
        Seq::<Substance>::empty(),
        layers,
        options.emissivity,
    )
    &&& model.materials@.len() == layers.len()
    &&& forall|j: int|
        0 <= j < layers.len() ==> is_layer_material(
            model.materials@[j],
            model.substances@,
            #[trigger] layers[j],
            j,
        )
    &&& model.constructions@.len() == 1
    &&& model.constructions@[0].materials@ == consecutive_materials(0, layers.len() as int)
    &&& model.surfaces@.len() == 1
    &&& is_the_wall(model.surfaces@[0], geometry_outcome(options).unwrap().0)
    &&& match geometry_outcome(options).unwrap().1 {
        Some(pane) => model.fenestrations@.len() == 1 && is_the_window(
            model.fenestrations@[0],
            pane,
            index,
        ),
        None => model.fenestrations@.len() == 0,
    }
    &&& model.loads@ == loads_of(options, index + model.fenestrations@.len())
}

/// The area of the wall of a single-zone building, less its hole, and
/// the area of its window add up to the surface area of the options.
pub proof fn lemma_areas_add_up(model: Model, options: SingleZoneTestBuildingOptions, index: nat)
    requires
        options.first_fault() is None,
        is_single_zone_model(model, options, index),
    ensures
        options.wants_window() ==> model.fenestrations@.len() == 1
            && model.fenestrations@[0].polygon@.area() == options.window_area as real
            && model.surfaces@[0].polygon@.area() + model.fenestrations@[0].polygon@.area()
            == options.surface_area as real,
        !options.wants_window() ==> model.fenestrations@.len() == 0
            && model.surfaces@[0].polygon@.area() == options.surface_area as real,
        model.surfaces@[0].polygon@.wf(),
        forall|i: int|
            0 <= i < model.fenestrations@.len() ==> (#[trigger] model.fenestrations@[i]).polygon@.wf()
                && model.fenestrations@[i].polygon@.inner is None,
{
    lemma_wall_has_its_area(options.surface_area as int);
    let wall = wall_outcome(options.surface_area as int).unwrap();
    if options.wants_window() {
        lemma_window_conserves_area(wall, options.window_area as int);
    }
}

/// Builds the single-zone building of the options and registers what the
/// simulation has to keep state for. Nothing is registered where no model
/// is built.
pub fn assemble(options: &SingleZoneTestBuildingOptions, header: &mut SimulationStateHeader) -> (r:
    Result<Model, BuildError>)
    ensures
        r is Ok <==> build_fault(*options) is None,
        r matches Ok(model) ==> is_single_zone_model(
            model,
            *options,
            old(header).elements@.len(),
        ) && model.wf() && final(header).elements@ == old(header).elements@ + elements_of(
            *options,
        ),
        r matches Err(e) ==> build_fault(*options) == Some(e) && final(header).elements@ == old(
            header,
        ).elements@,
        options.first_fault() is None && options.surface_area <= 1_000_000_000_000 ==> r is Ok,
{
    proof {
        if options.first_fault() is None && options.surface_area <= 1_000_000_000_000 {
            lemma_wall_has_its_area(options.surface_area as int);
            if options.wants_window() {
                lemma_moderate_areas_are_representable(
                    options.surface_area as int,
                    options.window_area as int,
                );
            }
        }
    }
    match options.validate() {
        Ok(()) => {},
        Err(e) => {
            return Err(e);
        },
    }
    let wall = match build_wall_polygon(options.surface_area) {
        Ok(p) => p,
        Err(e) => {
            return Err(e);
        },
    };
    proof {
        lemma_wall_has_its_area(options.surface_area as int);
        if options.wants_window() && window_outcome(wall@, options.window_area as int) is Ok {
            lemma_window_conserves_area(wall@, options.window_area as int);
        }
    }
    let (wall, pane): (Polygon, Option<Polygon>) = if options.window_area > 0 {
        match cut_window(wall, options.window_area) {
            Ok(pair) => (pair.0, Some(pair.1)),
            Err(e) => {
                return Err(e);
            },
        }
    } else {
        (wall, None)
    };

    let mut model = Model::new();
    let mut space = Space { volume: options.zone_volume, infiltration: None };
    if options.infiltration_rate > 0 {
        space.infiltration = Some(options.infiltration_rate);
    }
    let space = model.add_space(space);
    assert(model.spaces@ =~= seq![space_of(*options)]);

    let ghost with_space = model;
    let construction = match build_construction(
        &mut model,
        &options.construction_layers,
        options.emissivity,
    ) {
        Ok(handle) => handle,
        Err(e) => {
            return Err(e);
        },
    };
    assert(with_space.substances@ =~= Seq::<Substance>::empty());

    let surface = Surface {
        polygon: wall,
        construction,
        front_boundary: Boundary::Space(space),
        back_boundary: Boundary::Outdoor,
    };
    let _ = model.add_surface(surface);

    let ghost elements_before = header.elements@;
    match pane {
        Some(pane) => {
            let fenestration = Fenestration {
                polygon: pane,
                construction,
                operation: FenestrationPositions::Binary,
                category: FenestrationType::Window,
                front_boundary: Boundary::Space(space),
                back_boundary: Boundary::Outdoor,
                open_fraction_index: None,
            };
            let _ = model.add_fenestration(fenestration, header);
        },
        None => {},
    }
    if options.heating_power > 0 {
        match add_heater(&mut model, options, header) {
            Ok(()) => {},
            Err(e) => {
                return Err(e);
            },
        }
    }
    if options.lighting_power > 0 {
        match add_luminaire(&mut model, options, header) {
            Ok(()) => {},
            Err(e) => {
                return Err(e);
            },
        }
    }
    proof {
        let index = elements_before.len();
        assert(model.loads@ =~= loads_of(*options, index + model.fenestrations@.len()));
        assert(header.elements@ =~= elements_before + elements_of(*options));
    }
    Ok(model)
}

/// Builds the single-zone building of the options, together with the table
/// of what the simulation has to keep state for.
pub fn get_single_zone_test_building(options: &SingleZoneTestBuildingOptions) -> (r: Result<
    (Model, SimulationStateHeader),
    BuildError,
>)
    ensures
        r is Ok <==> build_fault(*options) is None,
        r matches Ok(built) ==> is_single_zone_model(built.0, *options, 0) && built.0.wf()
            && built.1.elements@ == elements_of(*options),
        r matches Err(e) ==> build_fault(*options) == Some(e),
        options.zone_volume <= 0 ==> r matches Err(BuildError::InvalidConfiguration(_)),
        options.surface_area <= 0 ==> r matches Err(BuildError::InvalidConfiguration(_)),
        options.window_area >= options.surface_area ==> r matches Err(
            BuildError::InvalidConfiguration(_),
        ),
        options.first_fault() is None && options.surface_area <= 1_000_000_000_000 ==> r is Ok,
        r matches Ok(built) ==> built.0.surfaces@[0].polygon@.area() + (if options.wants_window() {
            built.0.fenestrations@[0].polygon@.area()
        } else {
            0real
        }) == options.surface_area as real,
        r matches Ok(built) ==> (options.wants_window() ==> built.0.fenestrations@[0].polygon@.area()
            == options.window_area as real),
{
    let mut header = SimulationStateHeader::new();
    match assemble(options, &mut header) {
        Ok(model) => {
            proof {
                lemma_areas_add_up(model, *options, 0);
                assert(header.elements@ =~= elements_of(*options));
            }
            Ok((model, header))
        },
        Err(e) => Err(e),
    }
}

/// Builds the single-zone building of the options.
pub fn build_single_zone_test_model(options: &SingleZoneTestBuildingOptions) -> (r: Result<
    Model,
    BuildError,
>)
    ensures
        r is Ok <==> build_fault(*options) is None,
        r matches Ok(model) ==> is_single_zone_model(model, *options, 0) && model.wf(),
        r matches Err(e) ==> build_fault(*options) == Some(e),
        options.first_fault() is None && options.surface_area <= 1_000_000_000_000 ==> r is Ok,
{
    match get_single_zone_test_building(options) {
        Ok(built) => Ok(built.0),
        Err(e) => Err(e),
    }
}

} // verus!
