//! What holds of every single-zone building.

use vstd::prelude::*;
use crate::builder::{build_fault, is_single_zone_model, lemma_areas_add_up};
use crate::construction::{lemma_some_first_of_kind, resolved_substances, substance_of};
use crate::error::{BuildError, GeometryFault};
use crate::model::{
    first_of_kind,
    is_first_of_kind,
    Boundary,
    MaterialHandle,
    Model,
    SpaceHandle,
    Substance,
    SubstanceKind,
};
use crate::options::{SingleZoneTestBuildingOptions, TestMat};
use crate::wall::{
    raw_bottom,
    raw_left,
    raw_right,
    raw_scale_x,
    raw_scale_z,
    raw_top,
    reduced_fits,
    wall_loop,
    wall_outcome,
    window_is_representable,
    window_outcome,
    lemma_built_walls_are_computable,
    lemma_moderate_areas_are_representable,
    lemma_wall_has_its_area,
    lemma_window_conserves_area,
};

verus! {

/// For every wall of area `surface_area` and every smaller window of area
/// `window_area` that fits the machine integers, the wall is built, the
/// window is cut, and the area of the wall with its hole and the area of the
/// pane add up to `surface_area`, exactly.
pub proof fn lemma_wall_and_window_areas_add_up(surface_area: int, window_area: int)
    requires
        0 < window_area < surface_area <= i64::MAX,
        window_is_representable(wall_loop(surface_area), window_area),
    ensures
        wall_outcome(surface_area) is Ok,
        window_outcome(wall_outcome(surface_area).unwrap(), window_area) is Ok,
        ({
            let wall = wall_outcome(surface_area).unwrap();
            let (wall_with_hole, pane) = window_outcome(wall, window_area).unwrap();
            &&& wall_with_hole.wf()
            &&& pane.wf()
            &&& pane.area() == window_area as real
            &&& wall_with_hole.area() + pane.area() == surface_area as real
        }),
{
    lemma_wall_has_its_area(surface_area);
    lemma_window_conserves_area(wall_outcome(surface_area).unwrap(), window_area);
}

/// For a wall of up to a square kilometre, the wall is built and
/// every window that is smaller than the wall is cut.
pub proof fn lemma_moderate_areas_build(surface_area: int, window_area: int)
    requires
        0 < window_area < surface_area <= 1_000_000_000_000,
    ensures
        wall_outcome(surface_area) is Ok,
        window_outcome(wall_outcome(surface_area).unwrap(), window_area) is Ok,
{
    lemma_moderate_areas_are_representable(surface_area, window_area);
    lemma_wall_has_its_area(surface_area);
}

/// From options without a fault of the configuration whose surface area is
/// at most a square kilometre, the building is built.
pub proof fn lemma_moderate_options_build(options: SingleZoneTestBuildingOptions)
    requires
        options.first_fault() is None,
        options.surface_area <= 1_000_000_000_000,
    ensures
        build_fault(options) is None,
{
    lemma_wall_has_its_area(options.surface_area as int);
    if options.wants_window() {
        lemma_moderate_areas_build(options.surface_area as int, options.window_area as int);
    }
}

/// The only fault of the geometry that keeps a building from being built is
/// a window whose ends or scales, in lowest terms, do not fit the machine
/// integers.
pub proof fn lemma_only_machine_limits_refuse(options: SingleZoneTestBuildingOptions)
    requires
        options.first_fault() is None,
    ensures
        build_fault(options) is None <==> (options.wants_window() ==> reduced_fits(
            raw_left(wall_loop(options.surface_area as int), options.window_area as int),
            raw_right(wall_loop(options.surface_area as int), options.window_area as int),
            raw_scale_x(wall_loop(options.surface_area as int)),
        ) && reduced_fits(
            raw_bottom(wall_loop(options.surface_area as int), options.window_area as int),
            raw_top(wall_loop(options.surface_area as int), options.window_area as int),
            raw_scale_z(wall_loop(options.surface_area as int), options.window_area as int),
        )),
        build_fault(options) matches Some(e) ==> e == BuildError::GeometryError(
            GeometryFault::Unrepresentable { area: options.window_area },
        ),
{
    lemma_wall_has_its_area(options.surface_area as int);
    if options.wants_window() {
        lemma_built_walls_are_computable(
            options.surface_area as int,
            options.window_area as int,
        );
    }
}

/// A zone volume that is not positive is a fault of the configuration, and
/// so are a surface area that is not positive and a window that is not
/// smaller than the surface.
pub proof fn lemma_faulty_options_are_rejected(options: SingleZoneTestBuildingOptions)
    requires
        options.zone_volume <= 0 || options.surface_area <= 0 || options.window_area
            >= options.surface_area,
    ensures
        build_fault(options) matches Some(BuildError::InvalidConfiguration(_)),
{
}

/// Two buildings that are built from the same options hold the same values:
/// the same spaces, substances and loads, the same polygons, the same
/// layers in the same order, each with the same name, thickness and
/// substance.
pub proof fn lemma_build_is_deterministic(
    first: Model,
    second: Model,
    options: SingleZoneTestBuildingOptions,
    index: nat,
)
    requires
        is_single_zone_model(first, options, index),
        is_single_zone_model(second, options, index),
    ensures
        first.spaces@ == second.spaces@,
        first.substances@ == second.substances@,
        first.loads@ == second.loads@,
        first.materials@.len() == second.materials@.len(),
        forall|j: int|
            0 <= j < first.materials@.len() ==> (#[trigger] first.materials@[j]).name@
                == second.materials@[j].name@ && first.materials@[j].thickness
                == second.materials@[j].thickness && first.materials@[j].substance
                == second.materials@[j].substance,
        first.constructions@.len() == second.constructions@.len(),
        first.constructions@[0].materials@ == second.constructions@[0].materials@,
        first.surfaces@.len() == second.surfaces@.len(),
        first.surfaces@[0].polygon@ == second.surfaces@[0].polygon@,
        first.surfaces@[0].polygon@.area() == second.surfaces@[0].polygon@.area(),
        first.fenestrations@.len() == second.fenestrations@.len(),
        forall|i: int|
            0 <= i < first.fenestrations@.len() ==> (#[trigger] first.fenestrations@[i]).polygon@
                == second.fenestrations@[i].polygon@,
{
    let layers = options.construction_layers@;
    assert forall|j: int| 0 <= j < first.materials@.len() implies (
    #[trigger] first.materials@[j]).name@ == second.materials@[j].name@
        && first.materials@[j].thickness == second.materials@[j].thickness
        && first.materials@[j].substance == second.materials@[j].substance by {
        let layer = layers[j];
    }
}

/// No two of the substances have the same kind.
pub open spec fn kinds_are_distinct(substances: Seq<Substance>) -> bool {
    forall|i: int, j: int|
        0 <= i < j < substances.len() ==> (#[trigger] substances[i]).kind != (
        #[trigger] substances[j]).kind
}

/// Resolving layers against substances of distinct kinds leaves substances
/// of distinct kinds, among which there is one of the kind of each layer;
/// every substance that was appended is the substance of its kind; and at
/// most one substance is appended for each layer.
pub proof fn lemma_substances_are_shared(
    existing: Seq<Substance>,
    layers: Seq<TestMat>,
    emissivity: i64,
)
    requires
        kinds_are_distinct(existing),
    ensures
        kinds_are_distinct(resolved_substances(existing, layers, emissivity)),
        forall|j: int|
            0 <= j < layers.len() ==> first_of_kind(
                resolved_substances(existing, layers, emissivity),
                (#[trigger] layers[j]).kind(),
            ) is Some,
        existing.len() <= resolved_substances(existing, layers, emissivity).len() <= existing.len()
            + layers.len(),
        forall|i: int|
            existing.len() <= i < resolved_substances(existing, layers, emissivity).len() ==> (
            #[trigger] resolved_substances(existing, layers, emissivity)[i]) == substance_of(
                resolved_substances(existing, layers, emissivity)[i].kind,
                emissivity,
            ),
    decreases layers.len(),
{
    let after = resolved_substances(existing, layers, emissivity);
    if layers.len() > 0 {
        let earlier = layers.drop_last();
        let before = resolved_substances(existing, earlier, emissivity);
        let kind = layers.last().kind();
        lemma_substances_are_shared(existing, earlier, emissivity);
        if first_of_kind(before, kind) is None {
            let added = substance_of(kind, emissivity);
            assert forall|i: int| 0 <= i < before.len() implies (#[trigger] before[i]).kind
                != kind by {
                if before[i].kind == kind {
                    lemma_some_first_of_kind(before, kind, i);
                }
            }
            assert forall|i: int, j: int| 0 <= i < j < after.len() implies (
            #[trigger] after[i]).kind != (#[trigger] after[j]).kind by {
                if j < before.len() {
                    assert(after[i] == before[i]);
                    assert(after[j] == before[j]);
                } else {
                    assert(after[i] == before[i]);
                }
            }
            assert(after[before.len() as int].kind == kind);
        }
        assert forall|j: int| 0 <= j < layers.len() implies first_of_kind(
            after,
            (#[trigger] layers[j]).kind(),
        ) is Some by {
            if j < earlier.len() {
                assert(earlier[j] == layers[j]);
                let found = first_of_kind(before, earlier[j].kind());
                assert(found is Some);
                lemma_present_kind(before, earlier[j].kind());
                let at = choose|at: int|
                    0 <= at < before.len() && (#[trigger] before[at]).kind == earlier[j].kind();
                assert(after[at] == before[at]);
                lemma_some_first_of_kind(after, layers[j].kind(), at);
            } else {
                if first_of_kind(before, kind) is None {
                    lemma_some_first_of_kind(after, kind, before.len() as int);
                }
            }
        }
        assert forall|i: int| existing.len() <= i < after.len() implies (#[trigger] after[i])
            == substance_of(after[i].kind, emissivity) by {
            if i < before.len() {
                assert(after[i] == before[i]);
            }
        }
    }
}

/// Where there is a first substance of a kind, some substance is of that
/// kind.
pub proof fn lemma_present_kind(substances: Seq<Substance>, kind: SubstanceKind)
    requires
        first_of_kind(substances, kind) is Some,
    ensures
        exists|at: int| 0 <= at < substances.len() && (#[trigger] substances[at]).kind == kind,
{
    let c = choose|c: int| is_first_of_kind(substances, kind, c);
    assert(substances[c].kind == kind);
}

/// Every single-zone building is consistent. It is well-formed. It has
/// exactly one space, of positive volume, exactly one surface and at most
/// one fenestration, which use the same construction and have that space in
/// front of them; every load has a positive power and targets that space.
/// The construction has a layer for each layer of the options, in their
/// order, and each material lies in exactly one slot of it. The substance of
/// each material is the substance of the kind of its layer, and no two
/// substances have the same kind.
pub proof fn lemma_single_zone_model_is_consistent(
    model: Model,
    options: SingleZoneTestBuildingOptions,
    index: nat,
)
    requires
        options.first_fault() is None,
        is_single_zone_model(model, options, index),
    ensures
        model.wf(),
        model.spaces@.len() == 1,
        model.spaces@[0].volume > 0,
        model.surfaces@.len() == 1,
        model.fenestrations@.len() <= 1,
        model.surfaces@[0].front_boundary == Boundary::Space(SpaceHandle(0)),
        forall|i: int|
            0 <= i < model.fenestrations@.len() ==> (#[trigger] model.fenestrations@[i]).front_boundary
                == Boundary::Space(SpaceHandle(0)) && model.fenestrations@[i].construction
                == model.surfaces@[0].construction,
        forall|i: int|
            0 <= i < model.loads@.len() ==> (#[trigger] model.loads@[i]).target_space
                == SpaceHandle(0) && model.loads@[i].max_power > 0,
        model.constructions@.len() == 1,
        model.constructions@[0].materials@.len() == options.construction_layers@.len() > 0,
        forall|j: int|
            0 <= j < model.materials@.len() ==> (#[trigger] model.constructions@[0].materials@[j])
                == MaterialHandle(j as usize),
        forall|j: int|
            0 <= j < model.materials@.len() ==> model.materials@[j].substance.0
                < model.substances@.len() && (#[trigger] model.substances@[model.materials@[j].substance.0 as int])
                == substance_of(options.construction_layers@[j].kind(), options.emissivity),
        kinds_are_distinct(model.substances@),
{
    let layers = options.construction_layers@;
    let nothing = Seq::<Substance>::empty();
    lemma_areas_add_up(model, options, index);
    lemma_substances_are_shared(nothing, layers, options.emissivity);
    assert(model.substances.len() == model.substances@.len());
    assert forall|j: int| 0 <= j < model.materials@.len() implies model.materials@[j].substance.0
        < model.substances@.len() && (
    #[trigger] model.substances@[model.materials@[j].substance.0 as int]) == substance_of(
        layers[j].kind(),
        options.emissivity,
    ) by {
        let layer = layers[j];
        let kind = layer.kind();
        let c = choose|c: int| is_first_of_kind(model.substances@, kind, c);
        assert(model.materials@[j].substance.0 == c);
        assert(model.substances@[c] == substance_of(model.substances@[c].kind, options.emissivity));
    }
    assert forall|i: int| 0 <= i < model.materials@.len() implies model.accepts_material(
        #[trigger] model.materials@[i],
    ) by {
        let at = model.substances@[model.materials@[i].substance.0 as int];
    }
    assert(model.materials.len() == model.materials@.len());
    assert forall|i: int| 0 <= i < model.constructions@.len() implies model.accepts_construction(
        #[trigger] model.constructions@[i],
    ) by {
        assert(i == 0);
        assert forall|j: int| 0 <= j < model.constructions@[0].materials@.len() implies (
        #[trigger] model.constructions@[0].materials@[j]).0 < model.materials@.len() by {}
    }
}

} // verus!
