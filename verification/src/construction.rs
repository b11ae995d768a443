//! The construction: a stack of materials over shared substances.

use vstd::prelude::*;
use crate::error::{BuildError, ConfigFault};
use crate::model::{
    Construction,
    ConstructionHandle,
    Material,
    MaterialHandle,
    Model,
    Substance,
    SubstanceHandle,
    SubstanceKind,
    first_of_kind,
    is_first_of_kind,
    lemma_first_of_kind,
};
use crate::naming::{layer_name, layer_name_text};
use crate::options::TestMat;

verus! {

/// The substance of the given kind. The emissivity is the thermal
/// absorbtance of the substance; its other properties are fixed.
pub open spec fn substance_of(kind: SubstanceKind, emissivity: i64) -> Substance {
    match kind {
        SubstanceKind::Concrete => Substance {
            kind,
            density: 1_700_000_000,
            specific_heat_capacity: 800_000_000,
            thermal_conductivity: 816_000,
            thermal_absorbtance: emissivity,
        },
        SubstanceKind::Polyurethane => Substance {
            kind,
            density: 17_500_000,
            specific_heat_capacity: 2_400_000_000,
            thermal_conductivity: 25_200,
            thermal_absorbtance: emissivity,
        },
    }
}

/// Makes the substance of the given kind.
pub fn make_substance(kind: SubstanceKind, emissivity: i64) -> (r: Substance)
    ensures
        r == substance_of(kind, emissivity),
{
    match kind {
        SubstanceKind::Concrete => Substance {
            kind,
            density: 1_700_000_000,
            specific_heat_capacity: 800_000_000,
            thermal_conductivity: 816_000,
            thermal_absorbtance: emissivity,
        },
        SubstanceKind::Polyurethane => Substance {
            kind,
            density: 17_500_000,
            specific_heat_capacity: 2_400_000_000,
            thermal_conductivity: 25_200,
            thermal_absorbtance: emissivity,
        },
    }
}

/// The substances of a model once the given layers have been resolved
/// against it: layer by layer, a substance is appended where the model has
/// none of the kind of the layer yet.
pub open spec fn resolved_substances(
    existing: Seq<Substance>,
    layers: Seq<TestMat>,
    emissivity: i64,
) -> Seq<Substance>
    decreases layers.len(),
{
    if layers.len() == 0 {
        existing
    } else {
        let before = resolved_substances(existing, layers.drop_last(), emissivity);
        if first_of_kind(before, layers.last().kind()) is Some {
            before
        } else {
            before.push(substance_of(layers.last().kind(), emissivity))
        }
    }
}

/// The material stands for the layer at position `index`: it has the name
/// of that position and the thickness of the layer, and its substance is
/// the first of the kind of the layer among `substances`.
pub open spec fn is_layer_material(
    material: Material,
    substances: Seq<Substance>,
    layer: TestMat,
    index: int,
) -> bool {
    &&& material.name@ == layer_name_text(index as nat)
    &&& material.thickness == layer.thickness()
    &&& first_of_kind(substances, layer.kind()) == Some(material.substance)
}

/// The handles of `count` materials that follow each other from `first` on.
pub open spec fn consecutive_materials(first: int, count: int) -> Seq<MaterialHandle> {
    Seq::new(count as nat, |j: int| MaterialHandle((first + j) as usize))
}

/// `after` is `before` with the construction made of `layers` added to it
/// under `handle`: one new material for each layer, in the order of the
/// layers, over substances that are shared by kind.
pub open spec fn adds_construction(
    before: Model,
    after: Model,
    layers: Seq<TestMat>,
    emissivity: i64,
    handle: ConstructionHandle,
) -> bool {
    &&& after.spaces == before.spaces
    &&& after.surfaces == before.surfaces
    &&& after.fenestrations == before.fenestrations
    &&& after.loads == before.loads
    &&& after.substances@ == resolved_substances(before.substances@, layers, emissivity)
    &&& after.materials@.len() == before.materials@.len() + layers.len()
    &&& after.materials@.take(before.materials@.len() as int) == before.materials@
    &&& forall|j: int|
        0 <= j < layers.len() ==> is_layer_material(
            after.materials@[before.materials@.len() + j],
            after.substances@,
            #[trigger] layers[j],
            j,
        )
    &&& handle.0 == before.constructions@.len()
    &&& after.constructions@.len() == before.constructions@.len() + 1
    &&& after.constructions@.take(before.constructions@.len() as int) == before.constructions@
    &&& after.constructions@[handle.0 as int].materials@ == consecutive_materials(
        before.materials@.len() as int,
        layers.len() as int,
    )
}

/// The first substance of a kind stays the first when a substance is
/// appended.
pub proof fn lemma_first_of_kind_survives_push(
    substances: Seq<Substance>,
    kind: SubstanceKind,
    handle: SubstanceHandle,
    added: Substance,
)
    requires
        first_of_kind(substances, kind) == Some(handle),
        substances.len() < usize::MAX,
    ensures
        first_of_kind(substances.push(added), kind) == Some(handle),
{
    let i = choose|i: int| is_first_of_kind(substances, kind, i);
    let longer = substances.push(added);
    assert(is_first_of_kind(longer, kind, i)) by {
        assert(longer[i] == substances[i]);
        assert forall|j: int| 0 <= j < i implies (#[trigger] longer[j]).kind != kind by {
            assert(longer[j] == substances[j]);
        }
    }
    lemma_first_of_kind(longer, kind, i);
}

/// A substance that is appended where there is none of its kind is the
/// first of its kind.
pub proof fn lemma_pushed_is_first_of_kind(substances: Seq<Substance>, added: Substance)
    requires
        first_of_kind(substances, added.kind) is None,
        substances.len() < usize::MAX,
    ensures
        first_of_kind(substances.push(added), added.kind) == Some(
            SubstanceHandle(substances.len() as usize),
        ),
{
    let longer = substances.push(added);
    let i = substances.len() as int;
    assert forall|j: int| 0 <= j < i implies (#[trigger] longer[j]).kind != added.kind by {
        assert(longer[j] == substances[j]);
        if substances[j].kind == added.kind {
            lemma_some_first_of_kind(substances, added.kind, j);
        }
    }
    assert(is_first_of_kind(longer, added.kind, i));
    lemma_first_of_kind(longer, added.kind, i);
}

/// Where some substance is of a kind, there is a first of that kind.
pub proof fn lemma_some_first_of_kind(substances: Seq<Substance>, kind: SubstanceKind, at: int)
    requires
        0 <= at < substances.len(),
        substances[at].kind == kind,
    ensures
        first_of_kind(substances, kind) is Some,
    decreases at,
{
    if forall|j: int| 0 <= j < at ==> (#[trigger] substances[j]).kind != kind {
        assert(is_first_of_kind(substances, kind, at));
    } else {
        let j = choose|j: int| 0 <= j < at && (#[trigger] substances[j]).kind == kind;
        lemma_some_first_of_kind(substances, kind, j);
    }
}

/// Builds the construction made of the given layers, from the outside to
/// the inside, and adds it to the model with its materials and with the
/// substances that the model does not have yet.
pub fn build_construction(
    model: &mut Model,
    layer_specs: &Vec<TestMat>,
    emissivity: i64,
) -> (r: Result<ConstructionHandle, BuildError>)
    ensures
        r is Ok <==> layer_specs@.len() > 0,
        r matches Ok(handle) ==> adds_construction(
            *old(model),
            *final(model),
            layer_specs@,
            emissivity,
            handle,
        ),
        r matches Ok(handle) ==> (old(model).wf() ==> final(model).wf()
            && final(model).resolves_construction(handle)),
        r matches Err(e) ==> e == BuildError::InvalidConfiguration(ConfigFault::EmptyConstruction)
            && *final(model) == *old(model),
{
    if layer_specs.len() == 0 {
        return Err(BuildError::InvalidConfiguration(ConfigFault::EmptyConstruction));
    }
    let ghost before = *model;
    let first_material = model.materials.len();
    let mut construction = Construction { materials: Vec::new() };
    let mut i: usize = 0;
    proof {
        assert(layer_specs@.take(0) =~= Seq::<TestMat>::empty());
        assert(model.materials@.take(first_material as int) =~= before.materials@);
    }
    while i < layer_specs.len()
        invariant
            i <= layer_specs@.len(),
            first_material == before.materials@.len(),
            model.spaces == before.spaces,
            model.surfaces == before.surfaces,
            model.fenestrations == before.fenestrations,
            model.loads == before.loads,
            model.constructions == before.constructions,
            model.substances@ == resolved_substances(
                before.substances@,
                layer_specs@.take(i as int),
                emissivity,
            ),
            model.materials@.len() == first_material + i,
            model.materials@.take(first_material as int) == before.materials@,
            forall|j: int|
                0 <= j < i ==> is_layer_material(
                    model.materials@[first_material + j],
                    model.substances@,
                    #[trigger] layer_specs@[j],
                    j,
                ),
            construction.materials@ == consecutive_materials(first_material as int, i as int),
            before.wf() ==> model.wf(),
        decreases layer_specs@.len() - i,
    {
        let layer = layer_specs[i];
        let kind = layer.substance_kind();
        let ghost substances_before = model.substances@;
        let ghost materials_before = model.materials@;
        let found = model.find_substance(kind);
        let substance = match found {
            Some(handle) => handle,
            None => {
                let handle = model.add_substance(make_substance(kind, emissivity));
                proof {
                    assert(substances_before.len() + 1 == model.substances.len());
                    lemma_pushed_is_first_of_kind(substances_before, substance_of(kind, emissivity));
                    assert forall|j: int| 0 <= j < i implies is_layer_material(
                        model.materials@[first_material + j],
                        model.substances@,
                        #[trigger] layer_specs@[j],
                        j,
                    ) by {
                        lemma_first_of_kind_survives_push(
                            substances_before,
                            layer_specs@[j].kind(),
                            materials_before[first_material + j].substance,
                            substance_of(kind, emissivity),
                        );
                    }
                }
                handle
            },
        };
        proof {
            assert(layer_specs@.take(i as int + 1).drop_last() =~= layer_specs@.take(i as int));
            assert(layer_specs@.take(i as int + 1).last() == layer);
            assert(first_of_kind(model.substances@, kind) == Some(substance));
            let c = choose|c: int| is_first_of_kind(model.substances@, kind, c);
            assert(substance.0 < model.substances@.len());
        }
        let material = Material {
            name: layer_name(i),
            substance,
            thickness: layer.layer_thickness(),
        };
        let ghost materials_mid = model.materials@;
        let handle = model.add_material(material);
        construction.materials.push(handle);
        proof {
            assert(model.materials@.take(first_material as int) =~= materials_mid.take(
                first_material as int,
            ));
            assert forall|j: int| 0 <= j < i + 1 implies is_layer_material(
                model.materials@[first_material + j],
                model.substances@,
                #[trigger] layer_specs@[j],
                j,
            ) by {
                if j < i {
                    assert(model.materials@[first_material + j] == materials_mid[first_material
                        + j]);
                }
            }
            assert(construction.materials@ =~= consecutive_materials(
                first_material as int,
                i as int + 1,
            ));
        }
        i = i + 1;
    }
    proof {
        assert(layer_specs@.take(i as int) =~= layer_specs@);
        assert(model.accepts_construction(construction)) by {
            assert forall|j: int| 0 <= j < construction.materials@.len() implies (
            #[trigger] construction.materials@[j]).0 < model.materials@.len() by {}
        }
    }
    let ghost constructions_before = model.constructions@;
    let handle = model.add_construction(construction);
    proof {
        assert(model.constructions@.take(constructions_before.len() as int)
            =~= constructions_before);
    }
    Ok(handle)
}

} // verus!
