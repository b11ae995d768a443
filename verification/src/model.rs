//! The entities of a building model and the table that holds them.
//!
//! Entities refer to each other by handle: the position of the entity in the
//! table of its kind. A handle stays valid for as long as the model lives,
//! because entities are only ever appended.

use vstd::prelude::*;
use crate::geometry::Polygon;

verus! {

/// The handle of a space.
#[derive(Clone, Copy, PartialEq, Eq, Structural, Debug)]
pub struct SpaceHandle(pub usize);

/// The handle of a substance.
#[derive(Clone, Copy, PartialEq, Eq, Structural, Debug)]
pub struct SubstanceHandle(pub usize);

/// The handle of a material.
#[derive(Clone, Copy, PartialEq, Eq, Structural, Debug)]
pub struct MaterialHandle(pub usize);

/// The handle of a construction.
#[derive(Clone, Copy, PartialEq, Eq, Structural, Debug)]
pub struct ConstructionHandle(pub usize);

/// The handle of a surface.
#[derive(Clone, Copy, PartialEq, Eq, Structural, Debug)]
pub struct SurfaceHandle(pub usize);

/// The handle of a fenestration.
#[derive(Clone, Copy, PartialEq, Eq, Structural, Debug)]
pub struct FenestrationHandle(pub usize);

/// The handle of a load.
#[derive(Clone, Copy, PartialEq, Eq, Structural, Debug)]
pub struct LoadHandle(pub usize);

/// A thermal zone.
#[derive(Clone, Copy, Debug)]
pub struct Space {
    /// The volume, in millionths of a cubic metre.
    pub volume: i64,
    /// The constant rate at which outside air leaks in, in millionths of a
    /// cubic metre per second, if any does.
    pub infiltration: Option<i64>,
}

/// The kinds of substance that a layer can be made of.
#[derive(Clone, Copy, PartialEq, Eq, Structural, Debug)]
pub enum SubstanceKind {
    Concrete,
    Polyurethane,
}

/// The bulk thermal properties of a kind of substance, in millionths of
/// their SI units.
#[derive(Clone, Copy, PartialEq, Eq, Structural, Debug)]
pub struct Substance {
    pub kind: SubstanceKind,
    pub density: i64,
    pub specific_heat_capacity: i64,
    pub thermal_conductivity: i64,
    pub thermal_absorbtance: i64,
}

/// A layer of a substance.
#[derive(Debug)]
pub struct Material {
    pub name: String,
    pub substance: SubstanceHandle,
    /// The thickness, in millionths of a metre.
    pub thickness: i64,
}

/// A stack of materials, from the outside to the inside.
#[derive(Debug)]
pub struct Construction {
    pub materials: Vec<MaterialHandle>,
}

/// What lies on one side of a surface or of a fenestration.
#[derive(Clone, Copy, PartialEq, Eq, Structural, Debug)]
pub enum Boundary {
    /// The outside air.
    Outdoor,
    /// A space of the model.
    Space(SpaceHandle),
}

/// An opaque planar element that bounds a space.
#[derive(Debug)]
pub struct Surface {
    pub polygon: Polygon,
    pub construction: ConstructionHandle,
    pub front_boundary: Boundary,
    pub back_boundary: Boundary,
}

/// The positions that a fenestration can take.
#[derive(Clone, Copy, PartialEq, Eq, Structural, Debug)]
pub enum FenestrationPositions {
    /// Always closed.
    FixedClosed,
    /// Always open.
    FixedOpen,
    /// Open to any fraction.
    Continuous,
    /// Either open or closed.
    Binary,
}

/// What a fenestration is.
#[derive(Clone, Copy, PartialEq, Eq, Structural, Debug)]
pub enum FenestrationType {
    Window,
    Door,
}

/// A pane that fills an opening cut into a surface.
#[derive(Debug)]
pub struct Fenestration {
    pub polygon: Polygon,
    pub construction: ConstructionHandle,
    pub operation: FenestrationPositions,
    pub category: FenestrationType,
    pub front_boundary: Boundary,
    pub back_boundary: Boundary,
    /// Where the simulation state keeps the open fraction, once the
    /// fenestration is part of a model and can be operated.
    pub open_fraction_index: Option<usize>,
}

/// The kinds of load.
#[derive(Clone, Copy, PartialEq, Eq, Structural, Debug)]
pub enum LoadKind {
    Heater,
    Luminaire,
}

/// A consumer of power that heats or lights a space.
#[derive(Clone, Copy, Debug)]
pub struct Load {
    pub kind: LoadKind,
    /// The largest power that the load can draw, in millionths of a watt.
    pub max_power: i64,
    pub target_space: SpaceHandle,
    /// Where the simulation state keeps the power that the load draws, once
    /// the load is part of a model.
    pub consumption_index: Option<usize>,
}

/// What an entry of the simulation state stands for.
#[derive(Clone, Copy, PartialEq, Eq, Structural, Debug)]
pub enum SimulationStateElement {
    /// The fraction to which a fenestration is open.
    FenestrationOpenFraction(FenestrationHandle),
    /// The power that a load draws.
    LoadPowerConsumption(LoadHandle),
}

/// The table of the entries that a simulation keeps state for, in the order
/// in which they were registered.
#[derive(Debug)]
pub struct SimulationStateHeader {
    pub elements: Vec<SimulationStateElement>,
}

impl SimulationStateHeader {
    /// A table without entries.
    pub fn new() -> (r: SimulationStateHeader)
        ensures
            r.elements@ == Seq::<SimulationStateElement>::empty(),
    {
        SimulationStateHeader { elements: Vec::new() }
    }

    /// Registers an entry and returns its position.
    pub fn push(&mut self, element: SimulationStateElement) -> (r: usize)
        ensures
            r == old(self).elements@.len(),
            final(self).elements@ == old(self).elements@.push(element),
    {
        let index = self.elements.len();
        self.elements.push(element);
        index
    }
}

impl FenestrationPositions {
    /// Whether a fenestration with these positions can be moved, so that
    /// the simulation has to keep its state.
    pub open spec fn is_operable(self) -> bool {
        self is Continuous || self is Binary
    }

    /// Whether a fenestration with these positions can be moved.
    pub fn operable(&self) -> (r: bool)
        ensures
            r == self.is_operable(),
    {
        match self {
            FenestrationPositions::Continuous => true,
            FenestrationPositions::Binary => true,
            _ => false,
        }
    }
}

/// The table of all entities of a building.
#[derive(Debug)]
pub struct Model {
    pub spaces: Vec<Space>,
    pub substances: Vec<Substance>,
    pub materials: Vec<Material>,
    pub constructions: Vec<Construction>,
    pub surfaces: Vec<Surface>,
    pub fenestrations: Vec<Fenestration>,
    pub loads: Vec<Load>,
}

impl Model {
    /// The boundary is the outside air or a space of this model.
    pub open spec fn resolves_boundary(&self, boundary: Boundary) -> bool {
        boundary matches Boundary::Space(space) ==> space.0 < self.spaces@.len()
    }

    /// The handle names a construction of this model that has a layer.
    pub open spec fn resolves_construction(&self, construction: ConstructionHandle) -> bool {
        &&& construction.0 < self.constructions@.len()
        &&& self.constructions@[construction.0 as int].materials@.len() > 0
    }

    /// The material refers to a substance of this model.
    pub open spec fn accepts_material(&self, material: Material) -> bool {
        material.substance.0 < self.substances@.len()
    }

    /// Every layer of the construction is a material of this model.
    pub open spec fn accepts_construction(&self, construction: Construction) -> bool {
        forall|j: int|
            0 <= j < construction.materials@.len() ==> (#[trigger] construction.materials@[j]).0
                < self.materials@.len()
    }

    /// The polygon of the surface is well-formed, and its construction and
    /// its boundaries are entities of this model.
    pub open spec fn accepts_surface(&self, surface: Surface) -> bool {
        &&& surface.polygon@.wf()
        &&& self.resolves_construction(surface.construction)
        &&& self.resolves_boundary(surface.front_boundary)
        &&& self.resolves_boundary(surface.back_boundary)
    }

    /// The polygon of the fenestration is well-formed and has no hole, and
    /// its construction and its boundaries are entities of this model.
    pub open spec fn accepts_fenestration(&self, fenestration: Fenestration) -> bool {
        &&& fenestration.polygon@.wf()
        &&& fenestration.polygon@.inner is None
        &&& self.resolves_construction(fenestration.construction)
        &&& self.resolves_boundary(fenestration.front_boundary)
        &&& self.resolves_boundary(fenestration.back_boundary)
    }

    /// The load targets a space of this model.
    pub open spec fn accepts_load(&self, load: Load) -> bool {
        load.target_space.0 < self.spaces@.len()
    }

    /// Every reference from one entity to another names an entity of this
    /// model, every construction that a surface or a fenestration uses has a
    /// layer, and every polygon is well-formed.
    pub open spec fn wf(&self) -> bool {
        &&& forall|i: int|
            0 <= i < self.materials@.len() ==> self.accepts_material(#[trigger] self.materials@[i])
        &&& forall|i: int|
            0 <= i < self.constructions@.len() ==> self.accepts_construction(
                #[trigger] self.constructions@[i],
            )
        &&& forall|i: int|
            0 <= i < self.surfaces@.len() ==> self.accepts_surface(#[trigger] self.surfaces@[i])
        &&& forall|i: int|
            0 <= i < self.fenestrations@.len() ==> self.accepts_fenestration(
                #[trigger] self.fenestrations@[i],
            )
        &&& forall|i: int|
            0 <= i < self.loads@.len() ==> self.accepts_load(#[trigger] self.loads@[i])
    }

    /// There is nothing in the model.
    pub open spec fn is_empty(&self) -> bool {
        &&& self.spaces@.len() == 0
        &&& self.substances@.len() == 0
        &&& self.materials@.len() == 0
        &&& self.constructions@.len() == 0
        &&& self.surfaces@.len() == 0
        &&& self.fenestrations@.len() == 0
        &&& self.loads@.len() == 0
    }

    /// A model without entities.
    pub fn new() -> (r: Model)
        ensures
            r.is_empty(),
            r.wf(),
    {
        Model {
            spaces: Vec::new(),
            substances: Vec::new(),
            materials: Vec::new(),
            constructions: Vec::new(),
            surfaces: Vec::new(),
            fenestrations: Vec::new(),
            loads: Vec::new(),
        }
    }

    /// Adds a space and returns its handle.
    pub fn add_space(&mut self, space: Space) -> (r: SpaceHandle)
        ensures
            r.0 == old(self).spaces@.len(),
            final(self).spaces@ == old(self).spaces@.push(space),
            *final(self) == (Model { spaces: final(self).spaces, ..*old(self) }),
            old(self).wf() ==> final(self).wf(),
    {
        let handle = SpaceHandle(self.spaces.len());
        self.spaces.push(space);
        handle
    }

    /// Adds a substance and returns its handle.
    pub fn add_substance(&mut self, substance: Substance) -> (r: SubstanceHandle)
        ensures
            r.0 == old(self).substances@.len(),
            final(self).substances@ == old(self).substances@.push(substance),
            *final(self) == (Model { substances: final(self).substances, ..*old(self) }),
            old(self).wf() ==> final(self).wf(),
    {
        let handle = SubstanceHandle(self.substances.len());
        self.substances.push(substance);
        handle
    }

    /// The handle of the first substance of the given kind, if the model has
    /// one.
    pub fn find_substance(&self, kind: SubstanceKind) -> (r: Option<SubstanceHandle>)
        ensures
            r == first_of_kind(self.substances@, kind),
    {
        let mut i: usize = 0;
        while i < self.substances.len()
            invariant
                i <= self.substances@.len(),
                forall|j: int| 0 <= j < i ==> (#[trigger] self.substances@[j]).kind != kind,
            decreases self.substances@.len() - i,
        {
            if self.substances[i].kind == kind {
                proof {
                    lemma_first_of_kind(self.substances@, kind, i as int);
                }
                return Some(SubstanceHandle(i));
            }
            i = i + 1;
        }
        proof {
            lemma_none_of_kind(self.substances@, kind);
        }
        None
    }

    /// Adds a material and returns its handle.
    pub fn add_material(&mut self, material: Material) -> (r: MaterialHandle)
        ensures
            r.0 == old(self).materials@.len(),
            final(self).materials@ == old(self).materials@.push(material),
            *final(self) == (Model { materials: final(self).materials, ..*old(self) }),
            old(self).wf() && old(self).accepts_material(material) ==> final(self).wf(),
    {
        let handle = MaterialHandle(self.materials.len());
        self.materials.push(material);
        handle
    }

    /// Adds a construction and returns its handle.
    pub fn add_construction(&mut self, construction: Construction) -> (r: ConstructionHandle)
        ensures
            r.0 == old(self).constructions@.len(),
            final(self).constructions@ == old(self).constructions@.push(construction),
            *final(self) == (Model { constructions: final(self).constructions, ..*old(self) }),
            old(self).wf() && old(self).accepts_construction(construction) ==> final(self).wf(),
    {
        let handle = ConstructionHandle(self.constructions.len());
        self.constructions.push(construction);
        handle
    }

    /// Adds a surface and returns its handle.
    pub fn add_surface(&mut self, surface: Surface) -> (r: SurfaceHandle)
        ensures
            r.0 == old(self).surfaces@.len(),
            final(self).surfaces@ == old(self).surfaces@.push(surface),
            *final(self) == (Model { surfaces: final(self).surfaces, ..*old(self) }),
            old(self).wf() && old(self).accepts_surface(surface) ==> final(self).wf(),
    {
        let handle = SurfaceHandle(self.surfaces.len());
        self.surfaces.push(surface);
        handle
    }

    /// Adds a fenestration and returns its handle. Where the fenestration
    /// can be moved, its open fraction is registered with the simulation
    /// state and the fenestration is told where.
    pub fn add_fenestration(
        &mut self,
        fenestration: Fenestration,
        header: &mut SimulationStateHeader,
    ) -> (r: FenestrationHandle)
        ensures
            r.0 == old(self).fenestrations@.len(),
            final(self).fenestrations@ == old(self).fenestrations@.push(
                registered_fenestration(fenestration, old(header).elements@.len()),
            ),
            *final(self) == (Model { fenestrations: final(self).fenestrations, ..*old(self) }),
            final(header).elements@ == if fenestration.operation.is_operable() {
                old(header).elements@.push(SimulationStateElement::FenestrationOpenFraction(r))
            } else {
                old(header).elements@
            },
            old(self).wf() && old(self).accepts_fenestration(fenestration) ==> final(self).wf(),
    {
        let handle = FenestrationHandle(self.fenestrations.len());
        let mut fenestration = fenestration;
        if fenestration.operation.operable() {
            let index = header.push(SimulationStateElement::FenestrationOpenFraction(handle));
            fenestration.open_fraction_index = Some(index);
        }
        self.fenestrations.push(fenestration);
        handle
    }

    /// Adds a load and returns its handle. The power that the load draws is
    /// registered with the simulation state and the load is told where.
    pub fn add_load(&mut self, load: Load, header: &mut SimulationStateHeader) -> (r: LoadHandle)
        ensures
            r.0 == old(self).loads@.len(),
            final(self).loads@ == old(self).loads@.push(
                Load { consumption_index: Some(old(header).elements@.len() as usize), ..load },
            ),
            *final(self) == (Model { loads: final(self).loads, ..*old(self) }),
            final(header).elements@ == old(header).elements@.push(
                SimulationStateElement::LoadPowerConsumption(r),
            ),
            old(self).wf() && old(self).accepts_load(load) ==> final(self).wf(),
    {
        let handle = LoadHandle(self.loads.len());
        let index = header.push(SimulationStateElement::LoadPowerConsumption(handle));
        let mut load = load;
        load.consumption_index = Some(index);
        self.loads.push(load);
        handle
    }
}

/// The fenestration as the model keeps it, once it has been told that the
/// next free entry of the simulation state is `next_index`.
pub open spec fn registered_fenestration(fenestration: Fenestration, next_index: nat) -> Fenestration {
    if fenestration.operation.is_operable() {
        Fenestration { open_fraction_index: Some(next_index as usize), ..fenestration }
    } else {
        fenestration
    }
}

/// The handle of the first substance of the given kind, if there is one.
pub open spec fn first_of_kind(substances: Seq<Substance>, kind: SubstanceKind) -> Option<
    SubstanceHandle,
> {
    if exists|i: int| is_first_of_kind(substances, kind, i) {
        Some(SubstanceHandle((choose|i: int| is_first_of_kind(substances, kind, i)) as usize))
    } else {
        None
    }
}

/// The substance at position `i` is of the given kind, and none before it is.
pub open spec fn is_first_of_kind(substances: Seq<Substance>, kind: SubstanceKind, i: int) -> bool {
    &&& 0 <= i < substances.len()
    &&& substances[i].kind == kind
    &&& forall|j: int| 0 <= j < i ==> (#[trigger] substances[j]).kind != kind
}

/// The first substance of a kind is the one at position `i` where that one
/// is of the kind and none before it is.
pub proof fn lemma_first_of_kind(substances: Seq<Substance>, kind: SubstanceKind, i: int)
    requires
        is_first_of_kind(substances, kind, i),
        i <= usize::MAX,
    ensures
        first_of_kind(substances, kind) == Some(SubstanceHandle(i as usize)),
{
    let c = choose|c: int| is_first_of_kind(substances, kind, c);
    if c < i {
        assert(substances[c].kind != kind);
    } else if i < c {
        assert(substances[i].kind != kind);
    }
}

/// There is no first substance of a kind where no substance is of the kind.
pub proof fn lemma_none_of_kind(substances: Seq<Substance>, kind: SubstanceKind)
    requires
        forall|j: int| 0 <= j < substances.len() ==> (#[trigger] substances[j]).kind != kind,
    ensures
        first_of_kind(substances, kind) is None,
{
    if exists|i: int| is_first_of_kind(substances, kind, i) {
        let c = choose|c: int| is_first_of_kind(substances, kind, c);
        assert(substances[c].kind != kind);
    }
}

} // verus!
