use single_zone_model::construction::{build_construction, make_substance};
use single_zone_model::error::{BuildError, ConfigFault};
use single_zone_model::geometry::{Loop, Polygon};
use single_zone_model::model::{
    Boundary, Construction, ConstructionHandle, Fenestration, FenestrationHandle,
    FenestrationPositions, FenestrationType, Load, LoadHandle, LoadKind, Material, MaterialHandle,
    Model, SimulationStateElement, SimulationStateHeader, Space, SpaceHandle, SubstanceHandle,
    SubstanceKind, Surface, SurfaceHandle,
};
use single_zone_model::options::TestMat;

fn square(side: i64) -> Polygon {
    Polygon::new(Loop::rectangle(1, 1, 0, side, 0, side).unwrap()).unwrap()
}

#[test]
fn a_new_model_is_empty() {
    let model = Model::new();
    assert!(model.spaces.is_empty());
    assert!(model.substances.is_empty());
    assert!(model.materials.is_empty());
    assert!(model.constructions.is_empty());
    assert!(model.surfaces.is_empty());
    assert!(model.fenestrations.is_empty());
    assert!(model.loads.is_empty());
    assert!(SimulationStateHeader::new().elements.is_empty());
}

#[test]
fn handles_count_from_zero() {
    let mut model = Model::new();
    let mut header = SimulationStateHeader::new();
    assert_eq!(model.add_space(Space { volume: 1, infiltration: None }), SpaceHandle(0));
    assert_eq!(model.add_space(Space { volume: 2, infiltration: Some(3) }), SpaceHandle(1));
    assert_eq!(model.spaces[1].volume, 2);
    assert_eq!(model.spaces[1].infiltration, Some(3));
    let concrete = model.add_substance(make_substance(SubstanceKind::Concrete, 5));
    assert_eq!(concrete, SubstanceHandle(0));
    let material = model.add_material(Material {
        name: "outer".to_string(),
        substance: concrete,
        thickness: 7,
    });
    assert_eq!(material, MaterialHandle(0));
    let construction = model.add_construction(Construction { materials: vec![material] });
    assert_eq!(construction, ConstructionHandle(0));
    let surface = model.add_surface(Surface {
        polygon: square(3),
        construction,
        front_boundary: Boundary::Space(SpaceHandle(1)),
        back_boundary: Boundary::Outdoor,
    });
    assert_eq!(surface, SurfaceHandle(0));
    assert_eq!(model.surfaces[0].polygon.area_units(), Some(9));
    let load = model.add_load(
        Load {
            kind: LoadKind::Luminaire,
            max_power: 11,
            target_space: SpaceHandle(1),
            consumption_index: None,
        },
        &mut header,
    );
    assert_eq!(load, LoadHandle(0));
    assert_eq!(model.loads[0].consumption_index, Some(0));
    assert_eq!(model.loads[0].max_power, 11);
    assert_eq!(header.elements, vec![SimulationStateElement::LoadPowerConsumption(LoadHandle(0))]);
    assert_eq!(model.spaces.len(), 2);
    assert_eq!(model.materials[0].name, "outer");
}

#[test]
fn only_operable_fenestrations_are_registered() {
    assert!(!FenestrationPositions::FixedClosed.operable());
    assert!(!FenestrationPositions::FixedOpen.operable());
    assert!(FenestrationPositions::Continuous.operable());
    assert!(FenestrationPositions::Binary.operable());
    let mut model = Model::new();
    let mut header = SimulationStateHeader::new();
    let window = |operation: FenestrationPositions| Fenestration {
        polygon: square(2),
        construction: ConstructionHandle(0),
        operation,
        category: FenestrationType::Door,
        front_boundary: Boundary::Outdoor,
        back_boundary: Boundary::Outdoor,
        open_fraction_index: None,
    };
    let fixed = model.add_fenestration(window(FenestrationPositions::FixedClosed), &mut header);
    assert_eq!(fixed, FenestrationHandle(0));
    assert_eq!(model.fenestrations[0].open_fraction_index, None);
    assert!(header.elements.is_empty());
    let open = model.add_fenestration(window(FenestrationPositions::FixedOpen), &mut header);
    assert_eq!(open, FenestrationHandle(1));
    assert!(header.elements.is_empty());
    let sliding = model.add_fenestration(window(FenestrationPositions::Continuous), &mut header);
    assert_eq!(sliding, FenestrationHandle(2));
    assert_eq!(model.fenestrations[2].open_fraction_index, Some(0));
    let binary = model.add_fenestration(window(FenestrationPositions::Binary), &mut header);
    assert_eq!(model.fenestrations[3].open_fraction_index, Some(1));
    assert_eq!(model.fenestrations[3].category, FenestrationType::Door);
    assert_eq!(
        header.elements,
        vec![
            SimulationStateElement::FenestrationOpenFraction(sliding),
            SimulationStateElement::FenestrationOpenFraction(binary),
        ]
    );
}

#[test]
fn substances_are_found_by_kind() {
    let mut model = Model::new();
    assert_eq!(model.find_substance(SubstanceKind::Concrete), None);
    model.add_substance(make_substance(SubstanceKind::Polyurethane, 1));
    assert_eq!(model.find_substance(SubstanceKind::Concrete), None);
    assert_eq!(model.find_substance(SubstanceKind::Polyurethane), Some(SubstanceHandle(0)));
    model.add_substance(make_substance(SubstanceKind::Concrete, 2));
    model.add_substance(make_substance(SubstanceKind::Concrete, 3));
    assert_eq!(model.find_substance(SubstanceKind::Concrete), Some(SubstanceHandle(1)));
    assert_eq!(model.find_substance(SubstanceKind::Polyurethane), Some(SubstanceHandle(0)));
}

#[test]
fn substances_have_fixed_properties() {
    let concrete = make_substance(SubstanceKind::Concrete, 840_000);
    assert_eq!(concrete.kind, SubstanceKind::Concrete);
    assert_eq!(concrete.density, 1_700_000_000);
    assert_eq!(concrete.specific_heat_capacity, 800_000_000);
    assert_eq!(concrete.thermal_conductivity, 816_000);
    assert_eq!(concrete.thermal_absorbtance, 840_000);
    let polyurethane = make_substance(SubstanceKind::Polyurethane, 0);
    assert_eq!(polyurethane.kind, SubstanceKind::Polyurethane);
    assert_eq!(polyurethane.density, 17_500_000);
    assert_eq!(polyurethane.specific_heat_capacity, 2_400_000_000);
    assert_eq!(polyurethane.thermal_conductivity, 25_200);
    assert_eq!(polyurethane.thermal_absorbtance, 0);
}

#[test]
fn layers_know_their_kind_and_thickness() {
    assert_eq!(TestMat::Concrete(5).substance_kind(), SubstanceKind::Concrete);
    assert_eq!(TestMat::Polyurethane(6).substance_kind(), SubstanceKind::Polyurethane);
    assert_eq!(TestMat::Concrete(5).layer_thickness(), 5);
    assert_eq!(TestMat::Polyurethane(-6).layer_thickness(), -6);
}

#[test]
fn a_construction_needs_a_layer() {
    let mut model = Model::new();
    model.add_substance(make_substance(SubstanceKind::Concrete, 1));
    assert_eq!(
        build_construction(&mut model, &Vec::new(), 840_000),
        Err(BuildError::InvalidConfiguration(ConfigFault::EmptyConstruction))
    );
    assert_eq!(model.substances.len(), 1);
    assert!(model.materials.is_empty());
    assert!(model.constructions.is_empty());
}

#[test]
fn a_construction_reuses_the_substances_of_the_model() {
    let mut model = Model::new();
    model.add_substance(make_substance(SubstanceKind::Concrete, 1));
    model.add_material(Material {
        name: "there before".to_string(),
        substance: SubstanceHandle(0),
        thickness: 9,
    });
    model.add_construction(Construction { materials: vec![MaterialHandle(0)] });
    let layers = vec![
        TestMat::Concrete(100),
        TestMat::Polyurethane(200),
        TestMat::Polyurethane(300),
    ];
    let handle = build_construction(&mut model, &layers, 840_000).unwrap();
    assert_eq!(handle, ConstructionHandle(1));
    // The concrete that was there is used as it is.
    assert_eq!(model.substances.len(), 2);
    assert_eq!(model.substances[0], make_substance(SubstanceKind::Concrete, 1));
    assert_eq!(model.substances[1], make_substance(SubstanceKind::Polyurethane, 840_000));
    assert_eq!(model.materials.len(), 4);
    assert_eq!(model.materials[0].name, "there before");
    assert_eq!(model.materials[1].name, "Material 0");
    assert_eq!(model.materials[1].substance, SubstanceHandle(0));
    assert_eq!(model.materials[1].thickness, 100);
    assert_eq!(model.materials[2].name, "Material 1");
    assert_eq!(model.materials[2].substance, SubstanceHandle(1));
    assert_eq!(model.materials[2].thickness, 200);
    assert_eq!(model.materials[3].name, "Material 2");
    assert_eq!(model.materials[3].substance, SubstanceHandle(1));
    assert_eq!(model.materials[3].thickness, 300);
    assert_eq!(model.constructions.len(), 2);
    assert_eq!(model.constructions[0].materials, vec![MaterialHandle(0)]);
    assert_eq!(
        model.constructions[1].materials,
        vec![MaterialHandle(1), MaterialHandle(2), MaterialHandle(3)]
    );
    // A second construction shares the substances of the first.
    let again = build_construction(&mut model, &layers, 500_000).unwrap();
    assert_eq!(again, ConstructionHandle(2));
    assert_eq!(model.substances.len(), 2);
    assert_eq!(model.materials.len(), 7);
    assert_eq!(model.materials[4].name, "Material 0");
}
