use single_zone_model::builder::{
    add_heater, add_luminaire, assemble, build_single_zone_test_model,
    get_single_zone_test_building,
};
use single_zone_model::error::{BuildError, ConfigFault, GeometryFault};
use single_zone_model::model::{
    Boundary, ConstructionHandle, FenestrationHandle, FenestrationPositions, FenestrationType,
    LoadHandle, LoadKind, MaterialHandle, Model, SimulationStateElement, SimulationStateHeader,
    Space, SpaceHandle, SubstanceHandle, SubstanceKind,
};
use single_zone_model::options::{
    SingleZoneTestBuildingOptions, TestMat, DEFAULT_EMISSIVITY, DEFAULT_LAYER_THICKNESS,
    UNSPECIFIED,
};
use single_zone_model::units::{from_units, MICRO};

fn options_with_window() -> SingleZoneTestBuildingOptions {
    let surface_area = 4 * MICRO;
    let window_area = 1 * MICRO;
    let zone_volume = 40 * MICRO;
    SingleZoneTestBuildingOptions {
        zone_volume,
        surface_area,
        window_area,
        construction_layers: vec![TestMat::Concrete(200_000)],
        ..Default::default()
    }
}

#[test]
fn test_with_window() {
    let surface_area = 4 * MICRO;
    let window_area = 1 * MICRO;
    let zone_volume = 40 * MICRO;

    let (_simple_model, _state_header) =
        get_single_zone_test_building(&SingleZoneTestBuildingOptions {
            zone_volume,
            surface_area,
            window_area,
            construction_layers: vec![TestMat::Concrete(200_000)],
            ..Default::default()
        })
        .unwrap();
}

#[test]
fn window_scenario_yields_one_of_each() {
    let (model, header) = get_single_zone_test_building(&options_with_window()).unwrap();
    assert_eq!(model.spaces.len(), 1);
    assert_eq!(model.spaces[0].volume, 40 * MICRO);
    assert_eq!(model.spaces[0].infiltration, None);
    assert_eq!(model.surfaces.len(), 1);
    assert_eq!(model.surfaces[0].polygon.area_units(), Some(3 * MICRO));
    assert_eq!(model.fenestrations.len(), 1);
    assert_eq!(model.fenestrations[0].polygon.area_units(), Some(1 * MICRO));
    assert_eq!(model.constructions.len(), 1);
    assert_eq!(model.surfaces[0].construction, ConstructionHandle(0));
    assert_eq!(model.fenestrations[0].construction, ConstructionHandle(0));
    assert_eq!(model.surfaces[0].front_boundary, Boundary::Space(SpaceHandle(0)));
    assert_eq!(model.fenestrations[0].front_boundary, Boundary::Space(SpaceHandle(0)));
    assert_eq!(model.surfaces[0].back_boundary, Boundary::Outdoor);
    assert_eq!(model.fenestrations[0].back_boundary, Boundary::Outdoor);
    assert_eq!(model.fenestrations[0].operation, FenestrationPositions::Binary);
    assert_eq!(model.fenestrations[0].category, FenestrationType::Window);
    assert_eq!(model.fenestrations[0].open_fraction_index, Some(0));
    assert_eq!(model.loads.len(), 0);
    assert_eq!(
        header.elements,
        vec![SimulationStateElement::FenestrationOpenFraction(FenestrationHandle(0))]
    );
}

#[test]
fn window_scenario_geometry_is_exact() {
    let (model, _) = get_single_zone_test_building(&options_with_window()).unwrap();
    let wall = &model.surfaces[0].polygon;
    let outer = wall.outer();
    assert!(outer.is_closed());
    assert_eq!(outer.scale_x(), 4000);
    assert_eq!(outer.scale_z(), 1);
    let points = outer.points();
    assert_eq!(points.len(), 4);
    assert_eq!((points[0].x, points[0].y, points[0].z), (-4_000_000, 0, 0));
    assert_eq!((points[1].x, points[1].y, points[1].z), (4_000_000, 0, 0));
    assert_eq!((points[2].x, points[2].y, points[2].z), (4_000_000, 0, 2000));
    assert_eq!((points[3].x, points[3].y, points[3].z), (-4_000_000, 0, 2000));
    let hole = wall.inner().unwrap();
    // Reduced: whole millimetres.
    assert_eq!(hole.scale_x(), 1);
    assert_eq!(hole.scale_z(), 1);
    let corners = hole.points();
    assert_eq!((corners[0].x, corners[0].z), (-625, 600));
    assert_eq!((corners[2].x, corners[2].z), (625, 1400));
    let pane = &model.fenestrations[0].polygon;
    assert!(pane.inner().is_none());
    assert_eq!(pane.outer().points(), hole.points());
    assert_eq!(pane.outer().scale_x(), hole.scale_x());
    assert_eq!(pane.outer().scale_z(), hole.scale_z());
}

fn metres(numerator: i64, scale: u64) -> f64 {
    numerator as f64 / scale as f64 / 1000.0
}

#[test]
fn window_scenario_in_metres() {
    let (model, _) = get_single_zone_test_building(&options_with_window()).unwrap();
    let wall = model.surfaces[0].polygon.outer();
    let (sx, sz) = (wall.scale_x(), wall.scale_z());
    let p = wall.points();
    assert_eq!(metres(p[0].x, sx), -1.0);
    assert_eq!(metres(p[1].x, sx), 1.0);
    assert_eq!(metres(p[0].z, sz), 0.0);
    assert_eq!(metres(p[2].z, sz), 2.0);
    // 5/8 of the width and 2/5 of the height of the wall, in its middle.
    let pane = model.fenestrations[0].polygon.outer();
    let (tx, tz) = (pane.scale_x(), pane.scale_z());
    let q = pane.points();
    assert_eq!(metres(q[0].x, tx), -0.625);
    assert_eq!(metres(q[1].x, tx), 0.625);
    assert_eq!(metres(q[0].z, tz), 0.6);
    assert_eq!(metres(q[2].z, tz), 1.4);
    let wall_area =
        (metres(p[1].x, sx) - metres(p[0].x, sx)) * (metres(p[2].z, sz) - metres(p[0].z, sz));
    let pane_area =
        (metres(q[1].x, tx) - metres(q[0].x, tx)) * (metres(q[2].z, tz) - metres(q[0].z, tz));
    assert!((wall_area - pane_area + pane_area - 4.0).abs() < 1e-9);
    assert!((pane_area - 1.0).abs() < 1e-9);
}

#[test]
fn areas_add_up_for_many_pairs() {
    let pairs: Vec<(i64, i64)> = vec![
        (4_000_000, 1_000_000),
        (3_000_000, 1),
        (7_654_321, 1_234_567),
        (10, 2),
        (1_000_000_000, 999_999_999),
        (1_000_000_000, 1),
        (2_000_000_000, 1_000_000_000),
        (2_000_000_000, 1_999_999_999),
        (3_000_000_000, 1),
        (1_000_000_000_000, 999_999_999_999),
        (1_000_000_000_000, 1),
        (5_000_000_000_000, 4_000_000_000_000),
        (4_000_000_000_000_000_000, 1_000_000_000_000_000_000),
        (12_345_678, 5_000_000),
        (2, 1),
        (4, 3),
        (8, 5),
        (4_000_000, 3_996_000),
        (4_000_000, 3_999_000),
        (4_000_000, 3_999_999),
    ];
    for (surface_area, window_area) in pairs {
        let options = SingleZoneTestBuildingOptions {
            zone_volume: MICRO,
            surface_area,
            window_area,
            ..Default::default()
        };
        let (model, _) = get_single_zone_test_building(&options).unwrap();
        let wall = model.surfaces[0].polygon.area_units().unwrap();
        let pane = model.fenestrations[0].polygon.area_units().unwrap();
        assert_eq!(pane, window_area);
        assert_eq!(wall + pane, surface_area);
    }
}

#[test]
fn areas_add_up_where_the_window_fits() {
    let options = SingleZoneTestBuildingOptions {
        zone_volume: MICRO,
        surface_area: 3_000_000,
        window_area: 750_000,
        ..Default::default()
    };
    let (model, _) = get_single_zone_test_building(&options).unwrap();
    assert_eq!(model.surfaces[0].polygon.area_units(), Some(2_250_000));
    assert_eq!(model.fenestrations[0].polygon.area_units(), Some(750_000));
}

#[test]
fn wall_without_window_has_the_whole_area() {
    let options = SingleZoneTestBuildingOptions {
        zone_volume: MICRO,
        surface_area: 3_000_000,
        construction_layers: vec![TestMat::Concrete(200_000)],
        ..Default::default()
    };
    let (model, header) = get_single_zone_test_building(&options).unwrap();
    assert_eq!(model.surfaces.len(), 1);
    assert!(model.surfaces[0].polygon.inner().is_none());
    assert_eq!(model.surfaces[0].polygon.area_units(), Some(3_000_000));
    assert_eq!(model.fenestrations.len(), 0);
    assert!(header.elements.is_empty());
    // 1732 mm high, 3_000_000 / 1732 mm wide.
    let outer = model.surfaces[0].polygon.outer();
    assert_eq!(outer.scale_x(), 2 * 1732);
    assert_eq!(outer.scale_z(), 1);
    assert_eq!(outer.points()[2].z, 1732);
    assert_eq!(outer.points()[1].x, 3_000_000);
}

#[test]
fn negative_window_area_means_no_window() {
    let options = SingleZoneTestBuildingOptions {
        zone_volume: MICRO,
        surface_area: 3_000_000,
        window_area: -5,
        ..Default::default()
    };
    let (model, _) = get_single_zone_test_building(&options).unwrap();
    assert_eq!(model.fenestrations.len(), 0);
}

#[test]
fn zone_volume_must_be_positive() {
    for zone_volume in [0, -1, UNSPECIFIED, i64::MIN] {
        let options = SingleZoneTestBuildingOptions { zone_volume, ..options_with_window() };
        assert_eq!(
            get_single_zone_test_building(&options).unwrap_err(),
            BuildError::InvalidConfiguration(ConfigFault::NonPositiveZoneVolume {
                value: zone_volume
            })
        );
    }
}

#[test]
fn surface_area_must_be_positive() {
    for surface_area in [0, -1, UNSPECIFIED, i64::MIN] {
        let options = SingleZoneTestBuildingOptions {
            surface_area,
            window_area: 0,
            ..options_with_window()
        };
        assert_eq!(
            get_single_zone_test_building(&options).unwrap_err(),
            BuildError::InvalidConfiguration(ConfigFault::NonPositiveSurfaceArea {
                value: surface_area
            })
        );
    }
}

#[test]
fn window_must_be_smaller_than_surface() {
    for window_area in [4 * MICRO, 4 * MICRO + 1, 5 * MICRO, i64::MAX] {
        let options = SingleZoneTestBuildingOptions { window_area, ..options_with_window() };
        assert_eq!(
            get_single_zone_test_building(&options).unwrap_err(),
            BuildError::InvalidConfiguration(ConfigFault::WindowNotSmallerThanSurface {
                window_area
            })
        );
    }
    let options = SingleZoneTestBuildingOptions {
        surface_area: -3,
        window_area: -2,
        ..options_with_window()
    };
    assert!(matches!(
        get_single_zone_test_building(&options),
        Err(BuildError::InvalidConfiguration(_))
    ));
}

#[test]
fn construction_must_have_a_layer() {
    let options = SingleZoneTestBuildingOptions {
        construction_layers: Vec::new(),
        ..options_with_window()
    };
    assert_eq!(
        get_single_zone_test_building(&options).unwrap_err(),
        BuildError::InvalidConfiguration(ConfigFault::EmptyConstruction)
    );
}

#[test]
fn first_fault_wins() {
    let options = SingleZoneTestBuildingOptions {
        zone_volume: 0,
        construction_layers: Vec::new(),
        surface_area: 0,
        window_area: 7,
        ..Default::default()
    };
    assert_eq!(
        options.validate(),
        Err(BuildError::InvalidConfiguration(ConfigFault::NonPositiveZoneVolume { value: 0 }))
    );
    let options = SingleZoneTestBuildingOptions { zone_volume: 1, ..options };
    assert_eq!(
        options.validate(),
        Err(BuildError::InvalidConfiguration(ConfigFault::EmptyConstruction))
    );
    let options = SingleZoneTestBuildingOptions {
        construction_layers: vec![TestMat::Concrete(1)],
        ..options
    };
    assert_eq!(
        options.validate(),
        Err(BuildError::InvalidConfiguration(ConfigFault::NonPositiveSurfaceArea { value: 0 }))
    );
    let options = SingleZoneTestBuildingOptions { surface_area: 7, ..options };
    assert_eq!(
        options.validate(),
        Err(BuildError::InvalidConfiguration(ConfigFault::WindowNotSmallerThanSurface {
            window_area: 7
        }))
    );
    let options = SingleZoneTestBuildingOptions { surface_area: 8, ..options };
    assert_eq!(options.validate(), Ok(()));
}

#[test]
fn unspecified_options_fail() {
    let options = SingleZoneTestBuildingOptions::default();
    assert_eq!(options.zone_volume, UNSPECIFIED);
    assert_eq!(options.surface_area, UNSPECIFIED);
    assert_eq!(options.zone_volume, -MICRO);
    assert_eq!(options.window_area, 0);
    assert_eq!(options.heating_power, 0);
    assert_eq!(options.lighting_power, 0);
    assert_eq!(options.infiltration_rate, 0);
    assert_eq!(options.emissivity, DEFAULT_EMISSIVITY);
    assert_eq!(options.emissivity, 840_000);
    assert_eq!(
        options.construction_layers,
        vec![TestMat::Polyurethane(DEFAULT_LAYER_THICKNESS)]
    );
    assert_eq!(DEFAULT_LAYER_THICKNESS, 20_000);
    assert!(matches!(
        get_single_zone_test_building(&options),
        Err(BuildError::InvalidConfiguration(ConfigFault::NonPositiveZoneVolume { .. }))
    ));
    let options = SingleZoneTestBuildingOptions { zone_volume: MICRO, ..options };
    assert!(matches!(
        get_single_zone_test_building(&options),
        Err(BuildError::InvalidConfiguration(ConfigFault::NonPositiveSurfaceArea { .. }))
    ));
}

#[test]
fn windows_nearly_as_large_as_the_wall_are_cut() {
    // 4 square metres of wall and 3.999 of window.
    let options = SingleZoneTestBuildingOptions {
        zone_volume: MICRO,
        surface_area: 4_000_000,
        window_area: 3_999_000,
        ..Default::default()
    };
    let (model, _) = get_single_zone_test_building(&options).unwrap();
    assert_eq!(model.surfaces[0].polygon.area_units(), Some(1_000));
    assert_eq!(model.fenestrations[0].polygon.area_units(), Some(3_999_000));
    let wall = model.surfaces[0].polygon.outer();
    let pane = model.fenestrations[0].polygon.outer();
    let left = |l: &single_zone_model::geometry::Loop| {
        l.points()[0].x as f64 / l.scale_x() as f64
    };
    let top = |l: &single_zone_model::geometry::Loop| l.points()[2].z as f64 / l.scale_z() as f64;
    assert!(left(wall) < left(pane));
    assert!(top(pane) < top(wall));
    // The smallest wall that can have a window.
    let options = SingleZoneTestBuildingOptions { surface_area: 2, window_area: 1, ..options };
    let (model, _) = get_single_zone_test_building(&options).unwrap();
    assert_eq!(model.surfaces[0].polygon.area_units(), Some(1));
    assert_eq!(model.fenestrations[0].polygon.area_units(), Some(1));
}

#[test]
fn large_walls_have_windows() {
    // 2000 square metres of wall and 1000 of window.
    let options = SingleZoneTestBuildingOptions {
        zone_volume: 40 * MICRO,
        surface_area: 2_000_000_000,
        window_area: 1_000_000_000,
        construction_layers: vec![TestMat::Concrete(200_000)],
        ..Default::default()
    };
    let (model, _) = get_single_zone_test_building(&options).unwrap();
    assert_eq!(model.surfaces[0].polygon.area_units(), Some(1_000_000_000));
    assert_eq!(model.fenestrations[0].polygon.area_units(), Some(1_000_000_000));
    let pane = model.fenestrations[0].polygon.outer();
    assert_eq!(pane.scale_x(), 14_907);
    assert_eq!(pane.scale_z(), 2);
    assert_eq!((pane.points()[0].x, pane.points()[0].z), (-250_000_000, 14_907));
    assert_eq!((pane.points()[2].x, pane.points()[2].z), (250_000_000, 74_535));
    // 3000 square metres of wall and one of window.
    let options = SingleZoneTestBuildingOptions {
        surface_area: 3_000_000_000,
        window_area: 1_000_000,
        ..options
    };
    let (model, _) = get_single_zone_test_building(&options).unwrap();
    assert_eq!(model.surfaces[0].polygon.area_units(), Some(2_999_000_000));
    assert_eq!(model.fenestrations[0].polygon.area_units(), Some(1_000_000));
    // A square kilometre of wall and almost as much of window.
    let options = SingleZoneTestBuildingOptions {
        surface_area: 1_000_000_000_000,
        window_area: 999_999_999_999,
        ..options
    };
    let (model, _) = get_single_zone_test_building(&options).unwrap();
    assert_eq!(model.surfaces[0].polygon.area_units(), Some(1));
    assert_eq!(model.fenestrations[0].polygon.area_units(), Some(999_999_999_999));
}

#[test]
fn windows_beyond_the_machine_are_a_geometry_error() {
    // A wall alone always fits.
    let options = SingleZoneTestBuildingOptions {
        zone_volume: MICRO,
        surface_area: i64::MAX,
        ..Default::default()
    };
    let (model, _) = get_single_zone_test_building(&options).unwrap();
    assert_eq!(model.surfaces[0].polygon.area_units(), Some(i64::MAX));
    // So does a window whose ends have a large common divisor.
    let options = SingleZoneTestBuildingOptions {
        surface_area: 4_000_000_000_000_000_000,
        window_area: 1_000_000_000_000_000_000,
        ..options
    };
    let (model, _) = get_single_zone_test_building(&options).unwrap();
    let pane = model.fenestrations[0].polygon.outer();
    assert_eq!((pane.scale_x(), pane.scale_z()), (1, 1));
    assert_eq!((pane.points()[0].x, pane.points()[0].z), (-625_000_000, 600_000_000));
    assert_eq!((pane.points()[2].x, pane.points()[2].z), (625_000_000, 1_400_000_000));
    // The lower end of this one is 3999999999999999997000000000 over
    // 4000000000000000003 in lowest terms.
    let options = SingleZoneTestBuildingOptions { window_area: 3, ..options };
    assert_eq!(
        get_single_zone_test_building(&options).unwrap_err(),
        BuildError::GeometryError(GeometryFault::Unrepresentable { area: 3 })
    );
    let options = SingleZoneTestBuildingOptions {
        surface_area: 5_249_980_066_121_302_517,
        window_area: 582_057_716_445_789_125,
        ..options
    };
    assert_eq!(
        get_single_zone_test_building(&options).unwrap_err(),
        BuildError::GeometryError(GeometryFault::Unrepresentable {
            area: 582_057_716_445_789_125
        })
    );
}

#[test]
fn heater_is_added_where_power_is_positive() {
    let options = SingleZoneTestBuildingOptions {
        heating_power: 1500 * MICRO,
        ..options_with_window()
    };
    let (model, header) = get_single_zone_test_building(&options).unwrap();
    assert_eq!(model.loads.len(), 1);
    assert_eq!(model.loads[0].kind, LoadKind::Heater);
    assert_eq!(model.loads[0].max_power, 1500 * MICRO);
    assert_eq!(model.loads[0].target_space, SpaceHandle(0));
    assert_eq!(model.loads[0].consumption_index, Some(1));
    assert_eq!(model.spaces.len(), 1);
    assert_eq!(
        header.elements,
        vec![
            SimulationStateElement::FenestrationOpenFraction(FenestrationHandle(0)),
            SimulationStateElement::LoadPowerConsumption(LoadHandle(0)),
        ]
    );
}

#[test]
fn no_heater_where_power_is_zero() {
    let options = SingleZoneTestBuildingOptions { heating_power: 0, ..options_with_window() };
    let (model, _) = get_single_zone_test_building(&options).unwrap();
    assert!(model.loads.iter().all(|load| load.kind != LoadKind::Heater));
    assert_eq!(model.loads.len(), 0);
    let options = SingleZoneTestBuildingOptions { heating_power: -7, ..options_with_window() };
    let (model, _) = get_single_zone_test_building(&options).unwrap();
    assert_eq!(model.loads.len(), 0);
}

#[test]
fn luminaire_follows_heater() {
    let options = SingleZoneTestBuildingOptions {
        window_area: 0,
        heating_power: 1500 * MICRO,
        lighting_power: 60 * MICRO,
        ..options_with_window()
    };
    let (model, header) = get_single_zone_test_building(&options).unwrap();
    assert_eq!(model.loads.len(), 2);
    assert_eq!(model.loads[0].kind, LoadKind::Heater);
    assert_eq!(model.loads[0].consumption_index, Some(0));
    assert_eq!(model.loads[1].kind, LoadKind::Luminaire);
    assert_eq!(model.loads[1].max_power, 60 * MICRO);
    assert_eq!(model.loads[1].target_space, SpaceHandle(0));
    assert_eq!(model.loads[1].consumption_index, Some(1));
    assert_eq!(
        header.elements,
        vec![
            SimulationStateElement::LoadPowerConsumption(LoadHandle(0)),
            SimulationStateElement::LoadPowerConsumption(LoadHandle(1)),
        ]
    );
}

#[test]
fn luminaire_alone() {
    let options = SingleZoneTestBuildingOptions {
        lighting_power: 60 * MICRO,
        ..options_with_window()
    };
    let (model, header) = get_single_zone_test_building(&options).unwrap();
    assert_eq!(model.loads.len(), 1);
    assert_eq!(model.loads[0].kind, LoadKind::Luminaire);
    assert_eq!(model.loads[0].max_power, 60 * MICRO);
    assert_eq!(model.loads[0].consumption_index, Some(1));
    assert_eq!(header.elements.len(), 2);
}

#[test]
fn infiltration_is_attached_where_rate_is_positive() {
    let options = SingleZoneTestBuildingOptions {
        infiltration_rate: 24_000,
        ..options_with_window()
    };
    let (model, _) = get_single_zone_test_building(&options).unwrap();
    assert_eq!(model.spaces[0].infiltration, Some(24_000));
    let options = SingleZoneTestBuildingOptions { infiltration_rate: 0, ..options_with_window() };
    let (model, _) = get_single_zone_test_building(&options).unwrap();
    assert_eq!(model.spaces[0].infiltration, None);
    let options = SingleZoneTestBuildingOptions { infiltration_rate: -1, ..options_with_window() };
    let (model, _) = get_single_zone_test_building(&options).unwrap();
    assert_eq!(model.spaces[0].infiltration, None);
}

#[test]
fn two_builds_hold_the_same_values() {
    let options = SingleZoneTestBuildingOptions {
        heating_power: 1500 * MICRO,
        lighting_power: 60 * MICRO,
        infiltration_rate: 24_000,
        construction_layers: vec![
            TestMat::Concrete(200_000),
            TestMat::Polyurethane(30_000),
            TestMat::Concrete(100_000),
        ],
        ..options_with_window()
    };
    let (mut first, first_header) = get_single_zone_test_building(&options).unwrap();
    let (second, second_header) = get_single_zone_test_building(&options).unwrap();
    assert_eq!(first.spaces[0].volume, second.spaces[0].volume);
    assert_eq!(first.spaces[0].infiltration, second.spaces[0].infiltration);
    assert_eq!(first.substances, second.substances);
    assert_eq!(first.materials.len(), second.materials.len());
    for (a, b) in first.materials.iter().zip(second.materials.iter()) {
        assert_eq!(a.name, b.name);
        assert_eq!(a.thickness, b.thickness);
        assert_eq!(a.substance, b.substance);
    }
    assert_eq!(first.constructions[0].materials, second.constructions[0].materials);
    assert_eq!(
        first.surfaces[0].polygon.area_units(),
        second.surfaces[0].polygon.area_units()
    );
    assert_eq!(
        first.surfaces[0].polygon.outer().points(),
        second.surfaces[0].polygon.outer().points()
    );
    assert_eq!(
        first.fenestrations[0].polygon.area_units(),
        second.fenestrations[0].polygon.area_units()
    );
    assert_eq!(first.loads.len(), second.loads.len());
    for (a, b) in first.loads.iter().zip(second.loads.iter()) {
        assert_eq!(a.kind, b.kind);
        assert_eq!(a.max_power, b.max_power);
        assert_eq!(a.target_space, b.target_space);
        assert_eq!(a.consumption_index, b.consumption_index);
    }
    assert_eq!(first_header.elements, second_header.elements);
    // Changing one of them leaves the other as it was.
    first.spaces[0].volume = 1;
    first.loads.clear();
    assert_eq!(second.spaces[0].volume, 40 * MICRO);
    assert_eq!(second.loads.len(), 2);
}

#[test]
fn layers_keep_their_order_and_share_substances() {
    let options = SingleZoneTestBuildingOptions {
        emissivity: 900_000,
        construction_layers: vec![
            TestMat::Polyurethane(30_000),
            TestMat::Concrete(200_000),
            TestMat::Polyurethane(20_000),
            TestMat::Concrete(100_000),
        ],
        ..options_with_window()
    };
    let model = build_single_zone_test_model(&options).unwrap();
    assert_eq!(model.substances.len(), 2);
    assert_eq!(model.substances[0].kind, SubstanceKind::Polyurethane);
    assert_eq!(model.substances[0].density, 17_500_000);
    assert_eq!(model.substances[0].specific_heat_capacity, 2400 * MICRO);
    assert_eq!(model.substances[0].thermal_conductivity, 25_200);
    assert_eq!(model.substances[0].thermal_absorbtance, 900_000);
    assert_eq!(model.substances[1].kind, SubstanceKind::Concrete);
    assert_eq!(model.substances[1].density, 1700 * MICRO);
    assert_eq!(model.substances[1].specific_heat_capacity, 800 * MICRO);
    assert_eq!(model.substances[1].thermal_conductivity, 816_000);
    assert_eq!(model.substances[1].thermal_absorbtance, 900_000);
    assert_eq!(model.materials.len(), 4);
    let names: Vec<&str> = model.materials.iter().map(|m| m.name.as_str()).collect();
    assert_eq!(names, vec!["Material 0", "Material 1", "Material 2", "Material 3"]);
    let thicknesses: Vec<i64> = model.materials.iter().map(|m| m.thickness).collect();
    assert_eq!(thicknesses, vec![30_000, 200_000, 20_000, 100_000]);
    let substances: Vec<SubstanceHandle> = model.materials.iter().map(|m| m.substance).collect();
    assert_eq!(
        substances,
        vec![SubstanceHandle(0), SubstanceHandle(1), SubstanceHandle(0), SubstanceHandle(1)]
    );
    assert_eq!(model.constructions.len(), 1);
    assert_eq!(
        model.constructions[0].materials,
        vec![MaterialHandle(0), MaterialHandle(1), MaterialHandle(2), MaterialHandle(3)]
    );
}

#[test]
fn default_construction_is_one_light_layer() {
    let options = SingleZoneTestBuildingOptions {
        zone_volume: 40 * MICRO,
        surface_area: 4 * MICRO,
        ..Default::default()
    };
    let model = build_single_zone_test_model(&options).unwrap();
    assert_eq!(model.substances.len(), 1);
    assert_eq!(model.substances[0].kind, SubstanceKind::Polyurethane);
    assert_eq!(model.substances[0].thermal_absorbtance, 840_000);
    assert_eq!(model.materials.len(), 1);
    assert_eq!(model.materials[0].thickness, 20_000);
    assert_eq!(model.materials[0].name, "Material 0");
}

#[test]
fn assemble_registers_after_what_is_there() {
    let mut header = SimulationStateHeader::new();
    header.push(SimulationStateElement::LoadPowerConsumption(LoadHandle(9)));
    let options = SingleZoneTestBuildingOptions {
        heating_power: 1500 * MICRO,
        ..options_with_window()
    };
    let model = assemble(&options, &mut header).unwrap();
    assert_eq!(model.fenestrations[0].open_fraction_index, Some(1));
    assert_eq!(model.loads[0].consumption_index, Some(2));
    assert_eq!(header.elements.len(), 3);
}

#[test]
fn assemble_registers_nothing_on_failure() {
    let mut header = SimulationStateHeader::new();
    let options = SingleZoneTestBuildingOptions {
        surface_area: 4_000_000_000_000_000_000,
        window_area: 3,
        heating_power: 1500 * MICRO,
        ..options_with_window()
    };
    assert_eq!(
        assemble(&options, &mut header).unwrap_err(),
        BuildError::GeometryError(GeometryFault::Unrepresentable { area: 3 })
    );
    assert!(header.elements.is_empty());
}

#[test]
fn loads_can_be_added_to_a_model_with_a_space() {
    let mut model = Model::new();
    let mut header = SimulationStateHeader::new();
    let space = model.add_space(Space { volume: 10 * MICRO, infiltration: None });
    assert_eq!(space, SpaceHandle(0));
    let options = SingleZoneTestBuildingOptions {
        heating_power: 2000 * MICRO,
        lighting_power: 100 * MICRO,
        ..Default::default()
    };
    assert_eq!(add_luminaire(&mut model, &options, &mut header), Ok(()));
    assert_eq!(add_heater(&mut model, &options, &mut header), Ok(()));
    assert_eq!(model.loads.len(), 2);
    assert_eq!(model.loads[0].kind, LoadKind::Luminaire);
    assert_eq!(model.loads[0].max_power, 100 * MICRO);
    assert_eq!(model.loads[0].consumption_index, Some(0));
    assert_eq!(model.loads[1].kind, LoadKind::Heater);
    assert_eq!(model.loads[1].max_power, 2000 * MICRO);
    assert_eq!(model.loads[1].target_space, SpaceHandle(0));
    assert_eq!(model.loads[1].consumption_index, Some(1));
    assert_eq!(
        header.elements,
        vec![
            SimulationStateElement::LoadPowerConsumption(LoadHandle(0)),
            SimulationStateElement::LoadPowerConsumption(LoadHandle(1)),
        ]
    );
}

#[test]
fn whole_units_convert_to_millionths() {
    assert_eq!(from_units(40), Some(40_000_000));
    assert_eq!(from_units(-1), Some(UNSPECIFIED));
    assert_eq!(from_units(0), Some(0));
    assert_eq!(from_units(9_223_372_036_854), Some(9_223_372_036_854_000_000));
    assert_eq!(from_units(9_223_372_036_855), None);
    assert_eq!(from_units(i64::MIN), None);
}

#[test]
fn loads_need_a_positive_power() {
    let mut model = Model::new();
    let mut header = SimulationStateHeader::new();
    model.add_space(Space { volume: 10 * MICRO, infiltration: None });
    for power in [0, -1, i64::MIN] {
        let options = SingleZoneTestBuildingOptions {
            heating_power: power,
            lighting_power: power,
            ..Default::default()
        };
        assert_eq!(
            add_heater(&mut model, &options, &mut header),
            Err(BuildError::InvalidConfiguration(ConfigFault::NonPositiveHeatingPower {
                value: power
            }))
        );
        assert_eq!(
            add_luminaire(&mut model, &options, &mut header),
            Err(BuildError::InvalidConfiguration(ConfigFault::NonPositiveLightingPower {
                value: power
            }))
        );
        assert!(model.loads.is_empty());
        assert!(header.elements.is_empty());
        assert_eq!(model.spaces.len(), 1);
    }
}

#[test]
fn loads_need_a_space() {
    let mut model = Model::new();
    let mut header = SimulationStateHeader::new();
    let options = SingleZoneTestBuildingOptions {
        heating_power: 1,
        lighting_power: 1,
        ..Default::default()
    };
    assert_eq!(
        add_heater(&mut model, &options, &mut header),
        Err(BuildError::InvalidConfiguration(ConfigFault::NoSpace))
    );
    assert_eq!(
        add_luminaire(&mut model, &options, &mut header),
        Err(BuildError::InvalidConfiguration(ConfigFault::NoSpace))
    );
    assert!(model.loads.is_empty());
    assert!(header.elements.is_empty());
    // The power is looked at first.
    let options = SingleZoneTestBuildingOptions { heating_power: 0, ..options };
    assert_eq!(
        add_heater(&mut model, &options, &mut header),
        Err(BuildError::InvalidConfiguration(ConfigFault::NonPositiveHeatingPower { value: 0 }))
    );
}
