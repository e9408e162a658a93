//! City generation: reproducibility for a fixed seed, non-overlap,
//! door handling, and road validity.
use world_gen::city_generation::Building;
use world_gen::city_generation::CityGenerator;
use world_gen::concrete_cell::BuildingElement;

fn generated_city(seed: u64) -> CityGenerator {
    let mut city = CityGenerator::new(seed, 10, 30, 10, 30, 20, 100, 1000).unwrap();
    city.generate(20, 3, 5).unwrap();
    city
}

#[test]
fn test_different_seeds() {
    let seed = 1;
    let mut city_gen1 = CityGenerator::new(seed, 10, 30, 10, 30, 20, 100, 1000).unwrap();
    let mut city_gen2 = CityGenerator::new(seed, 10, 30, 10, 30, 20, 100, 1000).unwrap();
    city_gen1.generate(100, 6, 10).unwrap();
    city_gen2.generate(100, 6, 10).unwrap();

    assert_eq!(city_gen1.min_x, city_gen2.min_x);
    assert_eq!(city_gen1.min_y, city_gen2.min_y);
    assert_eq!(city_gen1.max_x, city_gen2.max_x);
    assert_eq!(city_gen1.max_y, city_gen2.max_y);
    assert_eq!(city_gen1.buildings, city_gen2.buildings);
}

fn footprints_with_clearance_overlap(a: &Building, b: &Building, off: i64) -> bool {
    a.x - off < b.x + b.width
        && a.x + a.width + off > b.x
        && a.y - off < b.y + b.height
        && a.y + a.height + off > b.y
}

#[test]
fn no_two_buildings_overlap() {
    let city = generated_city(7);
    let n = city.buildings.len();
    assert_eq!(n, 23);
    for i in 0..n {
        for j in 0..n {
            if i != j {
                assert!(
                    !footprints_with_clearance_overlap(
                        &city.buildings[i],
                        &city.buildings[j],
                        3
                    ),
                    "buildings {i} and {j} overlap"
                );
            }
        }
    }
}

#[test]
fn doors_are_never_walled_over() {
    let city = generated_city(11);
    for b in &city.buildings {
        match city.is_something.get(b.door.0, b.door.1) {
            None | Some(BuildingElement::Road) => (),
            Some(other) => panic!("door of building {} is marked {:?}", b.id, other),
        }
    }
}

#[test]
fn roads_stay_in_bounds_and_start_at_a_door() {
    let city = generated_city(13);
    let mut non_empty = 0;
    for road in &city.roads {
        if road.is_empty() {
            continue;
        }
        non_empty += 1;
        let start = road[0];
        assert!(
            city.buildings.iter().any(|b| b.door == start),
            "road starts at {start:?}, which is no door"
        );
        for &(x, y) in road {
            assert!(city.min_x <= x && x < city.max_x, "road cell {x},{y} out of bounds");
            assert!(city.min_y <= y && y < city.max_y, "road cell {x},{y} out of bounds");
        }
        for w in road.windows(2) {
            let dx = (w[1].0 - w[0].0).abs();
            let dy = (w[1].1 - w[0].1).abs();
            assert_eq!(dx + dy, 1, "road step is not a unit axis step");
        }
    }
    assert!(non_empty > 0);
}

#[test]
fn road_cells_are_marked_in_the_occupancy_map() {
    let city = generated_city(17);
    for road in &city.roads {
        for &(x, y) in road {
            match city.is_something.get(x, y) {
                Some(_) => (),
                None => panic!("road cell {x},{y} is not marked"),
            }
        }
    }
}

#[test]
fn buildings_get_unique_ids_and_door_on_outline() {
    let city = generated_city(19);
    for (i, b) in city.buildings.iter().enumerate() {
        assert_eq!(b.id, i);
        let on_horizontal = (b.door.1 == b.y || b.door.1 == b.y + b.height)
            && b.door.0 >= b.x
            && b.door.0 <= b.x + b.width;
        let on_vertical = (b.door.0 == b.x || b.door.0 == b.x + b.width)
            && b.door.1 >= b.y
            && b.door.1 <= b.y + b.height;
        assert!(on_horizontal || on_vertical);
    }
}

#[test]
fn important_buildings_come_first_and_are_flagged() {
    let city = generated_city(23);
    for (i, b) in city.buildings.iter().enumerate() {
        assert_eq!(b.is_important, i < 3);
    }
    assert_eq!(city.important_buildings.len(), 3);
    // One road per ordered pair of important buildings, one more per
    // regular building.
    assert_eq!(city.roads.len(), 3 * 2 + 20);
}

#[test]
fn reports_exhaustion_when_nothing_fits() {
    // A spread of two cells cannot hold two buildings that are ten to
    // thirty cells wide with their clearance, so placement must give
    // up instead of looping forever.
    let mut city = CityGenerator::new(1, 10, 30, 10, 30, 20, 100, 2).unwrap();
    assert_eq!(
        city.generate(0, 2, 1),
        Err(world_gen::WorldGenError::PlacementExhausted)
    );
}

#[test]
fn rejects_empty_configuration_ranges() {
    assert!(CityGenerator::new(1, 30, 10, 10, 30, 20, 100, 1000).is_err());
    assert!(CityGenerator::new(1, 10, 30, 0, 30, 20, 100, 1000).is_err());
    assert!(CityGenerator::new(1, 10, 30, 10, 30, 100, 20, 1000).is_err());
    assert!(CityGenerator::new(1, 10, 30, 10, 30, 20, 100, 1).is_err());
    assert!(CityGenerator::new(1, 10, 30, 10, 30, 20, 100, 1000).is_ok());
}
