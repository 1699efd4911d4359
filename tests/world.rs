use ssm::connectors::{Connector, ConnectorFile, ConnectorType, Direction, Position};
use ssm::lattice::{Bounds, Cell, Lattice, Units};
use ssm::loader::{assemble_part, Part};
use ssm::part::{ConnectorsRef, LatticeRef, PartMeta};
use ssm::world::{PartInstanceId, PlacementError, World, WorldCell};

fn brick(id: &str, sx: i32, sy: i32, sz: i32) -> Part {
    let mut occupied = Vec::new();
    for z in 0..sz {
        for y in 0..sy {
            for x in 0..sx {
                occupied.push(Cell { x, y, z });
            }
        }
    }
    let mut connectors = Vec::new();
    for y in 0..sy {
        for x in 0..sx {
            connectors.push(Connector {
                kind: ConnectorType::Stud,
                pos: Position { x, y, z: sz },
                dir: Direction::PosZ,
            });
        }
    }
    let meta = PartMeta {
        id: id.to_string(),
        name: format!("Brick {} x {}", sx, sy),
        system: "lego".to_string(),
        lattice: LatticeRef {
            file: "lattice.json".to_string(),
            unit_xy: "stud".to_string(),
            unit_z: "plate".to_string(),
        },
        connectors: ConnectorsRef { file: "connectors.json".to_string() },
        visual: None,
    };
    let lattice = Lattice {
        units: Units { x: "stud".to_string(), y: "stud".to_string(), z: "plate".to_string() },
        bounds: Bounds { x: [0, sx - 1], y: [0, sy - 1], z: [0, sz - 1] },
        occupied,
    };
    match assemble_part(meta, lattice, ConnectorFile { connectors }) {
        Ok(p) => p,
        Err(_) => panic!("brick did not assemble"),
    }
}

fn origin() -> WorldCell {
    WorldCell { x: 0, y: 0, z: 0 }
}

#[test]
fn empty_world_has_no_occupancy() {
    let w = World::new();
    assert_eq!(w.occupancy_len(), 0);
}

#[test]
fn place_single_part() {
    let part = brick("lego:3001", 2, 4, 3);
    let mut world = World::new();

    let id = world.place_part(&part, WorldCell { x: 0, y: 0, z: 0 }).unwrap();

    assert_eq!(world.occupancy_len(), 24);
    assert_eq!(id.0, 1);
}

#[test]
fn overlapping_parts_fail() {
    let part = brick("lego:3001", 2, 4, 3);
    let mut world = World::new();

    world.place_part(&part, WorldCell { x: 0, y: 0, z: 0 }).unwrap();

    let err = world.place_part(&part, WorldCell { x: 0, y: 0, z: 0 }).unwrap_err();

    assert!(err.message().contains("occupied"));
}

#[test]
fn placed_cells_are_occupied_and_others_are_not() {
    let part = brick("lego:3003", 2, 2, 3);
    let mut world = World::new();
    let offset = WorldCell { x: 10, y: -5, z: 7 };
    world.place_part(&part, offset).unwrap();
    for c in &part.lattice.occupied {
        assert!(world.is_occupied(WorldCell { x: c.x + 10, y: c.y - 5, z: c.z + 7 }));
    }
    assert!(!world.is_occupied(WorldCell { x: 12, y: -5, z: 7 }));
    assert!(!world.is_occupied(WorldCell { x: 10, y: -5, z: 10 }));
    assert!(!world.is_occupied(WorldCell { x: 9, y: -5, z: 7 }));
    assert!(!world.is_occupied(origin()));
}

#[test]
fn failed_placement_changes_nothing() {
    let part = brick("lego:3001", 2, 4, 3);
    let mut world = World::new();
    world.place_part(&part, origin()).unwrap();
    // Shares one corner cell with the first placement.
    let err = world.place_part(&part, WorldCell { x: 1, y: 3, z: 2 }).unwrap_err();
    assert_eq!(err, PlacementError::OccupiedCell(WorldCell { x: 1, y: 3, z: 2 }));
    assert_eq!(world.occupancy_len(), 24);
    assert!(!world.is_occupied(WorldCell { x: 2, y: 4, z: 3 }));
    // The failure issued no identity.
    let id = world.place_part(&part, WorldCell { x: 0, y: 0, z: 3 }).unwrap();
    assert_eq!(id, PartInstanceId(2));
    assert_eq!(world.occupancy_len(), 48);
}

#[test]
fn conflict_reports_first_cell_in_lattice_order() {
    let part = brick("lego:3004", 2, 1, 3);
    let mut world = World::new();
    world.place_part(&part, WorldCell { x: 1, y: 0, z: 1 }).unwrap();
    // Cells in order (0,0,0), (1,0,0), (0,0,1), (1,0,1): the first taken is (1,0,1).
    let err = world.place_part(&part, origin()).unwrap_err();
    assert_eq!(err, PlacementError::OccupiedCell(WorldCell { x: 1, y: 0, z: 1 }));
}

#[test]
fn ids_follow_placement_order() {
    let a = brick("lego:3001", 2, 4, 3);
    let b = brick("lego:3003", 2, 2, 3);
    let mut world = World::new();
    let ia = world.place_part(&a, origin()).unwrap();
    let ib = world.place_part(&b, WorldCell { x: 100, y: 0, z: 0 }).unwrap();
    assert_eq!(ia, PartInstanceId(1));
    assert_eq!(ib, PartInstanceId(2));
    let ic = world.place_part(&b, WorldCell { x: -100, y: 0, z: 0 }).unwrap();
    assert_eq!(ic, PartInstanceId(3));
}

#[test]
fn two_by_two_by_six_part_fills_24_cells() {
    let part = brick("column", 2, 2, 6);
    assert_eq!(part.lattice.occupied.len(), 24);
    let mut world = World::new();
    let id = world.place_part(&part, origin()).unwrap();
    assert_eq!(id.0, 1);
    assert_eq!(world.occupancy_len(), 24);
    let err = world.place_part(&part, origin()).unwrap_err();
    assert!(err.message().contains("occupied"));
    assert_eq!(world.occupancy_len(), 24);
}

#[test]
fn occupied_message_names_the_cell() {
    let e = PlacementError::OccupiedCell(WorldCell { x: -12, y: 0, z: 305 });
    assert_eq!(e.message(), "cell already occupied: (-12, 0, 305)");
    let e = PlacementError::OccupiedCell(WorldCell { x: i32::MIN, y: i32::MAX, z: 9 });
    assert_eq!(e.message(), "cell already occupied: (-2147483648, 2147483647, 9)");
}

#[test]
fn world_cell_from_lattice_cell() {
    let w = WorldCell::from(Cell { x: 3, y: -4, z: 5 });
    assert_eq!(w, WorldCell { x: 3, y: -4, z: 5 });
}

#[test]
fn duplicate_cells_count_once() {
    let mut part = brick("dup", 1, 1, 1);
    part.lattice.occupied.push(Cell { x: 0, y: 0, z: 0 });
    let mut world = World::new();
    world.place_part(&part, origin()).unwrap();
    assert_eq!(world.occupancy_len(), 1);
}

#[test]
fn extreme_coordinates_are_distinct_cells() {
    let part = brick("unit", 1, 1, 1);
    let mut world = World::new();
    world.place_part(&part, WorldCell { x: i32::MIN, y: i32::MAX, z: i32::MIN }).unwrap();
    world.place_part(&part, WorldCell { x: i32::MAX, y: i32::MIN, z: i32::MAX }).unwrap();
    world.place_part(&part, WorldCell { x: -1, y: -1, z: -1 }).unwrap();
    assert_eq!(world.occupancy_len(), 3);
    assert!(world.is_occupied(WorldCell { x: i32::MIN, y: i32::MAX, z: i32::MIN }));
    assert!(!world.is_occupied(WorldCell { x: i32::MIN, y: i32::MIN, z: i32::MIN }));
}

#[test]
fn can_place_refuses_coordinates_past_i32() {
    let part = brick("lego:3003", 2, 2, 3);
    let world = World::new();
    assert!(world.can_place(&part, origin()));
    assert!(world.can_place(&part, WorldCell { x: i32::MAX - 1, y: i32::MAX - 1, z: i32::MAX - 2 }));
    assert!(!world.can_place(&part, WorldCell { x: i32::MAX, y: 0, z: 0 }));
    assert!(!world.can_place(&part, WorldCell { x: 0, y: 0, z: i32::MAX - 1 }));
    assert!(world.can_place(&part, WorldCell { x: i32::MIN, y: i32::MIN, z: i32::MIN }));
}
