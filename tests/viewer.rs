use ssm::grid::{back_walls, build_wall_grid, wall_index, GridPoint, GridSize, Wall};
use ssm::pointer::{PointerAction, PointerEvent, PointerState, DOUBLE_CLICK_MICROS};

fn walls_seen_from(eye: [f32; 3], target: [f32; 3]) -> [Wall; 3] {
    back_walls(eye[0] < target[0], eye[1] < target[1], eye[2] < target[2])
}

#[test]
fn back_walls_select_non_camera_facing() {
    let target = [0.0_f32, 0.0, 0.0];

    // Camera on negative X, negative Y, positive Z side
    let walls = walls_seen_from([-1.0, -1.0, 1.0], target);
    assert!(matches!(walls[0], Wall::XMax));
    assert!(matches!(walls[1], Wall::YMax));
    assert!(matches!(walls[2], Wall::ZMin));

    // Camera on positive X, positive Y, negative Z side
    let walls = walls_seen_from([1.0, 1.0, -1.0], target);
    assert!(matches!(walls[0], Wall::XMin));
    assert!(matches!(walls[1], Wall::YMin));
    assert!(matches!(walls[2], Wall::ZMax));
}

#[test]
fn wall_indices_follow_wall_order() {
    let order = [Wall::XMin, Wall::XMax, Wall::YMin, Wall::YMax, Wall::ZMin, Wall::ZMax];
    for (i, w) in order.iter().enumerate() {
        assert_eq!(wall_index(*w), i);
    }
}

fn gp(x: u32, y: u32, z: u32) -> GridPoint {
    GridPoint { x, y, z }
}

#[test]
fn floor_grid_of_small_box() {
    let size = GridSize { x: 2, y: 1, z: 4 };
    let v = build_wall_grid(size, &[Wall::ZMin]);
    assert_eq!(
        v,
        vec![
            gp(0, 0, 0), gp(0, 1, 0),
            gp(1, 0, 0), gp(1, 1, 0),
            gp(2, 0, 0), gp(2, 1, 0),
            gp(0, 0, 0), gp(2, 0, 0),
            gp(0, 1, 0), gp(2, 1, 0),
        ]
    );
}

#[test]
fn high_x_wall_grid() {
    let size = GridSize { x: 3, y: 1, z: 1 };
    let v = build_wall_grid(size, &[Wall::XMax]);
    assert_eq!(
        v,
        vec![
            gp(3, 0, 0), gp(3, 0, 1),
            gp(3, 1, 0), gp(3, 1, 1),
            gp(3, 0, 0), gp(3, 1, 0),
            gp(3, 0, 1), gp(3, 1, 1),
        ]
    );
}

#[test]
fn wall_grids_are_concatenated_in_order() {
    let size = GridSize { x: 5, y: 5, z: 15 };
    let all = [Wall::XMin, Wall::XMax, Wall::YMin, Wall::YMax, Wall::ZMin, Wall::ZMax];
    let mut expected = Vec::new();
    for w in all {
        expected.extend(build_wall_grid(size, &[w]));
    }
    let v = build_wall_grid(size, &all);
    assert_eq!(v, expected);
    // X and Y walls: (5 + 1) + (15 + 1) lines; Z walls: (5 + 1) + (5 + 1) lines.
    assert_eq!(v.len(), 2 * (4 * 22 + 2 * 12));
    assert!(build_wall_grid(size, &[]).is_empty());
    let ymax = build_wall_grid(size, &[Wall::YMax]);
    assert!(ymax.iter().all(|p| p.y == 5));
    assert_eq!(ymax[1], gp(0, 5, 15));
}

#[test]
fn double_click_picks() {
    let mut s = PointerState::new();
    assert_eq!(s.handle(PointerEvent::CursorMoved), PointerAction::Nothing);
    assert_eq!(s.handle(PointerEvent::Press { now: 1_000_000 }), PointerAction::Nothing);
    assert_eq!(s.handle(PointerEvent::Release), PointerAction::Nothing);
    assert_eq!(s.handle(PointerEvent::CursorMoved), PointerAction::Nothing);
    assert_eq!(s.handle(PointerEvent::Press { now: 1_000_000 + DOUBLE_CLICK_MICROS - 1 }), PointerAction::Pick);
}

#[test]
fn slow_second_click_does_not_pick() {
    let mut s = PointerState::new();
    s.handle(PointerEvent::CursorMoved);
    s.handle(PointerEvent::Press { now: 0 });
    s.handle(PointerEvent::Release);
    s.handle(PointerEvent::CursorMoved);
    assert_eq!(s.handle(PointerEvent::Press { now: DOUBLE_CLICK_MICROS }), PointerAction::Nothing);
}

#[test]
fn double_click_without_cursor_does_not_pick() {
    let mut s = PointerState::new();
    s.handle(PointerEvent::Press { now: 10 });
    s.handle(PointerEvent::Release);
    assert_eq!(s.handle(PointerEvent::Press { now: 20 }), PointerAction::Nothing);
}

#[test]
fn drag_needs_button_and_a_previous_position() {
    let mut s = PointerState::new();
    assert_eq!(s.handle(PointerEvent::CursorMoved), PointerAction::Nothing);
    s.handle(PointerEvent::Press { now: 5 });
    assert!(s.dragging);
    assert_eq!(s.handle(PointerEvent::CursorMoved), PointerAction::Nothing);
    assert_eq!(s.handle(PointerEvent::CursorMoved), PointerAction::Drag);
    assert_eq!(s.handle(PointerEvent::CursorMoved), PointerAction::Drag);
    s.handle(PointerEvent::Release);
    assert_eq!(s.handle(PointerEvent::CursorMoved), PointerAction::Nothing);
}
