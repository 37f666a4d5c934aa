use pts::geometry::{snap_edge_to_grid, Direction, Pos, Rect};
use pts::persistence::{load_points, Point, PointShape};
use pts::selection::Selection;
use pts::state::{AppState, InteractionMode, PendingMode};

fn pt(id: u64, x: i32, y: i32, shape: PointShape) -> Point {
    Point { id, x, y, shape, rotation: 0 }
}

fn indices(state: &AppState) -> Vec<usize> {
    state.selected_indices()
}

#[test]
fn move_then_clone_in_place() {
    let mut state = AppState::new(vec![pt(1, 100, 100, PointShape::Circle)]);
    state.select_single(0);
    state.move_selected(5, 0);
    assert_eq!(state.points[0].x, 105);
    assert_eq!(state.points[0].y, 100);
    state.clone_selected(0, 0);
    assert_eq!(state.points.len(), 2);
    assert_eq!(state.points[1].id, 2);
    assert_eq!(state.points[1].x, 105);
    assert!(matches!(state.selection, Selection::Single(1)));
}

#[test]
fn expand_selection_reaches_neighbour() {
    let mut state = AppState::new(vec![
        pt(1, 0, 0, PointShape::Circle),
        pt(2, 3, 3, PointShape::Circle),
    ]);
    state.select_single(0);
    state.expand_selection_box(Direction::Right, 20);
    assert_eq!(indices(&state), vec![0, 1]);
    assert!(matches!(state.selection, Selection::Multiple(_)));
}

#[test]
fn expand_selection_skips_far_points() {
    let mut state = AppState::new(vec![
        pt(1, 0, 0, PointShape::Circle),
        pt(2, 0, 200, PointShape::Circle),
    ]);
    state.select_single(0);
    state.expand_selection_box(Direction::Right, 20);
    assert_eq!(indices(&state), vec![0]);
    assert!(matches!(state.selection, Selection::Single(0)));
}

#[test]
fn expand_selection_with_nothing_selected_is_a_no_op() {
    let mut state = AppState::new(vec![pt(1, 0, 0, PointShape::Circle)]);
    state.select_many(vec![]);
    state.expand_selection_box(Direction::Left, 20);
    assert!(matches!(state.selection, Selection::Empty));
}

#[test]
fn delete_selects_greatest_remaining_id() {
    let mut state = AppState::new(vec![
        pt(1, 0, 0, PointShape::Circle),
        pt(5, 10, 0, PointShape::Square),
        pt(3, 20, 0, PointShape::Diamond),
        pt(4, 30, 0, PointShape::Circle),
    ]);
    state.select_many(vec![1, 3]);
    state.delete_selected();
    let ids: Vec<u64> = state.points.iter().map(|p| p.id).collect();
    assert_eq!(ids, vec![1, 3]);
    assert!(matches!(state.selection, Selection::Single(1)));
    assert_eq!(state.next_id, 6);
}

#[test]
fn delete_everything_leaves_empty_selection() {
    let mut state = AppState::new(vec![
        pt(1, 0, 0, PointShape::Circle),
        pt(2, 10, 0, PointShape::Square),
    ]);
    state.select_many(vec![0, 1]);
    state.delete_selected();
    assert!(state.points.is_empty());
    assert!(matches!(state.selection, Selection::Empty));
}

#[test]
fn delete_with_empty_selection_keeps_points() {
    let mut state = AppState::new(vec![pt(1, 0, 0, PointShape::Circle)]);
    state.select_many(vec![]);
    state.delete_selected();
    assert_eq!(state.points.len(), 1);
}

#[test]
fn ids_are_not_reused_after_delete() {
    let mut state = AppState::new(vec![
        pt(1, 0, 0, PointShape::Circle),
        pt(2, 10, 0, PointShape::Circle),
    ]);
    state.select_single(1);
    state.delete_selected();
    state.clone_selected(0, 0);
    assert_eq!(state.points[1].id, 3);
}

#[test]
fn select_many_collapses_by_count() {
    let mut state = AppState::new(vec![
        pt(1, 0, 0, PointShape::Circle),
        pt(2, 10, 0, PointShape::Circle),
        pt(3, 20, 0, PointShape::Circle),
    ]);
    state.select_many(vec![]);
    assert!(matches!(state.selection, Selection::Empty));
    state.select_many(vec![2]);
    assert!(matches!(state.selection, Selection::Single(2)));
    state.select_many(vec![1, 1]);
    assert!(matches!(state.selection, Selection::Single(1)));
    state.select_many(vec![2, 0, 2]);
    assert_eq!(indices(&state), vec![2, 0]);
    assert!(matches!(state.selection, Selection::Multiple(_)));
}

#[test]
fn from_indices_never_builds_small_multiple() {
    assert!(matches!(Selection::from_indices(vec![]), Selection::Empty));
    assert!(matches!(Selection::from_indices(vec![4, 4, 4]), Selection::Single(4)));
    match Selection::from_indices(vec![3, 1, 3]) {
        Selection::Multiple(v) => assert_eq!(v, vec![3, 1]),
        _ => panic!("expected two indices"),
    }
}

#[test]
fn clone_gives_fresh_ids_and_same_count() {
    let mut state = AppState::new(vec![
        pt(7, 0, 0, PointShape::Circle),
        pt(2, 50, 0, PointShape::Diamond),
        pt(9, 100, 0, PointShape::Square),
    ]);
    state.select_many(vec![2, 0]);
    state.clone_selected(10, -5);
    assert_eq!(state.points.len(), 5);
    assert_eq!(state.points[3].id, 10);
    assert_eq!(state.points[4].id, 11);
    assert_eq!((state.points[3].x, state.points[3].y), (110, -5));
    assert_eq!(state.points[3].shape, PointShape::Square);
    assert_eq!((state.points[4].x, state.points[4].y), (10, -5));
    assert_eq!(indices(&state), vec![3, 4]);
    assert_eq!(state.next_id, 12);
}

#[test]
fn clone_keeps_rotation() {
    let mut state = AppState::new(vec![Point {
        id: 1,
        x: 0,
        y: 0,
        shape: PointShape::Semicircle,
        rotation: 90,
    }]);
    state.clone_selected(1, 1);
    assert_eq!(state.points[1].rotation, 90);
}

#[test]
fn clone_past_coordinate_range_does_nothing() {
    let mut state = AppState::new(vec![pt(1, i32::MAX - 1, 0, PointShape::Circle)]);
    state.clone_selected(5, 0);
    assert_eq!(state.points.len(), 1);
    assert!(matches!(state.selection, Selection::Single(0)));
    assert_eq!(state.next_id, 2);
}

#[test]
fn clone_with_empty_selection_adds_nothing() {
    let mut state = AppState::new(vec![pt(1, 0, 0, PointShape::Circle)]);
    state.select_many(vec![]);
    state.clone_selected(0, 0);
    assert_eq!(state.points.len(), 1);
    assert!(matches!(state.selection, Selection::Empty));
}

#[test]
fn hit_test_at_own_position() {
    let state = AppState::new(vec![
        pt(1, 0, 0, PointShape::Circle),
        pt(2, 300, 300, PointShape::Circle),
    ]);
    assert_eq!(state.point_at_pos(Pos { x: 300, y: 300 }, 1), Some(1));
    assert_eq!(state.point_at_pos(Pos { x: 0, y: 0 }, 1), Some(0));
}

#[test]
fn hit_test_takes_first_in_store_order() {
    let state = AppState::new(vec![
        pt(1, 0, 0, PointShape::Circle),
        pt(2, 10, 0, PointShape::Circle),
    ]);
    assert_eq!(state.point_at_pos(Pos { x: 10, y: 0 }, 20), Some(0));
}

#[test]
fn hit_test_radius_bound_is_strict() {
    let state = AppState::new(vec![pt(1, 0, 0, PointShape::Circle)]);
    assert_eq!(state.point_at_pos(Pos { x: 40, y: 0 }, 20), None);
    assert_eq!(state.point_at_pos(Pos { x: 39, y: 0 }, 20), Some(0));
    assert_eq!(state.point_at_pos(Pos { x: 0, y: 0 }, 0), None);
}

#[test]
fn quantize_rounds_halves_away_from_zero() {
    assert_eq!(AppState::quantize_position(25, 10), 30);
    assert_eq!(AppState::quantize_position(24, 10), 20);
    assert_eq!(AppState::quantize_position(-25, 10), -30);
    assert_eq!(AppState::quantize_position(-24, 10), -20);
    assert_eq!(AppState::quantize_position(7, 1), 7);
    assert_eq!(AppState::quantize_position(0, 40), 0);
}

#[test]
fn snap_uses_nearer_edge() {
    assert_eq!(snap_edge_to_grid(50, 40, 15), 55);
    assert_eq!(snap_edge_to_grid(45, 40, 20), 60);
    assert_eq!(snap_edge_to_grid(-50, 40, 15), -55);
}

#[test]
fn snapping_twice_changes_nothing() {
    let mut state = AppState::new(vec![
        pt(1, 50, 33, PointShape::Circle),
        pt(2, -71, 12, PointShape::Square),
    ]);
    state.select_many(vec![0, 1]);
    state.snap_to_grid(40, 15);
    let once: Vec<(i32, i32)> = state.points.iter().map(|p| (p.x, p.y)).collect();
    assert_eq!(once[0], (55, 25));
    state.snap_to_grid(40, 15);
    let twice: Vec<(i32, i32)> = state.points.iter().map(|p| (p.x, p.y)).collect();
    assert_eq!(once, twice);
}

#[test]
fn snap_leaves_unselected_points() {
    let mut state = AppState::new(vec![
        pt(1, 50, 50, PointShape::Circle),
        pt(2, 51, 51, PointShape::Circle),
    ]);
    state.snap_to_grid(40, 15);
    assert_eq!((state.points[0].x, state.points[0].y), (55, 55));
    assert_eq!((state.points[1].x, state.points[1].y), (51, 51));
}

#[test]
fn move_beyond_range_leaves_point() {
    let mut state = AppState::new(vec![pt(1, i32::MAX, 0, PointShape::Circle)]);
    state.move_selected(1, 0);
    assert_eq!(state.points[0].x, i32::MAX);
    state.move_selected(-1, 0);
    assert_eq!(state.points[0].x, i32::MAX - 1);
}

#[test]
fn point_in_box_by_shape() {
    let state = AppState::new(vec![
        pt(1, 50, 50, PointShape::Circle),
        pt(2, 15, 50, PointShape::Square),
        pt(3, 20, 20, PointShape::Diamond),
        pt(4, 15, 15, PointShape::Diamond),
    ]);
    let rect = Rect::from_two_pos(Pos { x: 100, y: 100 }, Pos { x: 0, y: 0 });
    assert!(state.point_in_box(0, rect, 20));
    assert!(!state.point_in_box(1, rect, 20));
    assert!(state.point_in_box(2, rect, 20));
    assert!(!state.point_in_box(3, rect, 20));
    assert!(state.point_in_box(0, Rect::from_two_pos(Pos { x: 30, y: 30 }, Pos { x: 70, y: 70 }), 20));
}

#[test]
fn select_in_box_collects_contained_points() {
    let mut state = AppState::new(vec![
        pt(1, 50, 50, PointShape::Circle),
        pt(2, 500, 500, PointShape::Circle),
        pt(3, 70, 30, PointShape::Semicircle),
    ]);
    state.select_in_box(Rect::from_two_pos(Pos { x: 0, y: 0 }, Pos { x: 100, y: 100 }), 20);
    assert_eq!(indices(&state), vec![0, 2]);
    state.select_in_box(Rect::from_two_pos(Pos { x: 0, y: 0 }, Pos { x: 10, y: 10 }), 20);
    assert!(matches!(state.selection, Selection::Empty));
}

#[test]
fn clone_offset_spans_selection() {
    let mut state = AppState::new(vec![
        pt(1, 0, 0, PointShape::Circle),
        pt(2, 100, 30, PointShape::Circle),
    ]);
    state.select_many(vec![0, 1]);
    assert_eq!(state.convex_hull_offset(Direction::Right, 20), (140, 0));
    assert_eq!(state.convex_hull_offset(Direction::Left, 20), (-140, 0));
    assert_eq!(state.convex_hull_offset(Direction::Down, 20), (0, 70));
    assert_eq!(state.convex_hull_offset(Direction::Up, 20), (0, -70));
    state.select_many(vec![]);
    assert_eq!(state.convex_hull_offset(Direction::Up, 20), (0, 0));
}

#[test]
fn bounds_widen_by_radius() {
    let state = AppState::new(vec![
        pt(1, 5, -3, PointShape::Circle),
        pt(2, -8, 12, PointShape::Circle),
    ]);
    assert_eq!(state.bounds_along_axis(&vec![0, 1], 2, pts::geometry::Axis::X), (-10, 7));
    assert_eq!(state.bounds_along_axis(&vec![0, 1], 2, pts::geometry::Axis::Y), (-5, 14));
}

#[test]
fn shape_and_rotation_apply_to_selection() {
    let mut state = AppState::new(vec![
        pt(1, 0, 0, PointShape::Circle),
        pt(2, 10, 0, PointShape::Circle),
    ]);
    state.set_selected_shape(PointShape::Semicircle);
    assert_eq!(state.points[0].shape, PointShape::Semicircle);
    assert_eq!(state.points[1].shape, PointShape::Circle);
    state.rotate_selected(-45);
    assert_eq!(state.points[0].rotation, 315);
    state.rotate_selected(90);
    assert_eq!(state.points[0].rotation, 45);
    assert_eq!(state.points[1].rotation, 0);
}

#[test]
fn paint_stamps_and_spaces_points() {
    let mut state = AppState::new(vec![pt(1, 0, 0, PointShape::Diamond)]);
    state.paint_point(Pos { x: 104, y: 96 }, 20, 10, 40, false);
    assert_eq!(state.points.len(), 2);
    assert_eq!(state.points[1], Point { id: 2, x: 100, y: 100, shape: PointShape::Diamond, rotation: 0 });
    assert!(matches!(state.selection, Selection::Single(0)));
    assert_eq!(state.last_paint_pos, Some(Pos { x: 100, y: 100 }));
    state.paint_point(Pos { x: 130, y: 100 }, 20, 10, 40, false);
    assert_eq!(state.points.len(), 2);
    state.paint_point(Pos { x: 140, y: 100 }, 20, 10, 40, false);
    assert_eq!(state.points.len(), 3);
    assert_eq!(state.points[2].id, 3);
}

#[test]
fn paint_snaps_new_point_only() {
    let mut state = AppState::new(vec![pt(1, 51, 51, PointShape::Circle)]);
    state.select_many(vec![]);
    state.paint_point(Pos { x: 50, y: 50 }, 15, 1, 40, true);
    assert_eq!((state.points[1].x, state.points[1].y), (55, 55));
    assert_eq!((state.points[0].x, state.points[0].y), (51, 51));
    assert_eq!(state.points[1].shape, PointShape::Circle);
    assert_eq!(state.last_paint_pos, Some(Pos { x: 50, y: 50 }));
    assert!(matches!(state.selection, Selection::Empty));
}

#[test]
fn paint_shape_follows_first_selected() {
    let mut state = AppState::new(vec![
        pt(1, 0, 0, PointShape::Square),
        pt(2, 0, 0, PointShape::Semicircle),
    ]);
    state.select_many(vec![1, 0]);
    assert_eq!(state.get_paint_shape(), PointShape::Semicircle);
    state.select_many(vec![]);
    assert_eq!(state.get_paint_shape(), PointShape::Circle);
}

#[test]
fn status_text_names_active_mode() {
    let mut state = AppState::new(vec![]);
    assert_eq!(state.status_text(), None);
    state.snap_to_grid = true;
    assert_eq!(state.status_text().as_deref(), Some("Snap to Grid"));
    state.pending_mode = PendingMode::Shape;
    assert_eq!(state.status_text().as_deref(), Some("Shape mode"));
    state.pending_mode = PendingMode::Clone;
    assert_eq!(state.status_text().as_deref(), Some("Clone mode"));
    state.interaction_mode = InteractionMode::BoxSelect;
    assert_eq!(state.status_text().as_deref(), Some("Box Select"));
    state.interaction_mode = InteractionMode::Paintbrush;
    assert_eq!(state.status_text().as_deref(), Some("Paintbrush"));
}

#[test]
fn zoom_is_clamped() {
    let mut state = AppState::new(vec![]);
    assert_eq!(state.zoom_milli, 1000);
    state.zoom_by(250);
    assert_eq!(state.zoom_milli, 1250);
    state.zoom_by(-5000);
    assert_eq!(state.zoom_milli, 100);
    state.zoom_by(i32::MAX);
    assert_eq!(state.zoom_milli, 10000);
}

#[test]
fn new_state_selects_first_point() {
    let state = AppState::new(load_points());
    assert!(matches!(state.selection, Selection::Single(0)));
    assert_eq!(state.next_id, 5);
    let empty = AppState::new(vec![]);
    assert!(matches!(empty.selection, Selection::Empty));
    assert_eq!(empty.next_id, 1);
}

#[test]
fn starting_points_hold_each_shape() {
    let points = load_points();
    assert_eq!(points.len(), 4);
    assert_eq!(points[0], pt(1, 400, 200, PointShape::Circle));
    assert_eq!(points[3], pt(4, 700, 500, PointShape::Semicircle));
}

#[test]
fn ids_valid_rejects_repeats_and_max() {
    assert!(AppState::ids_valid(&load_points()));
    assert!(!AppState::ids_valid(&vec![pt(1, 0, 0, PointShape::Circle), pt(1, 5, 5, PointShape::Circle)]));
    assert!(!AppState::ids_valid(&vec![pt(u64::MAX, 0, 0, PointShape::Circle)]));
}

#[test]
fn replace_points_clears_selection_and_keeps_ids_fresh() {
    let mut state = AppState::new(vec![pt(9, 0, 0, PointShape::Circle)]);
    state.replace_points(load_points());
    assert!(matches!(state.selection, Selection::Empty));
    assert_eq!(state.next_id, 10);
    assert_eq!(state.points.len(), 4);
    let mut other = AppState::new(vec![]);
    other.replace_points(vec![pt(20, 0, 0, PointShape::Circle)]);
    assert_eq!(other.next_id, 21);
}
