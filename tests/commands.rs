use pts::config::Config;
use pts::geometry::Pos;
use pts::interactions::{box_select, normal, paintbrush, PointerInput};
use pts::keyboard::{
    handle_key_release, handle_keyboard, pending_step, toggle_mode, toggle_pending, Action,
    ChordEffect, Key,
};
use pts::geometry::Direction;
use pts::persistence::{Point, PointShape};
use pts::selection::Selection;
use pts::state::{AppState, InteractionMode, PendingMode};

fn pt(id: u64, x: i32, y: i32, shape: PointShape) -> Point {
    Point { id, x, y, shape, rotation: 0 }
}

fn press(state: &mut AppState, config: &mut Config, key: Key) -> Action {
    handle_keyboard(state, config, key, false, false)
}

fn two_points() -> AppState {
    AppState::new(vec![pt(1, 0, 0, PointShape::Circle), pt(2, 100, 0, PointShape::Square)])
}

fn input(pos: Option<Pos>) -> PointerInput {
    PointerInput { drag_started: false, dragged: false, drag_stopped: false, clicked: false, pos }
}

#[test]
fn shape_chord_then_d_sets_diamond() {
    let mut state = two_points();
    let mut config = Config::default();
    state.select_many(vec![0, 1]);
    state.pending_mode = PendingMode::Shape;
    let action = press(&mut state, &mut config, Key::D);
    assert_eq!(state.points[0].shape, PointShape::Diamond);
    assert_eq!(state.points[1].shape, PointShape::Diamond);
    assert_eq!(state.pending_mode, PendingMode::Idle);
    assert_eq!(action, Action::Save);
}

#[test]
fn shape_chord_keys() {
    let mut state = two_points();
    let mut config = Config::default();
    assert_eq!(press(&mut state, &mut config, Key::S), Action::Nothing);
    assert_eq!(state.pending_mode, PendingMode::Shape);
    press(&mut state, &mut config, Key::H);
    assert_eq!(state.points[0].shape, PointShape::Semicircle);
    press(&mut state, &mut config, Key::S);
    press(&mut state, &mut config, Key::S);
    assert_eq!(state.points[0].shape, PointShape::Square);
    press(&mut state, &mut config, Key::S);
    press(&mut state, &mut config, Key::C);
    assert_eq!(state.points[0].shape, PointShape::Circle);
    assert_eq!(state.points.len(), 2);
    assert_eq!(state.pending_mode, PendingMode::Idle);
}

#[test]
fn clone_chord_in_place() {
    let mut state = two_points();
    let mut config = Config::default();
    assert_eq!(press(&mut state, &mut config, Key::C), Action::Nothing);
    assert_eq!(state.pending_mode, PendingMode::Clone);
    assert_eq!(state.status_text().as_deref(), Some("Clone mode"));
    assert_eq!(press(&mut state, &mut config, Key::C), Action::Save);
    assert_eq!(state.points.len(), 3);
    assert_eq!(state.points[2], pt(3, 0, 0, PointShape::Circle));
    assert!(matches!(state.selection, Selection::Single(2)));
    assert_eq!(state.pending_mode, PendingMode::Idle);
}

#[test]
fn clone_chord_beside_selection() {
    let mut state = two_points();
    let mut config = Config::default();
    state.select_many(vec![0, 1]);
    press(&mut state, &mut config, Key::C);
    assert_eq!(press(&mut state, &mut config, Key::ArrowRight), Action::Save);
    assert_eq!(state.points.len(), 4);
    assert_eq!((state.points[2].x, state.points[3].x), (140, 240));
    assert_eq!(state.selected_indices(), vec![2, 3]);
    assert_eq!(state.pending_mode, PendingMode::Idle);
}

#[test]
fn opening_a_chord_replaces_another() {
    let mut state = two_points();
    let mut config = Config::default();
    press(&mut state, &mut config, Key::C);
    press(&mut state, &mut config, Key::S);
    assert_eq!(state.pending_mode, PendingMode::Shape);
    press(&mut state, &mut config, Key::ArrowLeft);
    assert_eq!(state.pending_mode, PendingMode::Idle);
    assert_eq!(state.points[0].x, 0);
}

#[test]
fn view_chord_toggles_grid_while_v_is_held() {
    let mut state = two_points();
    let mut config = Config::default();
    assert!(config.grid_enabled);
    press(&mut state, &mut config, Key::V);
    assert_eq!(state.pending_mode, PendingMode::View);
    press(&mut state, &mut config, Key::G);
    assert!(!config.grid_enabled);
    assert!(!state.snap_to_grid);
    assert_eq!(state.pending_mode, PendingMode::Idle);
}

#[test]
fn releasing_v_closes_view_chord() {
    let mut state = two_points();
    let mut config = Config::default();
    press(&mut state, &mut config, Key::V);
    handle_key_release(&mut state, Key::V);
    assert_eq!(state.pending_mode, PendingMode::Idle);
    press(&mut state, &mut config, Key::G);
    assert!(config.grid_enabled);
    assert!(state.snap_to_grid);
}

#[test]
fn arrows_move_by_step_and_snap() {
    let mut state = two_points();
    let mut config = Config::default();
    press(&mut state, &mut config, Key::ArrowRight);
    assert_eq!(state.points[0].x, 1);
    handle_keyboard(&mut state, &mut config, Key::ArrowDown, true, false);
    assert_eq!(state.points[0].y, 20);
    press(&mut state, &mut config, Key::G);
    assert!(state.snap_to_grid);
    press(&mut state, &mut config, Key::ArrowUp);
    assert_eq!((state.points[0].x, state.points[0].y), (20, 20));
    assert_eq!(state.points[1].x, 100);
}

#[test]
fn box_mode_arrows_expand_selection() {
    let mut state = AppState::new(vec![pt(1, 0, 0, PointShape::Circle), pt(2, 3, 3, PointShape::Circle)]);
    let mut config = Config::default();
    press(&mut state, &mut config, Key::B);
    assert_eq!(state.interaction_mode, InteractionMode::BoxSelect);
    press(&mut state, &mut config, Key::ArrowRight);
    assert_eq!(state.selected_indices(), vec![0, 1]);
    assert_eq!(state.points[0].x, 0);
    press(&mut state, &mut config, Key::B);
    assert_eq!(state.interaction_mode, InteractionMode::Normal);
}

#[test]
fn mode_keys_toggle_and_clear_transients() {
    let mut state = two_points();
    let mut config = Config::default();
    state.last_paint_pos = Some(Pos { x: 1, y: 1 });
    press(&mut state, &mut config, Key::P);
    assert_eq!(state.interaction_mode, InteractionMode::Paintbrush);
    assert_eq!(state.last_paint_pos, None);
    press(&mut state, &mut config, Key::B);
    assert_eq!(state.interaction_mode, InteractionMode::BoxSelect);
    press(&mut state, &mut config, Key::P);
    press(&mut state, &mut config, Key::P);
    assert_eq!(state.interaction_mode, InteractionMode::Normal);
}

#[test]
fn single_key_commands() {
    let mut state = two_points();
    let mut config = Config::default();
    assert_eq!(press(&mut state, &mut config, Key::R), Action::Save);
    assert_eq!(state.points[0].rotation, 45);
    assert_eq!(handle_keyboard(&mut state, &mut config, Key::R, true, false), Action::Save);
    assert_eq!(state.points[0].rotation, 0);
    press(&mut state, &mut config, Key::Questionmark);
    assert!(state.show_help);
    assert_eq!(press(&mut state, &mut config, Key::X), Action::Nothing);
    assert_eq!(state.points.len(), 1);
    assert_eq!(state.points[0].id, 2);
    assert_eq!(press(&mut state, &mut config, Key::Q), Action::Quit);
    assert_eq!(press(&mut state, &mut config, Key::Escape), Action::Quit);
}

#[test]
fn ctrl_keys_ask_for_save_and_reload() {
    let mut state = two_points();
    let mut config = Config::default();
    assert_eq!(handle_keyboard(&mut state, &mut config, Key::S, false, true), Action::Save);
    assert_eq!(state.pending_mode, PendingMode::Idle);
    assert_eq!(handle_keyboard(&mut state, &mut config, Key::O, false, true), Action::Reload);
    assert_eq!(handle_keyboard(&mut state, &mut config, Key::R, false, true), Action::Reload);
    assert_eq!(state.points[0].rotation, 0);
}

#[test]
fn chord_table() {
    assert_eq!(pending_step(PendingMode::Idle, Key::C), (PendingMode::Clone, ChordEffect::Nothing));
    assert_eq!(pending_step(PendingMode::Clone, Key::C), (PendingMode::Idle, ChordEffect::CloneInPlace));
    assert_eq!(
        pending_step(PendingMode::Clone, Key::ArrowUp),
        (PendingMode::Idle, ChordEffect::CloneAdjacent(Direction::Up))
    );
    assert_eq!(
        pending_step(PendingMode::Shape, Key::D),
        (PendingMode::Idle, ChordEffect::SetShape(PointShape::Diamond))
    );
    assert_eq!(pending_step(PendingMode::View, Key::G), (PendingMode::Idle, ChordEffect::ToggleGrid));
    assert_eq!(pending_step(PendingMode::Idle, Key::G), (PendingMode::Idle, ChordEffect::ToggleSnap));
    assert_eq!(
        pending_step(PendingMode::Idle, Key::ArrowLeft),
        (PendingMode::Idle, ChordEffect::Move(Direction::Left))
    );
    assert_eq!(pending_step(PendingMode::Shape, Key::X), (PendingMode::Idle, ChordEffect::Nothing));
}

#[test]
fn toggles_return_to_rest() {
    assert_eq!(toggle_mode(InteractionMode::BoxSelect, InteractionMode::BoxSelect), InteractionMode::Normal);
    assert_eq!(toggle_mode(InteractionMode::Paintbrush, InteractionMode::BoxSelect), InteractionMode::BoxSelect);
    assert_eq!(toggle_pending(PendingMode::Clone, PendingMode::Clone), PendingMode::Idle);
    assert_eq!(toggle_pending(PendingMode::Idle, PendingMode::Shape), PendingMode::Shape);
}

#[test]
fn drag_moves_selection_by_rounded_delta() {
    let mut state = two_points();
    let mut config = Config::default();
    config.move_step = 10;
    state.select_many(vec![0, 1]);
    let mut start = input(Some(Pos { x: 101, y: 2 }));
    start.drag_started = true;
    assert_eq!(normal(&mut state, &config, &start), Action::Nothing);
    assert_eq!(state.dragging, Some(1));
    assert_eq!(state.selected_indices(), vec![0, 1]);
    let mut drag = input(Some(Pos { x: 124, y: 16 }));
    drag.dragged = true;
    normal(&mut state, &config, &drag);
    assert_eq!((state.points[1].x, state.points[1].y), (120, 20));
    assert_eq!((state.points[0].x, state.points[0].y), (20, 20));
    let mut stop = input(Some(Pos { x: 124, y: 16 }));
    stop.drag_stopped = true;
    assert_eq!(normal(&mut state, &config, &stop), Action::Save);
    assert_eq!(state.dragging, None);
}

#[test]
fn drag_on_unselected_point_grabs_it_alone() {
    let mut state = two_points();
    let config = Config::default();
    let mut start = input(Some(Pos { x: 100, y: 0 }));
    start.drag_started = true;
    normal(&mut state, &config, &start);
    assert!(matches!(state.selection, Selection::Single(1)));
    assert_eq!(state.dragging, Some(1));
}

#[test]
fn click_selects_or_clears() {
    let mut state = two_points();
    let config = Config::default();
    let mut click = input(Some(Pos { x: 110, y: 5 }));
    click.clicked = true;
    normal(&mut state, &config, &click);
    assert!(matches!(state.selection, Selection::Single(1)));
    let mut miss = input(Some(Pos { x: 500, y: 500 }));
    miss.clicked = true;
    normal(&mut state, &config, &miss);
    assert!(matches!(state.selection, Selection::Empty));
    let mut release = input(None);
    release.drag_stopped = true;
    assert_eq!(normal(&mut state, &config, &release), Action::Nothing);
}

#[test]
fn box_drag_selects_contained_points() {
    let mut state = two_points();
    let config = Config::default();
    let mut start = input(Some(Pos { x: 150, y: 50 }));
    start.drag_started = true;
    box_select(&mut state, &config, &start);
    assert_eq!(state.box_select_start, Some(Pos { x: 150, y: 50 }));
    let mut drag = input(Some(Pos { x: 60, y: -40 }));
    drag.dragged = true;
    box_select(&mut state, &config, &drag);
    assert_eq!(state.box_select_end, Some(Pos { x: 60, y: -40 }));
    let mut stop = input(None);
    stop.drag_stopped = true;
    box_select(&mut state, &config, &stop);
    assert!(matches!(state.selection, Selection::Single(1)));
    assert_eq!(state.box_select_start, None);
    assert_eq!(state.box_select_end, None);
}

#[test]
fn paintbrush_stamps_and_saves_at_stroke_end() {
    let mut state = two_points();
    let config = Config::default();
    let mut click = input(Some(Pos { x: 300, y: 300 }));
    click.clicked = true;
    assert_eq!(paintbrush(&mut state, &config, &click), Action::Nothing);
    assert_eq!(state.points.len(), 3);
    assert_eq!(state.points[2], pt(3, 300, 300, PointShape::Circle));
    let mut drag = input(Some(Pos { x: 310, y: 300 }));
    drag.dragged = true;
    paintbrush(&mut state, &config, &drag);
    assert_eq!(state.points.len(), 3);
    let mut stop = input(None);
    stop.drag_stopped = true;
    assert_eq!(paintbrush(&mut state, &config, &stop), Action::Save);
    assert_eq!(state.last_paint_pos, None);
    paintbrush(&mut state, &config, &drag);
    assert_eq!(state.points.len(), 4);
}
