//! Pointer handling in each interaction mode, one frame at a time.

use crate::config::Config;
use crate::geometry::{quantize, quantize_value, Pos, Rect};
use crate::persistence::Point;
use crate::keyboard::Action;
use crate::selection::{contains_index, Selection};
use crate::state::{first_hit, AppState, StateModel};
use vstd::prelude::*;

verus! {

/// What the pointer did over the canvas during one frame, and where it is.
#[derive(Clone, Copy, Debug, PartialEq, Eq, Structural)]
pub struct PointerInput {
    pub drag_started: bool,
    pub dragged: bool,
    pub drag_stopped: bool,
    pub clicked: bool,
    pub pos: Option<Pos>,
}

/// The selection rectangle after a frame of box selection: a drag opens it
/// at the pointer, moving drags its far corner, and letting go selects the
/// points wholly inside and clears it.
pub open spec fn box_select_outcome(m: StateModel, cfg: Config, input: PointerInput) -> StateModel {
    let opened = if input.drag_started && input.pos is Some {
        StateModel { box_select_start: input.pos, box_select_end: input.pos, ..m }
    } else {
        m
    };
    let dragged = if input.dragged && input.pos is Some {
        StateModel { box_select_end: input.pos, ..opened }
    } else {
        opened
    };
    if input.drag_stopped {
        let chosen = match (dragged.box_select_start, dragged.box_select_end) {
            (Some(a), Some(b)) => dragged.box_selected(
                Rect::spanning(a, b),
                cfg.point_radius as int,
            ),
            _ => dragged,
        };
        StateModel { box_select_start: None, box_select_end: None, ..chosen }
    } else {
        dragged
    }
}

/// Handles a frame of pointer input in box selection.
pub fn box_select(state: &mut AppState, config: &Config, input: &PointerInput) -> (r: Action)
    requires
        old(state).wf(),
    ensures
        final(state).wf(),
        final(state)@ == box_select_outcome(old(state)@, *config, *input),
        r == Action::Nothing,
{
    if input.drag_started {
        if let Some(pos) = input.pos {
            state.box_select_start = Some(pos);
            state.box_select_end = Some(pos);
        }
    }
    if input.dragged {
        if let Some(pos) = input.pos {
            state.box_select_end = Some(pos);
        }
    }
    if input.drag_stopped {
        if let (Some(start), Some(end)) = (state.box_select_start, state.box_select_end) {
            let rect = Rect::from_two_pos(start, end);
            state.select_in_box(rect, config.point_radius);
        }
        state.box_select_start = None;
        state.box_select_end = None;
    }
    Action::Nothing
}

/// The state after a frame of painting: a click or a drag stamps a point at
/// the pointer, and letting go forgets the last stamp.
pub open spec fn paintbrush_outcome(m: StateModel, cfg: Config, input: PointerInput) -> StateModel {
    let stamped = if (input.clicked || input.dragged) && input.pos is Some {
        m.painted(
            input.pos->0,
            cfg.point_radius as int,
            cfg.move_step as int,
            cfg.grid_spacing as int,
            m.snap_to_grid,
        )
    } else {
        m
    };
    if input.drag_stopped {
        StateModel { last_paint_pos: None, ..stamped }
    } else {
        stamped
    }
}

/// Handles a frame of pointer input in painting; asks for a save when a
/// stroke ends.
pub fn paintbrush(state: &mut AppState, config: &Config, input: &PointerInput) -> (r: Action)
    requires
        old(state).wf(),
        config.wf(),
    ensures
        final(state).wf(),
        final(state)@ == paintbrush_outcome(old(state)@, *config, *input),
        r == if input.drag_stopped {
            Action::Save
        } else {
            Action::Nothing
        },
{
    if input.clicked || input.dragged {
        if let Some(pos) = input.pos {
            let snap = state.snap_to_grid;
            state.paint_point(
                pos,
                config.point_radius,
                config.move_step,
                config.grid_spacing,
                snap,
            );
        }
    }
    if input.drag_stopped {
        state.last_paint_pos = None;
        Action::Save
    } else {
        Action::Nothing
    }
}

/// A drag that starts on a point grabs it: the selection is kept when the
/// point is in it, and otherwise becomes that point alone.
pub open spec fn grab(m: StateModel, pos: Pos, r: int) -> StateModel {
    match first_hit(m.points, pos, r) {
        Some(i) => if m.selected.contains(i) {
            StateModel { dragging: Some(i), ..m }
        } else {
            StateModel { selected: seq![i], dragging: Some(i), ..m }
        },
        None => m,
    }
}

/// Dragging moves the selection by the step-rounded distance from the
/// grabbed point to the pointer, and snaps afterwards when snapping is on.
pub open spec fn drag_to(m: StateModel, pos: Pos, cfg: Config) -> StateModel {
    match m.dragging {
        Some(d) => {
            let p = m.points[d as int];
            let moved = m.moved(
                quantize(pos.x as int, cfg.move_step as int) - p.x,
                quantize(pos.y as int, cfg.move_step as int) - p.y,
            );
            if moved.snap_to_grid {
                moved.snapped(cfg.grid_spacing as int, cfg.point_radius as int)
            } else {
                moved
            }
        },
        None => m,
    }
}

/// The state after a frame of pointer input in normal mode: grab, drag,
/// release, then a click selects the point under the pointer or nothing.
pub open spec fn normal_outcome(m: StateModel, cfg: Config, input: PointerInput) -> StateModel {
    let r = cfg.point_radius as int;
    let grabbed = if input.drag_started && input.pos is Some {
        grab(m, input.pos->0, r)
    } else {
        m
    };
    let dragged = if input.dragged && input.pos is Some {
        drag_to(grabbed, input.pos->0, cfg)
    } else {
        grabbed
    };
    let released = if input.drag_stopped {
        StateModel { dragging: None, ..dragged }
    } else {
        dragged
    };
    if input.clicked && input.pos is Some {
        StateModel {
            selected: match first_hit(released.points, input.pos->0, r) {
                Some(i) => seq![i],
                None => Seq::empty(),
            },
            ..released
        }
    } else {
        released
    }
}

fn grab_at(state: &mut AppState, pos: Pos, radius: i32)
    requires
        old(state).wf(),
    ensures
        final(state).wf(),
        final(state)@ == grab(old(state)@, pos, radius as int),
{
    if let Some(idx) = state.point_at_pos(pos, radius) {
        proof {
            lemma_first_hit_in_range(state.points@, pos, radius as int);
        }
        let selected = state.selected_indices();
        if contains_index(&selected, idx) {
            state.dragging = Some(idx);
        } else {
            state.selection = Selection::Single(idx);
            state.dragging = Some(idx);
        }
    }
}

fn drag_selection(state: &mut AppState, pos: Pos, config: &Config)
    requires
        old(state).wf(),
        config.wf(),
    ensures
        final(state).wf(),
        final(state)@ == drag_to(old(state)@, pos, *config),
{
    if let Some(d) = state.dragging {
        let p = state.points[d];
        let qx = quantize_value(pos.x as i64, config.move_step as i64);
        let qy = quantize_value(pos.y as i64, config.move_step as i64);
        state.move_selected(qx - p.x as i64, qy - p.y as i64);
        if state.snap_to_grid {
            state.snap_to_grid(config.grid_spacing, config.point_radius);
        }
    }
}

fn click_at(state: &mut AppState, pos: Pos, radius: i32)
    requires
        old(state).wf(),
    ensures
        final(state).wf(),
        final(state)@ == (StateModel {
            selected: match first_hit(old(state).points@, pos, radius as int) {
                Some(i) => seq![i],
                None => Seq::empty(),
            },
            ..old(state)@
        }),
{
    match state.point_at_pos(pos, radius) {
        Some(idx) => {
            proof {
                lemma_first_hit_in_range(state.points@, pos, radius as int);
            }
            state.selection = Selection::Single(idx);
        },
        None => {
            state.selection = Selection::Empty;
        },
    }
}

proof fn lemma_first_hit_in_range(pts: Seq<Point>, pos: Pos, r: int)
    ensures
        first_hit(pts, pos, r) matches Some(i) ==> i < pts.len(),
    decreases pts.len(),
{
    if pts.len() > 0 {
        lemma_first_hit_in_range(pts.drop_last(), pos, r);
    }
}

/// Handles a frame of pointer input in normal mode; asks for a save when a
/// drag ends.
pub fn normal(state: &mut AppState, config: &Config, input: &PointerInput) -> (r: Action)
    requires
        old(state).wf(),
        config.wf(),
    ensures
        final(state).wf(),
        final(state)@ == normal_outcome(old(state)@, *config, *input),
        r == if input.drag_stopped && (if input.drag_started && input.pos is Some {
            grab(old(state)@, input.pos->0, config.point_radius as int)
        } else {
            old(state)@
        }).dragging is Some {
            Action::Save
        } else {
            Action::Nothing
        },
{
    if input.drag_started {
        if let Some(pos) = input.pos {
            grab_at(state, pos, config.point_radius);
        }
    }
    if input.dragged {
        if let Some(pos) = input.pos {
            drag_selection(state, pos, config);
        }
    }
    let mut action = Action::Nothing;
    if input.drag_stopped && state.dragging.is_some() {
        action = Action::Save;
    }
    if input.drag_stopped {
        state.dragging = None;
    }
    if input.clicked {
        if let Some(pos) = input.pos {
            click_at(state, pos, config.point_radius);
        }
    }
    action
}

} // verus!
