//! Keyboard commands: the mode toggles, the two-key chords and the single-key
//! commands, one key press at a time.
//!
//! A chord is opened by `C` (clone), `S` (shape) or `V` (view, held down).
//! `C C` clones in place, `C` and an arrow clones beside the selection; `S`
//! then `S`, `C`, `D` or `H` sets the shape; `G` while `V` is held shows or
//! hides the grid. Opening a chord while another is open replaces it, and any
//! other key cancels the open chord before it takes its own effect.

use crate::config::Config;
use crate::geometry::{lemma_unit_mul, Direction};
use crate::persistence::PointShape;
use crate::state::{AppState, InteractionMode, PendingMode, StateModel};
use vstd::prelude::*;

verus! {

/// The keys the editor responds to.
#[derive(Clone, Copy, Debug, PartialEq, Eq, Structural)]
pub enum Key {
    ArrowLeft,
    ArrowRight,
    ArrowUp,
    ArrowDown,
    B,
    C,
    D,
    G,
    H,
    O,
    P,
    Q,
    R,
    S,
    V,
    X,
    Escape,
    Questionmark,
}

/// What the program around the editor is asked to do after a key.
#[derive(Clone, Copy, Debug, PartialEq, Eq, Structural)]
pub enum Action {
    Nothing,
    Save,
    Reload,
    Quit,
}

/// The edit that a step of the chord machine calls for.
#[derive(Clone, Copy, Debug, PartialEq, Eq, Structural)]
pub enum ChordEffect {
    Nothing,
    CloneInPlace,
    CloneAdjacent(Direction),
    SetShape(PointShape),
    ToggleGrid,
    ToggleSnap,
    Move(Direction),
}

/// The degrees that one press of `R` turns the selection by.
pub const ROTATION_STEP: i32 = 45;

impl Key {
    /// The direction of an arrow key.
    pub open spec fn arrow(self) -> Option<Direction> {
        match self {
            Key::ArrowLeft => Some(Direction::Left),
            Key::ArrowRight => Some(Direction::Right),
            Key::ArrowUp => Some(Direction::Up),
            Key::ArrowDown => Some(Direction::Down),
            _ => None,
        }
    }

    /// The direction of an arrow key.
    pub fn direction(self) -> (r: Option<Direction>)
        ensures
            r == self.arrow(),
    {
        match self {
            Key::ArrowLeft => Some(Direction::Left),
            Key::ArrowRight => Some(Direction::Right),
            Key::ArrowUp => Some(Direction::Up),
            Key::ArrowDown => Some(Direction::Down),
            _ => None,
        }
    }
}

/// `target`, or back to normal when `target` is already active.
pub fn toggle_mode(current: InteractionMode, target: InteractionMode) -> (r: InteractionMode)
    ensures
        r == if current == target {
            InteractionMode::Normal
        } else {
            target
        },
{
    if current == target {
        InteractionMode::Normal
    } else {
        target
    }
}

/// `target`, or back to idle when `target` is already pending.
pub fn toggle_pending(current: PendingMode, target: PendingMode) -> (r: PendingMode)
    ensures
        r == if current == target {
            PendingMode::Idle
        } else {
            target
        },
{
    if current == target {
        PendingMode::Idle
    } else {
        target
    }
}

/// One step of the chord machine: the next pending mode and the edit due.
pub open spec fn chord_step(pending: PendingMode, key: Key) -> (PendingMode, ChordEffect) {
    match key {
        Key::C => if pending == PendingMode::Shape {
            (PendingMode::Idle, ChordEffect::SetShape(PointShape::Circle))
        } else if pending == PendingMode::Clone {
            (PendingMode::Idle, ChordEffect::CloneInPlace)
        } else {
            (PendingMode::Clone, ChordEffect::Nothing)
        },
        Key::S => if pending == PendingMode::Shape {
            (PendingMode::Idle, ChordEffect::SetShape(PointShape::Square))
        } else {
            (PendingMode::Shape, ChordEffect::Nothing)
        },
        Key::D => if pending == PendingMode::Shape {
            (PendingMode::Idle, ChordEffect::SetShape(PointShape::Diamond))
        } else {
            (PendingMode::Idle, ChordEffect::Nothing)
        },
        Key::H => if pending == PendingMode::Shape {
            (PendingMode::Idle, ChordEffect::SetShape(PointShape::Semicircle))
        } else {
            (PendingMode::Idle, ChordEffect::Nothing)
        },
        Key::V => (PendingMode::View, ChordEffect::Nothing),
        Key::G => if pending == PendingMode::View {
            (PendingMode::Idle, ChordEffect::ToggleGrid)
        } else {
            (PendingMode::Idle, ChordEffect::ToggleSnap)
        },
        _ => match key.arrow() {
            Some(d) => if pending == PendingMode::Clone {
                (PendingMode::Idle, ChordEffect::CloneAdjacent(d))
            } else if pending == PendingMode::Idle {
                (PendingMode::Idle, ChordEffect::Move(d))
            } else {
                (PendingMode::Idle, ChordEffect::Nothing)
            },
            None => (PendingMode::Idle, ChordEffect::Nothing),
        },
    }
}

/// One step of the chord machine: the next pending mode and the edit due.
pub fn pending_step(pending: PendingMode, key: Key) -> (r: (PendingMode, ChordEffect))
    ensures
        r == chord_step(pending, key),
{
    match key {
        Key::C => {
            if pending == PendingMode::Shape {
                (PendingMode::Idle, ChordEffect::SetShape(PointShape::Circle))
            } else {
                let effect = if pending == PendingMode::Clone {
                    ChordEffect::CloneInPlace
                } else {
                    ChordEffect::Nothing
                };
                (toggle_pending(pending, PendingMode::Clone), effect)
            }
        },
        Key::S => {
            let effect = if pending == PendingMode::Shape {
                ChordEffect::SetShape(PointShape::Square)
            } else {
                ChordEffect::Nothing
            };
            (toggle_pending(pending, PendingMode::Shape), effect)
        },
        Key::D | Key::H => {
            if pending == PendingMode::Shape {
                let shape = if key == Key::D {
                    PointShape::Diamond
                } else {
                    PointShape::Semicircle
                };
                (PendingMode::Idle, ChordEffect::SetShape(shape))
            } else {
                (PendingMode::Idle, ChordEffect::Nothing)
            }
        },
        Key::V => (PendingMode::View, ChordEffect::Nothing),
        Key::G => {
            if pending == PendingMode::View {
                (PendingMode::Idle, ChordEffect::ToggleGrid)
            } else {
                (PendingMode::Idle, ChordEffect::ToggleSnap)
            }
        },
        _ => match key.direction() {
            Some(d) => {
                if pending == PendingMode::Clone {
                    (PendingMode::Idle, ChordEffect::CloneAdjacent(d))
                } else if pending == PendingMode::Idle {
                    (PendingMode::Idle, ChordEffect::Move(d))
                } else {
                    (PendingMode::Idle, ChordEffect::Nothing)
                }
            },
            None => (PendingMode::Idle, ChordEffect::Nothing),
        },
    }
}

/// The state after a chord edit. Moving by an arrow uses the large step when
/// shift is held, and snaps afterwards when snapping is on.
pub open spec fn apply_effect(m: StateModel, effect: ChordEffect, cfg: Config, shift: bool) -> StateModel {
    match effect {
        ChordEffect::CloneInPlace => m.cloned(0, 0),
        ChordEffect::CloneAdjacent(d) => {
            let off = m.hull_offset(d, cfg.point_radius as int);
            m.cloned(off.0, off.1)
        },
        ChordEffect::SetShape(shape) => m.reshaped(shape),
        ChordEffect::ToggleSnap => StateModel { snap_to_grid: !m.snap_to_grid, ..m },
        ChordEffect::Move(d) => {
            let step = if shift {
                cfg.move_step_large as int
            } else {
                cfg.move_step as int
            };
            let moved = m.moved(d.dx() * step, d.dy() * step);
            if moved.snap_to_grid {
                moved.snapped(cfg.grid_spacing as int, cfg.point_radius as int)
            } else {
                moved
            }
        },
        _ => m,
    }
}

/// The interaction mode switched to `mode`, its transient state cleared.
pub open spec fn switched(m: StateModel, mode: InteractionMode) -> StateModel {
    StateModel {
        interaction_mode: mode,
        box_select_start: None,
        box_select_end: None,
        last_paint_pos: None,
        dragging: None,
        ..m
    }
}

/// The state after the single-key command of `key`, if it has one.
pub open spec fn apply_command(m: StateModel, key: Key, shift: bool) -> StateModel {
    match key {
        Key::R => m.rotated(
            if shift {
                -ROTATION_STEP
            } else {
                ROTATION_STEP as int
            },
        ),
        Key::X => m.deleted(),
        Key::B => switched(
            m,
            if m.interaction_mode == InteractionMode::BoxSelect {
                InteractionMode::Normal
            } else {
                InteractionMode::BoxSelect
            },
        ),
        Key::P => switched(
            m,
            if m.interaction_mode == InteractionMode::Paintbrush {
                InteractionMode::Normal
            } else {
                InteractionMode::Paintbrush
            },
        ),
        Key::Questionmark => StateModel { show_help: !m.show_help, ..m },
        _ => m,
    }
}

/// Whether an edit is to be saved once it is made.
pub open spec fn effect_saves(effect: ChordEffect) -> bool {
    match effect {
        ChordEffect::CloneInPlace | ChordEffect::CloneAdjacent(_) | ChordEffect::SetShape(_) => true,
        _ => false,
    }
}

/// The state, the grid's visibility and the action after one key press.
///
/// With ctrl held, `S` saves and `O` or `R` reloads, and nothing else
/// changes. In box selection an arrow grows the selection and cancels any
/// chord. Otherwise the key steps the chord machine, whose edit is made, and
/// then takes its own command: `R` turns the selection a step (back with
/// shift), `X` deletes it, `B` and `P` toggle box selection and painting, `?`
/// shows or hides help, `Q` and escape quit.
pub open spec fn key_outcome(
    m: StateModel,
    cfg: Config,
    key: Key,
    shift: bool,
    ctrl: bool,
) -> (StateModel, bool, Action) {
    if ctrl {
        (m, cfg.grid_enabled, match key {
            Key::S => Action::Save,
            Key::O | Key::R => Action::Reload,
            _ => Action::Nothing,
        })
    } else if m.interaction_mode == InteractionMode::BoxSelect && key.arrow() is Some {
        (
            StateModel { pending_mode: PendingMode::Idle, ..m }.expanded(
                key.arrow()->0,
                cfg.point_radius as int,
            ),
            cfg.grid_enabled,
            Action::Nothing,
        )
    } else {
        let (pending, effect) = chord_step(m.pending_mode, key);
        let edited = apply_effect(StateModel { pending_mode: pending, ..m }, effect, cfg, shift);
        let grid = if effect == ChordEffect::ToggleGrid {
            !cfg.grid_enabled
        } else {
            cfg.grid_enabled
        };
        let action = if key == Key::Q || key == Key::Escape {
            Action::Quit
        } else if effect_saves(effect) || key == Key::R {
            Action::Save
        } else {
            Action::Nothing
        };
        (apply_command(edited, key, shift), grid, action)
    }
}

/// Makes the edit that a chord step calls for.
fn apply_chord_effect(state: &mut AppState, config: &mut Config, effect: ChordEffect, shift: bool)
    requires
        old(state).wf(),
        old(config).wf(),
    ensures
        final(state).wf(),
        final(state)@ == apply_effect(old(state)@, effect, *old(config), shift),
        *final(config) == (Config {
            grid_enabled: if effect == ChordEffect::ToggleGrid {
                !old(config).grid_enabled
            } else {
                old(config).grid_enabled
            },
            ..*old(config)
        }),
{
    match effect {
        ChordEffect::CloneInPlace => state.clone_selected(0, 0),
        ChordEffect::CloneAdjacent(d) => {
            let (dx, dy) = state.convex_hull_offset(d, config.point_radius);
            state.clone_selected(dx, dy);
        },
        ChordEffect::SetShape(shape) => state.set_selected_shape(shape),
        ChordEffect::ToggleGrid => {
            config.grid_enabled = !config.grid_enabled;
        },
        ChordEffect::ToggleSnap => {
            state.snap_to_grid = !state.snap_to_grid;
        },
        ChordEffect::Move(d) => {
            let step: i64 = if shift {
                config.move_step_large as i64
            } else {
                config.move_step as i64
            };
            let (ux, uy) = d.unit();
            proof {
                lemma_unit_mul(ux as int, step as int);
                lemma_unit_mul(uy as int, step as int);
            }
            let dx: i64 = if ux > 0 {
                step
            } else if ux < 0 {
                -step
            } else {
                0
            };
            let dy: i64 = if uy > 0 {
                step
            } else if uy < 0 {
                -step
            } else {
                0
            };
            state.move_selected(dx, dy);
            if state.snap_to_grid {
                state.snap_to_grid(config.grid_spacing, config.point_radius);
            }
        },
        ChordEffect::Nothing => {},
    }
}

/// Carries out the single-key command of `key`, if it has one.
fn apply_key_command(state: &mut AppState, key: Key, shift: bool)
    requires
        old(state).wf(),
    ensures
        final(state).wf(),
        final(state)@ == apply_command(old(state)@, key, shift),
{
    match key {
        Key::R => {
            let angle = if shift {
                -ROTATION_STEP
            } else {
                ROTATION_STEP
            };
            state.rotate_selected(angle);
        },
        Key::X => state.delete_selected(),
        Key::B | Key::P => {
            let target = if key == Key::B {
                InteractionMode::BoxSelect
            } else {
                InteractionMode::Paintbrush
            };
            state.interaction_mode = toggle_mode(state.interaction_mode, target);
            state.box_select_start = None;
            state.box_select_end = None;
            state.last_paint_pos = None;
            state.dragging = None;
        },
        Key::Questionmark => {
            state.show_help = !state.show_help;
        },
        _ => {},
    }
}

/// Applies one key press to the editor and says what the program is to do
/// next; see `key_outcome`.
pub fn handle_keyboard(
    state: &mut AppState,
    config: &mut Config,
    key: Key,
    shift: bool,
    ctrl: bool,
) -> (r: Action)
    requires
        old(state).wf(),
        old(config).wf(),
    ensures
        final(state).wf(),
        final(state)@ == key_outcome(old(state)@, *old(config), key, shift, ctrl).0,
        *final(config) == (Config {
            grid_enabled: key_outcome(old(state)@, *old(config), key, shift, ctrl).1,
            ..*old(config)
        }),
        r == key_outcome(old(state)@, *old(config), key, shift, ctrl).2,
{
    if ctrl {
        return match key {
            Key::S => Action::Save,
            Key::O | Key::R => Action::Reload,
            _ => Action::Nothing,
        };
    }
    if state.interaction_mode == InteractionMode::BoxSelect {
        if let Some(d) = key.direction() {
            state.pending_mode = PendingMode::Idle;
            state.expand_selection_box(d, config.point_radius);
            return Action::Nothing;
        }
    }
    let (pending, effect) = pending_step(state.pending_mode, key);
    state.pending_mode = pending;
    apply_chord_effect(state, config, effect, shift);
    apply_key_command(state, key, shift);
    if key == Key::Q || key == Key::Escape {
        Action::Quit
    } else if key == Key::R {
        Action::Save
    } else {
        match effect {
            ChordEffect::CloneInPlace | ChordEffect::CloneAdjacent(_) | ChordEffect::SetShape(
                _,
            ) => Action::Save,
            _ => Action::Nothing,
        }
    }
}

/// Applies the release of a key: letting go of `V` closes an unfinished
/// view chord.
pub fn handle_key_release(state: &mut AppState, key: Key)
    requires
        old(state).wf(),
    ensures
        final(state).wf(),
        final(state)@ == if key == Key::V && old(state).pending_mode == PendingMode::View {
            StateModel { pending_mode: PendingMode::Idle, ..old(state)@ }
        } else {
            old(state)@
        },
{
    if key == Key::V && state.pending_mode == PendingMode::View {
        state.pending_mode = PendingMode::Idle;
    }
}

} // verus!
