//! The editor state: the point store, the selection, the modes, and the edit
//! operations on them.

use crate::geometry::{
    abs, dist_sq, distance_sq, fits_coord, lemma_snap_axis_idempotent, lemma_unit_mul, quantize, quantize_value, snap_axis,
    snap_edge_to_grid, Axis, Direction, Pos, Rect,
};
use crate::persistence::{Point, PointShape};
use crate::selection::{contains_index, dedup, lemma_dedup, Selection};
use vstd::prelude::*;

verus! {

/// The first key of a two-key command, while the second is awaited.
#[derive(Clone, Copy, Debug, PartialEq, Eq, Structural)]
pub enum PendingMode {
    Idle,
    Clone,
    Shape,
    View,
}

/// How pointer input is interpreted.
#[derive(Clone, Copy, Debug, PartialEq, Eq, Structural)]
pub enum InteractionMode {
    Normal,
    BoxSelect,
    Paintbrush,
}

/// Zoom is kept in thousandths, between a tenth and ten times.
pub const MIN_ZOOM: u32 = 100;

pub const MAX_ZOOM: u32 = 10000;

/// No two points share an id.
pub open spec fn ids_unique(pts: Seq<Point>) -> bool {
    forall|i: int, j: int| 0 <= i < j < pts.len() ==> pts[i].id != pts[j].id
}

/// Every id lies below `bound`.
pub open spec fn ids_below(pts: Seq<Point>, bound: int) -> bool {
    forall|i: int| 0 <= i < pts.len() ==> (#[trigger] pts[i]).id < bound
}

/// Whether a marker of radius `r` at `p` is hit by the pointer at `pos`:
/// the distance is below twice the radius.
pub open spec fn is_hit(p: Point, pos: Pos, r: int) -> bool {
    r > 0 && dist_sq(p.x as int, p.y as int, pos.x as int, pos.y as int) < 4 * r * r
}

/// The first point, in store order, that the pointer at `pos` hits.
pub open spec fn first_hit(pts: Seq<Point>, pos: Pos, r: int) -> Option<usize>
    decreases pts.len(),
{
    if pts.len() == 0 {
        None
    } else {
        match first_hit(pts.drop_last(), pos, r) {
            Some(k) => Some(k),
            None => if is_hit(pts.last(), pos, r) {
                Some((pts.len() - 1) as usize)
            } else {
                None
            },
        }
    }
}

proof fn lemma_first_hit_prefix(pts: Seq<Point>, n: int, pos: Pos, r: int)
    requires
        0 <= n <= pts.len(),
        first_hit(pts.take(n), pos, r) is Some,
    ensures
        first_hit(pts, pos, r) == first_hit(pts.take(n), pos, r),
    decreases pts.len(),
{
    if n == pts.len() {
        assert(pts.take(n) =~= pts);
    } else {
        assert(pts.drop_last().take(n) =~= pts.take(n));
        lemma_first_hit_prefix(pts.drop_last(), n, pos, r);
    }
}

/// `pts` with `f` applied to each point whose index `sel` holds.
pub open spec fn update_selected(
    pts: Seq<Point>,
    sel: Seq<usize>,
    f: spec_fn(Point) -> Point,
) -> Seq<Point> {
    Seq::new(pts.len(), |i: int| if sel.contains(i as usize) { f(pts[i]) } else { pts[i] })
}

/// `p` moved by `(dx, dy)`; a point that would leave the coordinate range
/// stays where it is.
pub open spec fn shifted(p: Point, dx: int, dy: int) -> Point {
    if fits_coord(p.x + dx) && fits_coord(p.y + dy) {
        Point { x: (p.x + dx) as i32, y: (p.y + dy) as i32, ..p }
    } else {
        p
    }
}

pub open spec fn shift_by(dx: int, dy: int) -> spec_fn(Point) -> Point {
    |p: Point| shifted(p, dx, dy)
}

/// `p` with each axis snapped by its nearer edge; a point whose snapped
/// position would leave the coordinate range stays where it is.
pub open spec fn snapped(p: Point, spacing: int, r: int) -> Point {
    let sx = snap_axis(p.x as int, spacing, r);
    let sy = snap_axis(p.y as int, spacing, r);
    if fits_coord(sx) && fits_coord(sy) {
        Point { x: sx as i32, y: sy as i32, ..p }
    } else {
        p
    }
}

pub open spec fn snap_by(spacing: int, r: int) -> spec_fn(Point) -> Point {
    |p: Point| snapped(p, spacing, r)
}

pub open spec fn reshape_to(shape: PointShape) -> spec_fn(Point) -> Point {
    |p: Point| Point { shape, ..p }
}

/// `p` turned by `angle` degrees, its rotation kept in `[0, 360)`.
pub open spec fn turned(p: Point, angle: int) -> Point {
    Point { rotation: ((p.rotation + angle) % 360) as i32, ..p }
}

pub open spec fn turn_by(angle: int) -> spec_fn(Point) -> Point {
    |p: Point| turned(p, angle)
}

proof fn lemma_update_selected_step(
    pts: Seq<Point>,
    sel: Seq<usize>,
    k: int,
    f: spec_fn(Point) -> Point,
)
    requires
        sel.no_duplicates(),
        0 <= k < sel.len(),
        sel[k] < pts.len(),
        pts.len() <= usize::MAX,
    ensures
        update_selected(pts, sel.take(k), f)[sel[k] as int] == pts[sel[k] as int],
        update_selected(pts, sel.take(k + 1), f) == update_selected(pts, sel.take(k), f).update(
            sel[k] as int,
            f(pts[sel[k] as int]),
        ),
{
    let before = sel.take(k);
    let after = sel.take(k + 1);
    assert(!before.contains(sel[k])) by {
        if before.contains(sel[k]) {
            let j = choose|j: int| 0 <= j < before.len() && before[j] == sel[k];
            assert(sel[j] == sel[k]);
        }
    }
    assert forall|i: int| 0 <= i < pts.len() && i != sel[k] implies (#[trigger] after.contains(
        i as usize) <==> before.contains(i as usize)) by {
        if after.contains(i as usize) {
            let j = choose|j: int| 0 <= j < after.len() && after[j] == i as usize;
            assert(before[j] == i as usize);
        }
        if before.contains(i as usize) {
            let j = choose|j: int| 0 <= j < before.len() && before[j] == i as usize;
            assert(after[j] == i as usize);
        }
    }
    assert(after[k] == sel[k]);
    assert(update_selected(pts, after, f) =~= update_selected(pts, before, f).update(
        sel[k] as int,
        f(pts[sel[k] as int]),
    ));
}

proof fn lemma_update_selected_all(pts: Seq<Point>, sel: Seq<usize>, f: spec_fn(Point) -> Point)
    requires
        forall|p: Point| (#[trigger] f(p)).id == p.id,
    ensures
        sel.take(sel.len() as int) == sel,
        update_selected(pts, sel, f).len() == pts.len(),
        forall|i: int| 0 <= i < pts.len() ==> (#[trigger] update_selected(pts, sel, f)[i]).id == pts[i].id,
{
    assert(sel.take(sel.len() as int) =~= sel);
    assert forall|i: int| 0 <= i < pts.len() implies (#[trigger] update_selected(pts, sel, f)[i]).id
        == pts[i].id by {
        assert(f(pts[i]).id == pts[i].id);
    }
}

/// A copy of `p` under the id `id`, moved by `(dx, dy)`.
pub open spec fn clone_of(p: Point, id: int, dx: int, dy: int) -> Point {
    Point { id: id as u64, x: (p.x + dx) as i32, y: (p.y + dy) as i32, ..p }
}

/// The copies that cloning the points at `sel` creates, ids counting up
/// from `first_id`.
pub open spec fn clones(
    pts: Seq<Point>,
    sel: Seq<usize>,
    first_id: int,
    dx: int,
    dy: int,
) -> Seq<Point> {
    Seq::new(sel.len(), |j: int| clone_of(pts[sel[j] as int], first_id + j, dx, dy))
}

/// The indices `start, start + 1, ..., start + len - 1`.
pub open spec fn index_range(start: int, len: int) -> Seq<usize> {
    Seq::new(len as nat, |j: int| (start + j) as usize)
}

/// `pts` without the points whose indices `sel` holds, in the same order.
pub open spec fn without_indices(pts: Seq<Point>, sel: Seq<usize>) -> Seq<Point>
    decreases pts.len(),
{
    if pts.len() == 0 {
        pts
    } else {
        let rest = without_indices(pts.drop_last(), sel);
        if sel.contains((pts.len() - 1) as usize) {
            rest
        } else {
            rest.push(pts.last())
        }
    }
}

/// The point at `m` has the greatest id in `pts`.
pub open spec fn is_max_id_at(pts: Seq<Point>, m: int) -> bool {
    &&& 0 <= m < pts.len()
    &&& forall|j: int| 0 <= j < pts.len() ==> (#[trigger] pts[j]).id <= pts[m].id
}

/// With distinct ids, one index at most holds the greatest id.
pub proof fn lemma_max_id_unique(pts: Seq<Point>, a: int, b: int)
    requires
        ids_unique(pts),
        is_max_id_at(pts, a),
        is_max_id_at(pts, b),
    ensures
        a == b,
{
    assert(pts[a].id <= pts[b].id && pts[b].id <= pts[a].id);
}

/// Whether a marker of radius `r` at `p` lies wholly in `rect`: the corners
/// of its bounding square for circles and squares, its four tips for
/// diamonds and semicircles.
pub open spec fn in_box(p: Point, rect: Rect, r: int) -> bool {
    let x = p.x as int;
    let y = p.y as int;
    match p.shape {
        PointShape::Circle | PointShape::Square => {
            &&& rect.holds(x - r, y - r)
            &&& rect.holds(x + r, y + r)
            &&& rect.holds(x - r, y + r)
            &&& rect.holds(x + r, y - r)
        },
        PointShape::Diamond | PointShape::Semicircle => {
            &&& rect.holds(x, y - r)
            &&& rect.holds(x + r, y)
            &&& rect.holds(x, y + r)
            &&& rect.holds(x - r, y)
        },
    }
}

/// The indices, in store order, of the points that lie wholly in `rect`.
pub open spec fn box_hits(pts: Seq<Point>, rect: Rect, r: int) -> Seq<usize>
    decreases pts.len(),
{
    if pts.len() == 0 {
        Seq::empty()
    } else {
        let rest = box_hits(pts.drop_last(), rect, r);
        if in_box(pts.last(), rect, r) {
            rest.push((pts.len() - 1) as usize)
        } else {
            rest
        }
    }
}

/// The coordinate of `p` along `axis`.
pub open spec fn coord(p: Point, axis: Axis) -> int {
    match axis {
        Axis::X => p.x as int,
        Axis::Y => p.y as int,
    }
}

/// The smallest coordinate along `axis` among the points at `idx`.
pub open spec fn min_coord(pts: Seq<Point>, idx: Seq<usize>, axis: Axis) -> int
    decreases idx.len(),
{
    if idx.len() <= 1 {
        coord(pts[idx[0] as int], axis)
    } else {
        let m = min_coord(pts, idx.drop_last(), axis);
        let c = coord(pts[idx.last() as int], axis);
        if c < m {
            c
        } else {
            m
        }
    }
}

/// The greatest coordinate along `axis` among the points at `idx`.
pub open spec fn max_coord(pts: Seq<Point>, idx: Seq<usize>, axis: Axis) -> int
    decreases idx.len(),
{
    if idx.len() <= 1 {
        coord(pts[idx[0] as int], axis)
    } else {
        let m = max_coord(pts, idx.drop_last(), axis);
        let c = coord(pts[idx.last() as int], axis);
        if c > m {
            c
        } else {
            m
        }
    }
}

/// The position probed from `p` when the selection grows towards `dir`: two
/// radii away.
pub open spec fn probe(p: Point, dir: Direction, r: int) -> (int, int) {
    (p.x + dir.dx() * (2 * r), p.y + dir.dy() * (2 * r))
}

/// Whether `q` lies within two and a half radii of `(px, py)`.
pub open spec fn is_near(q: Point, px: int, py: int, r: int) -> bool {
    4 * dist_sq(q.x as int, q.y as int, px, py) < 25 * r * r
}

/// The indices, in store order, of the points near `(px, py)`.
pub open spec fn near_indices(pts: Seq<Point>, px: int, py: int, r: int) -> Seq<usize>
    decreases pts.len(),
{
    if pts.len() == 0 {
        Seq::empty()
    } else {
        let rest = near_indices(pts.drop_last(), px, py, r);
        if is_near(pts.last(), px, py, r) {
            rest.push((pts.len() - 1) as usize)
        } else {
            rest
        }
    }
}

/// For each index of `cur` in turn, the points near its probe.
pub open spec fn candidates(pts: Seq<Point>, cur: Seq<usize>, dir: Direction, r: int) -> Seq<
    usize,
>
    decreases cur.len(),
{
    if cur.len() == 0 {
        Seq::empty()
    } else {
        let (px, py) = probe(pts[cur.last() as int], dir, r);
        candidates(pts, cur.drop_last(), dir, r) + near_indices(pts, px, py, r)
    }
}

proof fn lemma_filter_prefix_bounds(s: Seq<usize>, n: int)
    requires
        forall|a: int, b: int| 0 <= a < b < s.len() ==> s[a] < s[b],
        forall|a: int| 0 <= a < s.len() ==> s[a] < n,
    ensures
        s.no_duplicates(),
{
}

proof fn lemma_coord_bounds(pts: Seq<Point>, idx: Seq<usize>, axis: Axis)
    requires
        idx.len() > 0,
        forall|k: int| 0 <= k < idx.len() ==> idx[k] < pts.len(),
    ensures
        i32::MIN <= min_coord(pts, idx, axis) <= max_coord(pts, idx, axis) <= i32::MAX,
    decreases idx.len(),
{
    if idx.len() > 1 {
        lemma_coord_bounds(pts, idx.drop_last(), axis);
    }
}

/// The pointer at a point's own position always hits a point, for any
/// positive radius: the distance there is zero.
pub proof fn lemma_hit_at_own_position(pts: Seq<Point>, i: int, r: int)
    requires
        0 <= i < pts.len(),
        r > 0,
    ensures
        first_hit(pts, Pos { x: pts[i].x, y: pts[i].y }, r) is Some,
    decreases pts.len(),
{
    let pos = Pos { x: pts[i].x, y: pts[i].y };
    assert(4 * r * r > 0) by (nonlinear_arith)
        requires
            r > 0,
    ;
    if i < pts.len() - 1 {
        assert(pts.drop_last()[i] == pts[i]);
        lemma_hit_at_own_position(pts.drop_last(), i, r);
    } else {
        assert(pts.last() == pts[i]);
        assert(dist_sq(pts[i].x as int, pts[i].y as int, pos.x as int, pos.y as int) == 0);
        assert(is_hit(pts.last(), pos, r));
    }
}

/// Snapping the selection to the grid a second time changes nothing.
pub proof fn lemma_snap_twice(m: StateModel, spacing: int, r: int)
    requires
        spacing > 0,
    ensures
        m.snapped(spacing, r).snapped(spacing, r) == m.snapped(spacing, r),
{
    let once = m.snapped(spacing, r);
    let twice = once.snapped(spacing, r);
    assert forall|i: int| 0 <= i < m.points.len() implies #[trigger] twice.points[i]
        == once.points[i] by {
        let p = m.points[i];
        lemma_snap_axis_idempotent(p.x as int, spacing, r);
        lemma_snap_axis_idempotent(p.y as int, spacing, r);
    }
    assert(twice.points =~= once.points);
}

/// The state as mathematics: the store as a sequence and the selection as
/// its indices in iteration order.
pub struct StateModel {
    pub points: Seq<Point>,
    pub selected: Seq<usize>,
    pub dragging: Option<usize>,
    pub pending_mode: PendingMode,
    pub interaction_mode: InteractionMode,
    pub show_help: bool,
    pub next_id: u64,
    pub box_select_start: Option<Pos>,
    pub box_select_end: Option<Pos>,
    pub snap_to_grid: bool,
    pub zoom_milli: u32,
    pub last_paint_pos: Option<Pos>,
}

impl StateModel {
    pub open spec fn wf(self) -> bool {
        &&& ids_unique(self.points)
        &&& ids_below(self.points, self.next_id as int)
        &&& self.selected.no_duplicates()
        &&& forall|k: int|
            0 <= k < self.selected.len() ==> (#[trigger] self.selected[k]) < self.points.len()
        &&& (self.dragging matches Some(d) ==> d < self.points.len())
        &&& MIN_ZOOM <= self.zoom_milli <= MAX_ZOOM
    }

    /// Cloning by `(dx, dy)` keeps ids within `u64`, indices within `usize`
    /// and every copy within the coordinate range.
    pub open spec fn can_clone(self, dx: int, dy: int) -> bool {
        &&& self.next_id + self.selected.len() <= u64::MAX
        &&& self.points.len() + self.selected.len() <= usize::MAX
        &&& forall|j: int|
            0 <= j < self.selected.len() ==> {
                let p = #[trigger] self.points[self.selected[j] as int];
                fits_coord(p.x + dx) && fits_coord(p.y + dy)
            }
    }

    /// The selected points copied by `(dx, dy)` with fresh ids and appended;
    /// the copies become the selection. Nothing changes where the copies
    /// cannot be made.
    pub open spec fn cloned(self, dx: int, dy: int) -> StateModel {
        if self.can_clone(dx, dy) {
            StateModel {
                points: self.points + clones(
                    self.points,
                    self.selected,
                    self.next_id as int,
                    dx,
                    dy,
                ),
                selected: index_range(self.points.len() as int, self.selected.len() as int),
                next_id: (self.next_id + self.selected.len()) as u64,
                ..self
            }
        } else {
            self
        }
    }

    /// The selected points removed; the point with the greatest id left
    /// becomes the selection. Nothing changes when nothing is selected.
    pub open spec fn deleted(self) -> StateModel {
        if self.selected.len() == 0 {
            self
        } else {
            let rest = without_indices(self.points, self.selected);
            StateModel {
                points: rest,
                selected: if rest.len() == 0 {
                    Seq::<usize>::empty()
                } else {
                    seq![(choose|m: int| is_max_id_at(rest, m)) as usize]
                },
                dragging: None,
                ..self
            }
        }
    }

    /// The selection replaced by the points lying wholly in `rect`.
    pub open spec fn box_selected(self, rect: Rect, r: int) -> StateModel {
        StateModel { selected: box_hits(self.points, rect, r), ..self }
    }

    /// The offset that places a clone of the selection just past its bounds
    /// towards `dir`: the selection's extent along that axis, radii included.
    pub open spec fn hull_offset(self, dir: Direction, r: int) -> (int, int) {
        if self.selected.len() == 0 {
            (0, 0)
        } else if dir.dx() != 0 {
            let ext = max_coord(self.points, self.selected, Axis::X) + r - (min_coord(
                self.points,
                self.selected,
                Axis::X,
            ) - r);
            (dir.dx() * ext, 0)
        } else {
            let ext = max_coord(self.points, self.selected, Axis::Y) + r - (min_coord(
                self.points,
                self.selected,
                Axis::Y,
            ) - r);
            (0, dir.dy() * ext)
        }
    }

    /// The selection grown by the points near the probe of each selected
    /// point, in order of discovery, each once.
    pub open spec fn expanded(self, dir: Direction, r: int) -> StateModel {
        if self.selected.len() == 0 {
            self
        } else {
            StateModel {
                selected: dedup(
                    self.selected + candidates(self.points, self.selected, dir, r),
                ),
                ..self
            }
        }
    }

    /// The shape a new painted point takes: that of the first selected point,
    /// or a circle.
    pub open spec fn paint_shape(self) -> PointShape {
        if self.selected.len() > 0 {
            self.points[self.selected[0] as int].shape
        } else {
            PointShape::Circle
        }
    }

    /// Whether a stamp at `(qx, qy)` falls within twice `r` of the last one on
    /// both axes.
    pub open spec fn too_close(self, qx: int, qy: int, r: int) -> bool {
        match self.last_paint_pos {
            Some(last) => abs(qx - last.x) < 2 * r && abs(qy - last.y) < 2 * r,
            None => false,
        }
    }

    /// A new point stamped at `pos` rounded to `step`, snapped to the grid
    /// when `snap` holds; the selection is left alone. Nothing is stamped too
    /// close to the last stamp, outside the coordinate range, or when ids
    /// have run out.
    pub open spec fn painted(
        self,
        pos: Pos,
        r: int,
        step: int,
        spacing: int,
        snap: bool,
    ) -> StateModel {
        let qx = quantize(pos.x as int, step);
        let qy = quantize(pos.y as int, step);
        if self.too_close(qx, qy, r) || !fits_coord(qx) || !fits_coord(qy) || self.next_id
            == u64::MAX {
            self
        } else {
            let p = Point {
                id: self.next_id,
                x: qx as i32,
                y: qy as i32,
                shape: self.paint_shape(),
                rotation: 0,
            };
            StateModel {
                points: self.points.push(
                    if snap {
                        snapped(p, spacing, r)
                    } else {
                        p
                    },
                ),
                next_id: (self.next_id + 1) as u64,
                last_paint_pos: Some(Pos { x: qx as i32, y: qy as i32 }),
                ..self
            }
        }
    }

    /// The zoom moved by `delta` thousandths and held within its bounds.
    pub open spec fn zoomed(self, delta: int) -> StateModel {
        let z = self.zoom_milli + delta;
        StateModel {
            zoom_milli: (if z < MIN_ZOOM {
                MIN_ZOOM as int
            } else if z > MAX_ZOOM {
                MAX_ZOOM as int
            } else {
                z
            }) as u32,
            ..self
        }
    }

    pub open spec fn with_points(self, points: Seq<Point>) -> StateModel {
        StateModel { points, ..self }
    }

    /// Each selected point moved by `(dx, dy)`.
    pub open spec fn moved(self, dx: int, dy: int) -> StateModel {
        self.with_points(update_selected(self.points, self.selected, shift_by(dx, dy)))
    }

    /// Each selected point snapped to the grid by its nearer edges.
    pub open spec fn snapped(self, spacing: int, r: int) -> StateModel {
        self.with_points(update_selected(self.points, self.selected, snap_by(spacing, r)))
    }

    /// Each selected point given `shape`.
    pub open spec fn reshaped(self, shape: PointShape) -> StateModel {
        self.with_points(update_selected(self.points, self.selected, reshape_to(shape)))
    }

    /// Each selected point turned by `angle` degrees.
    pub open spec fn rotated(self, angle: int) -> StateModel {
        self.with_points(update_selected(self.points, self.selected, turn_by(angle)))
    }
}

/// The whole editor state, owned by the program and changed one event at a
/// time.
pub struct AppState {
    pub points: Vec<Point>,
    pub selection: Selection,
    pub dragging: Option<usize>,
    pub pending_mode: PendingMode,
    pub interaction_mode: InteractionMode,
    pub show_help: bool,
    pub next_id: u64,
    pub box_select_start: Option<Pos>,
    pub box_select_end: Option<Pos>,
    pub snap_to_grid: bool,
    pub zoom_milli: u32,
    pub last_paint_pos: Option<Pos>,
}

impl View for AppState {
    type V = StateModel;

    open spec fn view(&self) -> StateModel {
        StateModel {
            points: self.points@,
            selected: self.selection.indices(),
            dragging: self.dragging,
            pending_mode: self.pending_mode,
            interaction_mode: self.interaction_mode,
            show_help: self.show_help,
            next_id: self.next_id,
            box_select_start: self.box_select_start,
            box_select_end: self.box_select_end,
            snap_to_grid: self.snap_to_grid,
            zoom_milli: self.zoom_milli,
            last_paint_pos: self.last_paint_pos,
        }
    }
}

/// Ids that a store can start from: distinct, and each leaving room for a
/// next id.
pub open spec fn valid_ids(pts: Seq<Point>) -> bool {
    ids_unique(pts) && ids_below(pts, u64::MAX as int)
}

impl AppState {
    /// The invariant: the model is well formed and the selection collapsed.
    pub open spec fn wf(&self) -> bool {
        self@.wf() && self.selection.collapsed()
    }

    /// Whether `points` may seed a store: ids distinct and below `u64::MAX`.
    pub fn ids_valid(points: &Vec<Point>) -> (r: bool)
        ensures
            r == valid_ids(points@),
    {
        let mut i: usize = 0;
        while i < points.len()
            invariant
                0 <= i <= points.len(),
                valid_ids(points@.take(i as int)),
            decreases points.len() - i,
        {
            if points[i].id == u64::MAX {
                assert(!ids_below(points@, u64::MAX as int)) by {
                    assert(points@[i as int].id == u64::MAX);
                }
                return false;
            }
            let mut j: usize = 0;
            while j < i
                invariant
                    0 <= j <= i < points.len(),
                    forall|k: int| 0 <= k < j ==> points@[k].id != points@[i as int].id,
                decreases i - j,
            {
                if points[j].id == points[i].id {
                    return false;
                }
                j += 1;
            }
            assert(valid_ids(points@.take(i + 1)));
            i += 1;
        }
        assert(points@.take(points.len() as int) =~= points@);
        true
    }

    /// A state over `points`, selecting the first point if there is one.
    pub fn new(points: Vec<Point>) -> (r: AppState)
        requires
            valid_ids(points@),
        ensures
            r.wf(),
            r.points@ == points@,
            r.selection.indices() == (if points@.len() == 0 {
                Seq::<usize>::empty()
            } else {
                seq![0usize]
            }),
            forall|i: int| 0 <= i < points@.len() ==> points@[i].id < r.next_id,
            points@.len() == 0 ==> r.next_id == 1,
            points@.len() > 0 ==> exists|i: int|
                0 <= i < points@.len() && r.next_id == points@[i].id + 1,
            r.dragging == None::<usize>,
            r.pending_mode == PendingMode::Idle,
            r.interaction_mode == InteractionMode::Normal,
            !r.show_help,
            r.box_select_start == None::<Pos>,
            r.box_select_end == None::<Pos>,
            !r.snap_to_grid,
            r.zoom_milli == 1000,
            r.last_paint_pos == None::<Pos>,
    {
        let mut max_id: u64 = 0;
        let mut i: usize = 0;
        while i < points.len()
            invariant
                0 <= i <= points.len(),
                valid_ids(points@),
                max_id < u64::MAX,
                forall|k: int| 0 <= k < i ==> points@[k].id <= max_id,
                i == 0 ==> max_id == 0,
                i > 0 ==> exists|k: int| 0 <= k < i && points@[k].id == max_id,
            decreases points.len() - i,
        {
            if points[i].id > max_id || i == 0 {
                max_id = points[i].id;
            }
            i += 1;
        }
        let selection = if points.len() == 0 {
            Selection::Empty
        } else {
            Selection::Single(0)
        };
        AppState {
            points,
            selection,
            dragging: None,
            pending_mode: PendingMode::Idle,
            interaction_mode: InteractionMode::Normal,
            show_help: false,
            next_id: max_id + 1,
            box_select_start: None,
            box_select_end: None,
            snap_to_grid: false,
            zoom_milli: 1000,
            last_paint_pos: None,
        }
    }

    /// The first point, in store order, within twice `radius` of `pos`.
    pub fn point_at_pos(&self, pos: Pos, radius: i32) -> (r: Option<usize>)
        ensures
            r == first_hit(self.points@, pos, radius as int),
    {
        let mut i: usize = 0;
        while i < self.points.len()
            invariant
                0 <= i <= self.points.len(),
                first_hit(self.points@.take(i as int), pos, radius as int) == None::<usize>,
            decreases self.points.len() - i,
        {
            let p = self.points[i];
            assert(self.points@.take(i + 1).drop_last() =~= self.points@.take(i as int));
            if radius > 0 {
                let d = distance_sq(p.x as i64, p.y as i64, pos.x as i64, pos.y as i64);
                assert(0 <= radius * radius <= 0x1_0000_0000 * 0x1_0000_0000) by (nonlinear_arith)
                    requires
                        0 < radius <= i32::MAX,
                ;
                let r2: i128 = radius as i128 * radius as i128;
                assert(4 * r2 == 4 * radius * radius) by (nonlinear_arith)
                    requires
                        r2 == radius * radius,
                ;
                assert(self.points@.take(i + 1).last() == p);
                if d < 4 * r2 {
                    proof {
                        lemma_first_hit_prefix(self.points@, i + 1, pos, radius as int);
                    }
                    return Some(i);
                }
            }
            i += 1;
        }
        assert(self.points@.take(self.points.len() as int) =~= self.points@);
        None
    }

    /// The selected indices, in iteration order.
    pub fn selected_indices(&self) -> (r: Vec<usize>)
        ensures
            r@ == self.selection.indices(),
    {
        match &self.selection {
            Selection::Empty => Vec::new(),
            Selection::Single(idx) => vec![*idx],
            Selection::Multiple(indices) => {
                let mut out: Vec<usize> = Vec::new();
                let mut k: usize = 0;
                while k < indices.len()
                    invariant
                        0 <= k <= indices.len(),
                        out@ == indices@.take(k as int),
                    decreases indices.len() - k,
                {
                    out.push(indices[k]);
                    assert(out@ =~= indices@.take(k + 1));
                    k += 1;
                }
                assert(indices@.take(indices.len() as int) =~= indices@);
                out
            },
        }
    }

    /// Adds `(dx, dy)` to every selected point. A point that would leave the
    /// coordinate range stays where it is.
    pub fn move_selected(&mut self, dx: i64, dy: i64)
        requires
            old(self).wf(),
        ensures
            final(self).wf(),
            final(self)@ == old(self)@.moved(dx as int, dy as int),
            final(self).selection == old(self).selection,
    {
        let indices = self.selected_indices();
        let ghost f = shift_by(dx as int, dy as int);
        let n = self.points.len();
        let mut k: usize = 0;
        assert(update_selected(old(self).points@, indices@.take(0), f) =~= old(self).points@);
        while k < indices.len()
            invariant
                0 <= k <= indices.len(),
                old(self).points@.len() == n,
                f == shift_by(dx as int, dy as int),
                indices@ == old(self).selection.indices(),
                old(self).wf(),
                self@ == old(self)@.with_points(
                    update_selected(old(self).points@, indices@.take(k as int), f),
                ),
                self.selection == old(self).selection,
            decreases indices.len() - k,
        {
            let idx = indices[k];
            proof {
                lemma_update_selected_step(old(self).points@, indices@, k as int, f);
            }
            let mut p = self.points[idx];
            let nx: i128 = p.x as i128 + dx as i128;
            let ny: i128 = p.y as i128 + dy as i128;
            if i32::MIN as i128 <= nx && nx <= i32::MAX as i128 && i32::MIN as i128 <= ny && ny
                <= i32::MAX as i128 {
                p.x = nx as i32;
                p.y = ny as i32;
            }
            assert(p == shifted(old(self).points@[idx as int], dx as int, dy as int));
            assert(f == shift_by(dx as int, dy as int));
            assert(shift_by(dx as int, dy as int)(p) == shifted(p, dx as int, dy as int));
            assert(p == f(old(self).points@[idx as int]));
            self.points.set(idx, p);
            assert(self.points@ =~= update_selected(old(self).points@, indices@.take(k + 1), f));
            k += 1;
        }
        proof {
            lemma_update_selected_all(old(self).points@, indices@, f);
        }
    }

    /// The multiple of `step` nearest to `pos`, halves away from zero.
    pub fn quantize_position(pos: i64, step: i64) -> (r: i64)
        requires
            crate::geometry::in_edge_range(pos as int),
            0 < step <= i32::MAX,
        ensures
            r == quantize(pos as int, step as int),
            2 * abs(r - pos) <= step,
    {
        quantize_value(pos, step)
    }

    /// Snaps every selected point to the grid by its nearer edges. A point
    /// whose snapped position would leave the coordinate range stays where it
    /// is.
    pub fn snap_to_grid(&mut self, grid_spacing: i32, radius: i32)
        requires
            old(self).wf(),
            grid_spacing > 0,
        ensures
            final(self).wf(),
            final(self)@ == old(self)@.snapped(grid_spacing as int, radius as int),
            final(self).selection == old(self).selection,
    {
        let indices = self.selected_indices();
        let ghost f = snap_by(grid_spacing as int, radius as int);
        let n = self.points.len();
        let mut k: usize = 0;
        assert(update_selected(old(self).points@, indices@.take(0), f) =~= old(self).points@);
        while k < indices.len()
            invariant
                0 <= k <= indices.len(),
                old(self).points@.len() == n,
                f == snap_by(grid_spacing as int, radius as int),
                grid_spacing > 0,
                indices@ == old(self).selection.indices(),
                old(self).wf(),
                self@ == old(self)@.with_points(
                    update_selected(old(self).points@, indices@.take(k as int), f),
                ),
                self.selection == old(self).selection,
            decreases indices.len() - k,
        {
            let idx = indices[k];
            proof {
                lemma_update_selected_step(old(self).points@, indices@, k as int, f);
            }
            let mut p = self.points[idx];
            let sx = snap_edge_to_grid(p.x, grid_spacing, radius);
            let sy = snap_edge_to_grid(p.y, grid_spacing, radius);
            if i32::MIN as i64 <= sx && sx <= i32::MAX as i64 && i32::MIN as i64 <= sy && sy
                <= i32::MAX as i64 {
                p.x = sx as i32;
                p.y = sy as i32;
            }
            self.points.set(idx, p);
            assert(self.points@ =~= update_selected(old(self).points@, indices@.take(k + 1), f));
            k += 1;
        }
        proof {
            lemma_update_selected_all(old(self).points@, indices@, f);
        }
    }

    /// Gives every selected point `shape`.
    pub fn set_selected_shape(&mut self, shape: PointShape)
        requires
            old(self).wf(),
        ensures
            final(self).wf(),
            final(self)@ == old(self)@.reshaped(shape),
            final(self).selection == old(self).selection,
    {
        let indices = self.selected_indices();
        let ghost f = reshape_to(shape);
        let n = self.points.len();
        let mut k: usize = 0;
        assert(update_selected(old(self).points@, indices@.take(0), f) =~= old(self).points@);
        while k < indices.len()
            invariant
                0 <= k <= indices.len(),
                old(self).points@.len() == n,
                f == reshape_to(shape),
                indices@ == old(self).selection.indices(),
                old(self).wf(),
                self@ == old(self)@.with_points(
                    update_selected(old(self).points@, indices@.take(k as int), f),
                ),
                self.selection == old(self).selection,
            decreases indices.len() - k,
        {
            let idx = indices[k];
            proof {
                lemma_update_selected_step(old(self).points@, indices@, k as int, f);
            }
            let mut p = self.points[idx];
            p.shape = shape;
            self.points.set(idx, p);
            assert(self.points@ =~= update_selected(old(self).points@, indices@.take(k + 1), f));
            k += 1;
        }
        proof {
            lemma_update_selected_all(old(self).points@, indices@, f);
        }
    }

    /// Turns every selected point by `angle` degrees, clockwise for a
    /// positive angle; rotations are kept in `[0, 360)`.
    pub fn rotate_selected(&mut self, angle: i32)
        requires
            old(self).wf(),
        ensures
            final(self).wf(),
            final(self)@ == old(self)@.rotated(angle as int),
            final(self).selection == old(self).selection,
    {
        let indices = self.selected_indices();
        let ghost f = turn_by(angle as int);
        let n = self.points.len();
        let mut k: usize = 0;
        assert(update_selected(old(self).points@, indices@.take(0), f) =~= old(self).points@);
        while k < indices.len()
            invariant
                0 <= k <= indices.len(),
                old(self).points@.len() == n,
                f == turn_by(angle as int),
                indices@ == old(self).selection.indices(),
                old(self).wf(),
                self@ == old(self)@.with_points(
                    update_selected(old(self).points@, indices@.take(k as int), f),
                ),
                self.selection == old(self).selection,
            decreases indices.len() - k,
        {
            let idx = indices[k];
            proof {
                lemma_update_selected_step(old(self).points@, indices@, k as int, f);
            }
            let mut p = self.points[idx];
            let sum: i64 = p.rotation as i64 + angle as i64;
            let rem: i64 = sum % 360;
            p.rotation = if rem < 0 {
                (rem + 360) as i32
            } else {
                rem as i32
            };
            self.points.set(idx, p);
            assert(self.points@ =~= update_selected(old(self).points@, indices@.take(k + 1), f));
            k += 1;
        }
        proof {
            lemma_update_selected_all(old(self).points@, indices@, f);
        }
    }

    /// Copies every selected point by `(dx, dy)` under fresh ids, in
    /// selection order, appends the copies and selects them.
    pub fn clone_selected(&mut self, dx: i64, dy: i64)
        requires
            old(self).wf(),
        ensures
            final(self).wf(),
            final(self)@ == old(self)@.cloned(dx as int, dy as int),
            forall|i: int, j: int|
                0 <= i < old(self).points@.len() <= j < final(self).points@.len()
                    ==> final(self).points@[j].id > old(self).points@[i].id,
            final(self).selection.indices().len() == old(self).selection.indices().len(),
    {
        let indices = self.selected_indices();
        let k = indices.len();
        let n = self.points.len();
        if self.next_id as u128 + k as u128 > u64::MAX as u128 || k > usize::MAX - n {
            return;
        }
        let mut j: usize = 0;
        while j < k
            invariant
                0 <= j <= k == indices@.len(),
                indices@ == old(self).selection.indices(),
                self == old(self),
                old(self).wf(),
                forall|t: int|
                    0 <= t < j ==> {
                        let p = #[trigger] old(self).points@[indices@[t] as int];
                        fits_coord(p.x + dx) && fits_coord(p.y + dy)
                    },
            decreases k - j,
        {
            let p = self.points[indices[j]];
            let nx: i128 = p.x as i128 + dx as i128;
            let ny: i128 = p.y as i128 + dy as i128;
            if nx < i32::MIN as i128 || nx > i32::MAX as i128 || ny < i32::MIN as i128 || ny
                > i32::MAX as i128 {
                return;
            }
            j += 1;
        }
        let ghost new_points = clones(
            old(self).points@,
            indices@,
            old(self).next_id as int,
            dx as int,
            dy as int,
        );
        let mut j: usize = 0;
        while j < k
            invariant
                0 <= j <= k == indices@.len(),
                indices@ == old(self).selection.indices(),
                old(self).wf(),
                old(self)@.can_clone(dx as int, dy as int),
                n == old(self).points@.len(),
                new_points == clones(
                    old(self).points@,
                    indices@,
                    old(self).next_id as int,
                    dx as int,
                    dy as int,
                ),
                self.points@ == old(self).points@ + new_points.take(j as int),
                self.next_id == old(self).next_id + j,
                self@ == (StateModel {
                    points: self.points@,
                    next_id: self.next_id,
                    ..old(self)@
                }),
                self.selection == old(self).selection,
            decreases k - j,
        {
            let p = self.points[indices[j]];
            assert(self.points@[indices@[j as int] as int] == old(self).points@[indices@[j as int] as int]);
            let c = Point { id: self.next_id, x: (p.x as i64 + dx) as i32, y: (p.y as i64 + dy) as i32, ..p };
            assert(c == new_points[j as int]);
            self.points.push(c);
            self.next_id = self.next_id + 1;
            assert(self.points@ =~= old(self).points@ + new_points.take(j + 1));
            j += 1;
        }
        assert(new_points.take(k as int) =~= new_points);
        let mut range: Vec<usize> = Vec::new();
        let mut j: usize = 0;
        while j < k
            invariant
                0 <= j <= k,
                n + k <= usize::MAX,
                range@ == index_range(n as int, j as int),
            decreases k - j,
        {
            range.push(n + j);
            assert(range@ =~= index_range(n as int, j + 1));
            j += 1;
        }
        self.selection = if k == 0 {
            assert(range@ =~= Seq::<usize>::empty());
            Selection::Empty
        } else if k == 1 {
            assert(index_range(n as int, 1) =~= seq![n]);
            Selection::Single(n)
        } else {
            Selection::Multiple(range)
        };
        assert(self@.selected =~= index_range(n as int, k as int));
        assert(self@ =~= old(self)@.cloned(dx as int, dy as int));
        assert forall|a: int| 0 <= a < index_range(n as int, k as int).len() implies #[trigger] index_range(n as int, k as int)[a] < self.points@.len() by {}
        assert(index_range(n as int, k as int).no_duplicates());
    }

    /// Removes the selected points. The point with the greatest id that is
    /// left becomes the selection; with none left the selection is empty.
    pub fn delete_selected(&mut self)
        requires
            old(self).wf(),
        ensures
            final(self).wf(),
            final(self)@ == old(self)@.deleted(),
            old(self).selection.indices().len() > 0 ==> {
                &&& final(self).points@.len() == 0 ==> final(self).selection is Empty
                &&& final(self).points@.len() > 0 ==> (final(self).selection matches Selection::Single(m)
                    && is_max_id_at(final(self).points@, m as int))
            },
    {
        let indices = self.selected_indices();
        if indices.len() == 0 {
            return;
        }
        let ghost pts = old(self).points@;
        let mut kept: Vec<Point> = Vec::new();
        let mut i: usize = 0;
        while i < self.points.len()
            invariant
                0 <= i <= self.points.len(),
                self == old(self),
                pts == self.points@,
                indices@ == old(self).selection.indices(),
                old(self).wf(),
                kept@ == without_indices(pts.take(i as int), indices@),
                ids_unique(kept@),
                ids_below(kept@, self.next_id as int),
                forall|a: int, b: int|
                    0 <= a < kept@.len() && i <= b < pts.len() ==> kept@[a].id != pts[b].id,
            decreases self.points.len() - i,
        {
            assert(pts.take(i + 1).drop_last() =~= pts.take(i as int));
            if !contains_index(&indices, i) {
                kept.push(self.points[i]);
            }
            i += 1;
        }
        assert(pts.take(pts.len() as int) =~= pts);
        self.points = kept;
        self.dragging = None;
        if self.points.len() == 0 {
            self.selection = Selection::Empty;
        } else {
            let mut best: usize = 0;
            let mut i: usize = 1;
            while i < self.points.len()
                invariant
                    0 < self.points.len(),
                    0 <= best < i <= self.points.len(),
                    forall|j: int| 0 <= j < i ==> self.points@[j].id <= self.points@[best as int].id,
                decreases self.points.len() - i,
            {
                if self.points[i].id > self.points[best].id {
                    best = i;
                }
                i += 1;
            }
            proof {
                let rest = self.points@;
                assert(is_max_id_at(rest, best as int));
                let c = choose|m: int| is_max_id_at(rest, m);
                lemma_max_id_unique(rest, best as int, c);
            }
            self.selection = Selection::Single(best);
        }
        assert(self@ =~= old(self)@.deleted());
    }

    /// Whether the marker at `idx` lies wholly in `rect`.
    pub fn point_in_box(&self, idx: usize, rect: Rect, radius: i32) -> (r: bool)
        requires
            idx < self.points@.len(),
        ensures
            r == in_box(self.points@[idx as int], rect, radius as int),
    {
        let p = self.points[idx];
        let x = p.x as i64;
        let y = p.y as i64;
        let r = radius as i64;
        match p.shape {
            PointShape::Circle | PointShape::Square => {
                rect.contains(x - r, y - r) && rect.contains(x + r, y + r) && rect.contains(
                    x - r,
                    y + r,
                ) && rect.contains(x + r, y - r)
            },
            PointShape::Diamond | PointShape::Semicircle => {
                rect.contains(x, y - r) && rect.contains(x + r, y) && rect.contains(x, y + r)
                    && rect.contains(x - r, y)
            },
        }
    }

    /// Selects exactly the points lying wholly in `rect`.
    pub fn select_in_box(&mut self, rect: Rect, radius: i32)
        requires
            old(self).wf(),
        ensures
            final(self).wf(),
            final(self)@ == old(self)@.box_selected(rect, radius as int),
    {
        let ghost pts = self.points@;
        let mut selected: Vec<usize> = Vec::new();
        let mut i: usize = 0;
        while i < self.points.len()
            invariant
                0 <= i <= self.points.len(),
                self == old(self),
                pts == self.points@,
                selected@ == box_hits(pts.take(i as int), rect, radius as int),
                forall|a: int, b: int|
                    0 <= a < b < selected@.len() ==> selected@[a] < selected@[b],
                forall|a: int| 0 <= a < selected@.len() ==> selected@[a] < i,
            decreases self.points.len() - i,
        {
            assert(pts.take(i + 1).drop_last() =~= pts.take(i as int));
            if self.point_in_box(i, rect, radius) {
                selected.push(i);
            }
            i += 1;
        }
        assert(pts.take(pts.len() as int) =~= pts);
        proof {
            lemma_filter_prefix_bounds(selected@, i as int);
            lemma_dedup(selected@);
        }
        self.selection = Selection::from_indices(selected);
        assert(self@ =~= old(self)@.box_selected(rect, radius as int));
    }

    /// The least and greatest extent along `axis` of the points at
    /// `indices`, each widened by `radius`.
    pub fn bounds_along_axis(&self, indices: &Vec<usize>, radius: i32, axis: Axis) -> (r: (
        i64,
        i64,
    ))
        requires
            indices@.len() > 0,
            forall|k: int| 0 <= k < indices@.len() ==> indices@[k] < self.points@.len(),
        ensures
            r.0 == min_coord(self.points@, indices@, axis) - radius,
            r.1 == max_coord(self.points@, indices@, axis) + radius,
    {
        let first = self.points[indices[0]];
        let c0: i32 = match axis {
            Axis::X => first.x,
            Axis::Y => first.y,
        };
        let mut lo: i32 = c0;
        let mut hi: i32 = c0;
        let mut k: usize = 1;
        assert(indices@.take(1) =~= seq![indices@[0]]);
        while k < indices.len()
            invariant
                1 <= k <= indices@.len(),
                forall|t: int| 0 <= t < indices@.len() ==> indices@[t] < self.points@.len(),
                lo == min_coord(self.points@, indices@.take(k as int), axis),
                hi == max_coord(self.points@, indices@.take(k as int), axis),
            decreases indices.len() - k,
        {
            let p = self.points[indices[k]];
            let c: i32 = match axis {
                Axis::X => p.x,
                Axis::Y => p.y,
            };
            assert(indices@.take(k + 1).drop_last() =~= indices@.take(k as int));
            if c < lo {
                lo = c;
            }
            if c > hi {
                hi = c;
            }
            k += 1;
        }
        assert(indices@.take(indices@.len() as int) =~= indices@);
        (lo as i64 - radius as i64, hi as i64 + radius as i64)
    }

    /// The offset that places a clone of the selection just past its bounds
    /// towards `direction`; zero when nothing is selected.
    pub fn convex_hull_offset(&self, direction: Direction, radius: i32) -> (r: (i64, i64))
        requires
            self.wf(),
        ensures
            r.0 == self@.hull_offset(direction, radius as int).0,
            r.1 == self@.hull_offset(direction, radius as int).1,
    {
        let indices = self.selected_indices();
        if indices.len() == 0 {
            return (0, 0);
        }
        proof {
            lemma_coord_bounds(self.points@, indices@, Axis::X);
            lemma_coord_bounds(self.points@, indices@, Axis::Y);
        }
        let (dx, dy) = direction.unit();
        if dx != 0 {
            let (min, max) = self.bounds_along_axis(&indices, radius, Axis::X);
            (dx * (max - min), 0)
        } else {
            let (min, max) = self.bounds_along_axis(&indices, radius, Axis::Y);
            (0, dy * (max - min))
        }
    }

    /// Grows the selection towards `direction`: every point within two and a
    /// half radii of the position two radii beyond a selected point joins it.
    pub fn expand_selection_box(&mut self, direction: Direction, radius: i32)
        requires
            old(self).wf(),
        ensures
            final(self).wf(),
            final(self)@ == old(self)@.expanded(direction, radius as int),
    {
        let current = self.selected_indices();
        if current.len() == 0 {
            return;
        }
        let ghost pts = self.points@;
        let (ux, uy) = direction.unit();
        let r = radius as i64;
        assert(0 <= r * r <= 0x1_0000_0000 * 0x1_0000_0000) by (nonlinear_arith)
            requires
                i32::MIN <= r <= i32::MAX,
        ;
        let r2: i128 = r as i128 * r as i128;
        let limit: i128 = 25 * r2;
        assert(limit == 25 * radius * radius) by (nonlinear_arith)
            requires
                limit == 25 * r2,
                r2 == r * r,
                r == radius,
        ;
        let mut all: Vec<usize> = self.selected_indices();
        let mut j: usize = 0;
        while j < current.len()
            invariant
                0 <= j <= current@.len(),
                self == old(self),
                pts == self.points@,
                current@ == self.selection.indices(),
                self.wf(),
                limit == 25 * radius * radius,
                ux == direction.dx(),
                uy == direction.dy(),
                r == radius,
                all@ == current@ + candidates(pts, current@.take(j as int), direction, radius as int),
                forall|a: int| 0 <= a < all@.len() ==> all@[a] < pts.len(),
            decreases current@.len() - j,
        {
            let p = self.points[current[j]];
            let px: i64 = if ux > 0 {
                p.x as i64 + 2 * r
            } else if ux < 0 {
                p.x as i64 - 2 * r
            } else {
                p.x as i64
            };
            let py: i64 = if uy > 0 {
                p.y as i64 + 2 * r
            } else if uy < 0 {
                p.y as i64 - 2 * r
            } else {
                p.y as i64
            };
            proof {
                lemma_unit_mul(direction.dx(), 2 * radius);
                lemma_unit_mul(direction.dy(), 2 * radius);
            }
            assert(probe(pts[current@[j as int] as int], direction, radius as int) == (
                px as int,
                py as int,
            ));
            let ghost base = all@;
            let mut i: usize = 0;
            while i < self.points.len()
                invariant
                    0 <= i <= self.points.len(),
                    pts == self.points@,
                    limit == 25 * radius * radius,
                    -0x4_0000_0000 <= px <= 0x4_0000_0000,
                    -0x4_0000_0000 <= py <= 0x4_0000_0000,
                    all@ == base + near_indices(pts.take(i as int), px as int, py as int, radius as int),
                    forall|a: int| 0 <= a < all@.len() ==> all@[a] < pts.len(),
                decreases self.points.len() - i,
            {
                let q = self.points[i];
                assert(pts.take(i + 1).drop_last() =~= pts.take(i as int));
                let d = distance_sq(q.x as i64, q.y as i64, px, py);
                if 4 * d < limit {
                    all.push(i);
                }
                assert(all@ =~= base + near_indices(pts.take(i + 1), px as int, py as int, radius as int));
                i += 1;
            }
            assert(pts.take(pts.len() as int) =~= pts);
            assert(current@.take(j + 1).drop_last() =~= current@.take(j as int));
            assert(all@ =~= current@ + candidates(pts, current@.take(j + 1), direction, radius as int));
            j += 1;
        }
        assert(current@.take(current@.len() as int) =~= current@);
        proof {
            lemma_dedup(all@);
            assert forall|k: int| 0 <= k < dedup(all@).len() implies #[trigger] dedup(all@)[k]
                < pts.len() by {
                let x = dedup(all@)[k];
                assert(dedup(all@).contains(x));
                let a = choose|a: int| 0 <= a < all@.len() && all@[a] == x;
                assert(all@[a] < pts.len());
            }
        }
        self.selection = Selection::from_indices(all);
    }

    /// The shape a new painted point takes: that of the first selected
    /// point, or a circle when nothing is selected.
    pub fn get_paint_shape(&self) -> (r: PointShape)
        requires
            self.wf(),
        ensures
            r == self@.paint_shape(),
    {
        match &self.selection {
            Selection::Single(idx) => self.points[*idx].shape,
            Selection::Multiple(indices) => self.points[indices[0]].shape,
            Selection::Empty => PointShape::Circle,
        }
    }

    /// Stamps a point at `pos` rounded to `move_step`, unless the last stamp
    /// lies within twice `radius` on both axes. The new point takes the paint
    /// shape and is snapped to the grid when `snap` holds; the selection is
    /// never changed.
    pub fn paint_point(
        &mut self,
        pos: Pos,
        radius: i32,
        move_step: i32,
        grid_spacing: i32,
        snap: bool,
    )
        requires
            old(self).wf(),
            move_step > 0,
            grid_spacing > 0,
        ensures
            final(self).wf(),
            final(self)@ == old(self)@.painted(
                pos,
                radius as int,
                move_step as int,
                grid_spacing as int,
                snap,
            ),
            final(self).selection == old(self).selection,
    {
        let qx = quantize_value(pos.x as i64, move_step as i64);
        let qy = quantize_value(pos.y as i64, move_step as i64);
        if let Some(last) = self.last_paint_pos {
            let dx: i64 = if qx >= last.x as i64 {
                qx - last.x as i64
            } else {
                last.x as i64 - qx
            };
            let dy: i64 = if qy >= last.y as i64 {
                qy - last.y as i64
            } else {
                last.y as i64 - qy
            };
            if dx < 2 * radius as i64 && dy < 2 * radius as i64 {
                return;
            }
        }
        if qx < i32::MIN as i64 || qx > i32::MAX as i64 || qy < i32::MIN as i64 || qy
            > i32::MAX as i64 || self.next_id == u64::MAX {
            return;
        }
        let shape = self.get_paint_shape();
        let mut p = Point { id: self.next_id, x: qx as i32, y: qy as i32, shape, rotation: 0 };
        if snap {
            let sx = snap_edge_to_grid(p.x, grid_spacing, radius);
            let sy = snap_edge_to_grid(p.y, grid_spacing, radius);
            if i32::MIN as i64 <= sx && sx <= i32::MAX as i64 && i32::MIN as i64 <= sy && sy
                <= i32::MAX as i64 {
                p.x = sx as i32;
                p.y = sy as i32;
            }
        }
        self.points.push(p);
        self.next_id = self.next_id + 1;
        self.last_paint_pos = Some(Pos { x: qx as i32, y: qy as i32 });
        assert(self@ =~= old(self)@.painted(
            pos,
            radius as int,
            move_step as int,
            grid_spacing as int,
            snap,
        ));
    }

    /// The label of the active mode for the status bar, if one is shown.
    pub open spec fn status_label(&self) -> Option<Seq<char>> {
        if self.interaction_mode == InteractionMode::Paintbrush {
            Some("Paintbrush"@)
        } else if self.interaction_mode == InteractionMode::BoxSelect {
            Some("Box Select"@)
        } else if self.pending_mode == PendingMode::Clone {
            Some("Clone mode"@)
        } else if self.pending_mode == PendingMode::Shape {
            Some("Shape mode"@)
        } else if self.snap_to_grid {
            Some("Snap to Grid"@)
        } else {
            None
        }
    }

    /// The label of the active mode for the status bar, if one is shown.
    pub fn status_text(&self) -> (r: Option<String>)
        ensures
            (r is Some) == (self.status_label() is Some),
            (r matches Some(t) ==> self.status_label() == Some(t@)),
    {
        if self.interaction_mode == InteractionMode::Paintbrush {
            Some("Paintbrush".to_owned())
        } else if self.interaction_mode == InteractionMode::BoxSelect {
            Some("Box Select".to_owned())
        } else if self.pending_mode == PendingMode::Clone {
            Some("Clone mode".to_owned())
        } else if self.pending_mode == PendingMode::Shape {
            Some("Shape mode".to_owned())
        } else if self.snap_to_grid {
            Some("Snap to Grid".to_owned())
        } else {
            None
        }
    }

    /// Moves the zoom by `delta` thousandths, held between a tenth and ten.
    pub fn zoom_by(&mut self, delta: i32)
        requires
            old(self).wf(),
        ensures
            final(self).wf(),
            final(self)@ == old(self)@.zoomed(delta as int),
            final(self).selection == old(self).selection,
    {
        let z: i64 = self.zoom_milli as i64 + delta as i64;
        self.zoom_milli = if z < MIN_ZOOM as i64 {
            MIN_ZOOM
        } else if z > MAX_ZOOM as i64 {
            MAX_ZOOM
        } else {
            z as u32
        };
    }

    /// Replaces the whole point set, as when points are loaded. The selection
    /// and any drag are cleared, since their indices no longer apply; ids
    /// handed out before are not handed out again.
    pub fn replace_points(&mut self, points: Vec<Point>)
        requires
            old(self).wf(),
            valid_ids(points@),
        ensures
            final(self).wf(),
            final(self).points@ == points@,
            final(self).selection is Empty,
            final(self).dragging is None,
            final(self).next_id >= old(self).next_id,
            ids_below(points@, final(self).next_id as int),
            final(self).next_id == old(self).next_id || exists|i: int|
                0 <= i < points@.len() && final(self).next_id == points@[i].id + 1,
            final(self).pending_mode == old(self).pending_mode,
            final(self).interaction_mode == old(self).interaction_mode,
            final(self).snap_to_grid == old(self).snap_to_grid,
            final(self).zoom_milli == old(self).zoom_milli,
    {
        let mut next: u64 = self.next_id;
        let mut i: usize = 0;
        while i < points.len()
            invariant
                0 <= i <= points.len(),
                valid_ids(points@),
                next >= old(self).next_id,
                forall|k: int| 0 <= k < i ==> points@[k].id < next,
                next == old(self).next_id || exists|k: int| 0 <= k < i && next == points@[k].id + 1,
            decreases points.len() - i,
        {
            if points[i].id >= next {
                next = points[i].id + 1;
            }
            i += 1;
        }
        self.points = points;
        self.next_id = next;
        self.selection = Selection::Empty;
        self.dragging = None;
    }

    /// Selects the single point at `idx`.
    pub fn select_single(&mut self, idx: usize)
        requires
            old(self).wf(),
            idx < old(self).points@.len(),
        ensures
            final(self).wf(),
            final(self)@ == (StateModel { selected: seq![idx], ..old(self)@ }),
            final(self).selection == Selection::Single(idx),
    {
        self.selection = Selection::Single(idx);
    }

    /// Selects the points at `indices`, each once, collapsed by number.
    pub fn select_many(&mut self, indices: Vec<usize>)
        requires
            old(self).wf(),
            forall|k: int| 0 <= k < indices@.len() ==> indices@[k] < old(self).points@.len(),
        ensures
            final(self).wf(),
            final(self)@ == (StateModel { selected: dedup(indices@), ..old(self)@ }),
    {
        proof {
            lemma_dedup(indices@);
            assert forall|k: int| 0 <= k < dedup(indices@).len() implies #[trigger] dedup(
                indices@,
            )[k] < self.points@.len() by {
                let x = dedup(indices@)[k];
                assert(dedup(indices@).contains(x));
            }
        }
        self.selection = Selection::from_indices(indices);
    }
}

} // verus!
