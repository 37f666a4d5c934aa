//! The point records that the editor stores and saves.

use vstd::prelude::*;

verus! {

/// How a point marker is drawn.
#[derive(Clone, Copy, Debug, PartialEq, Eq, Structural)]
pub enum PointShape {
    Circle,
    Square,
    Diamond,
    Semicircle,
}

/// A point marker: a permanent id, a position in canvas units, a shape and a
/// clockwise rotation in whole degrees.
#[derive(Clone, Copy, Debug, PartialEq, Eq, Structural)]
pub struct Point {
    pub id: u64,
    pub x: i32,
    pub y: i32,
    pub shape: PointShape,
    pub rotation: i32,
}

pub open spec fn starting_points() -> Seq<Point> {
    seq![
        Point { id: 1, x: 400, y: 200, shape: PointShape::Circle, rotation: 0 },
        Point { id: 2, x: 500, y: 300, shape: PointShape::Square, rotation: 0 },
        Point { id: 3, x: 600, y: 400, shape: PointShape::Diamond, rotation: 0 },
        Point { id: 4, x: 700, y: 500, shape: PointShape::Semicircle, rotation: 0 },
    ]
}

/// The point set that a session starts from: one marker of each shape.
pub fn load_points() -> (r: Vec<Point>)
    ensures
        r@ == starting_points(),
{
    let r = vec![
        Point { id: 1, x: 400, y: 200, shape: PointShape::Circle, rotation: 0 },
        Point { id: 2, x: 500, y: 300, shape: PointShape::Square, rotation: 0 },
        Point { id: 3, x: 600, y: 400, shape: PointShape::Diamond, rotation: 0 },
        Point { id: 4, x: 700, y: 500, shape: PointShape::Semicircle, rotation: 0 },
    ];
    assert(r@ =~= starting_points());
    r
}

} // verus!
