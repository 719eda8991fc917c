//! The data model: points with handles and type tags, skeleton contours
//! with their attached operation, and layers.

use vstd::prelude::*;

use crate::contour_operations::{op_view, ContourOperations, OpView};
use crate::util::copy_vec;

verus! {

/// A handle is either coincident with its point or an explicit tangent
/// control position.
#[derive(Clone, Copy, Debug, PartialEq, Eq, Structural)]
pub enum Handle {
    Colocated,
    At(i64, i64),
}

/// The role of a point inside a contour. A `Move` point starts a new
/// sub-path, so a contour is open exactly when its first point is `Move`.
#[derive(Clone, Copy, Debug, PartialEq, Eq, Structural)]
pub enum PointType {
    Move,
    Line,
    Curve,
    QCurve,
    OffCurve,
}

/// One point of a skeleton contour: a position, two handle slots, a
/// point-type tag and a smoothness flag.
#[derive(Clone, Copy, Debug, PartialEq, Eq, Structural)]
pub struct Point {
    pub x: i64,
    pub y: i64,
    pub a: Handle,
    pub b: Handle,
    pub ptype: PointType,
    pub smooth: bool,
}

/// An editable skeleton contour: an ordered point sequence plus the
/// optional procedural operation attached to it.
#[derive(Debug, PartialEq)]
pub struct Contour {
    pub inner: Vec<Point>,
    pub operation: Option<ContourOperations>,
}

/// The mathematical value of a contour: its point sequence and the
/// abstract value of its operation.
#[verifier::ext_equal]
pub struct ContourView {
    pub points: Seq<Point>,
    pub op: OpView,
}

impl View for Contour {
    type V = ContourView;

    open spec fn view(&self) -> ContourView {
        ContourView { points: self.inner@, op: op_view(self.operation) }
    }
}

pub open spec fn outline_view(cs: Seq<Contour>) -> Seq<ContourView> {
    cs.map_values(|c: Contour| c@)
}

/// A layer of a glyph: the ordered outline the editor works on.
#[derive(Debug, PartialEq)]
pub struct Layer {
    pub outline: Vec<Contour>,
}

impl View for Layer {
    type V = Seq<ContourView>;

    open spec fn view(&self) -> Seq<ContourView> {
        outline_view(self.outline@)
    }
}

/// A contour is open when its first point starts a new sub-path.
pub open spec fn contour_is_open(points: Seq<Point>) -> bool {
    points.len() > 0 && points[0].ptype == PointType::Move
}

impl Contour {
    /// A contour with the given points and no operation.
    pub fn from_points(points: Vec<Point>) -> (c: Contour)
        ensures
            c@.points == points@,
            c@.op == OpView::NoOp,
    {
        Contour { inner: points, operation: None }
    }
}

pub fn clone_contour(c: &Contour) -> (r: Contour)
    ensures
        r@ == c@,
{
    Contour { inner: copy_vec(&c.inner), operation: crate::contour_operations::clone_op(&c.operation) }
}

} // verus!
