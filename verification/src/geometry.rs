//! Bounding boxes and whole-outline translation, used by the selection
//! queries and by paste positioning.

use vstd::prelude::*;

use crate::outline::{ContourView, Handle, Point};

verus! {

/// An axis-aligned bounding box over glyph coordinates.
#[derive(Clone, Copy, Debug, PartialEq, Eq, Structural)]
pub struct Rect {
    pub left: i64,
    pub top: i64,
    pub right: i64,
    pub bottom: i64,
}

/// The coordinates a point contributes to a bounding box: its position and
/// each handle that is not colocated.
pub open spec fn point_coords(p: Point) -> Seq<(i64, i64)> {
    seq![(p.x, p.y)] + (match p.a {
        Handle::At(x, y) => seq![(x, y)],
        Handle::Colocated => Seq::empty(),
    }) + (match p.b {
        Handle::At(x, y) => seq![(x, y)],
        Handle::Colocated => Seq::empty(),
    })
}

pub open spec fn points_coords_upto(pts: Seq<Point>, j: int) -> Seq<(i64, i64)>
    decreases j,
{
    if j <= 0 {
        Seq::empty()
    } else {
        points_coords_upto(pts, j - 1) + point_coords(pts[j - 1])
    }
}

pub open spec fn points_coords(pts: Seq<Point>) -> Seq<(i64, i64)> {
    points_coords_upto(pts, pts.len() as int)
}

pub open spec fn outline_coords_upto(lv: Seq<ContourView>, k: int) -> Seq<(i64, i64)>
    decreases k,
{
    if k <= 0 {
        Seq::empty()
    } else {
        outline_coords_upto(lv, k - 1) + points_coords(lv[k - 1].points)
    }
}

/// Every coordinate pair of an outline, positions and explicit handles.
pub open spec fn outline_coords(lv: Seq<ContourView>) -> Seq<(i64, i64)> {
    outline_coords_upto(lv, lv.len() as int)
}

pub open spec fn rect_of(c: (i64, i64)) -> Rect {
    Rect { left: c.0, top: c.1, right: c.0, bottom: c.1 }
}

pub open spec fn rect_join(r: Rect, c: (i64, i64)) -> Rect {
    Rect {
        left: if c.0 < r.left {
            c.0
        } else {
            r.left
        },
        top: if c.1 < r.top {
            c.1
        } else {
            r.top
        },
        right: if c.0 > r.right {
            c.0
        } else {
            r.right
        },
        bottom: if c.1 > r.bottom {
            c.1
        } else {
            r.bottom
        },
    }
}

/// The axis-aligned bounding box of a nonempty coordinate sequence.
pub open spec fn spec_bbox(cs: Seq<(i64, i64)>) -> Rect
    decreases cs.len(),
{
    if cs.len() <= 1 {
        rect_of(cs[0])
    } else {
        rect_join(spec_bbox(cs.drop_last()), cs.last())
    }
}

pub proof fn lemma_bbox_wf(cs: Seq<(i64, i64)>)
    requires
        cs.len() >= 1,
    ensures
        spec_bbox(cs).left <= spec_bbox(cs).right,
        spec_bbox(cs).top <= spec_bbox(cs).bottom,
    decreases cs.len(),
{
    if cs.len() > 1 {
        lemma_bbox_wf(cs.drop_last());
    }
}

/// The center of a bounding box, rounded toward the low corner.
pub open spec fn rect_center(r: Rect) -> (i64, i64) {
    ((r.left + (r.right - r.left) / 2) as i64, (r.top + (r.bottom - r.top) / 2) as i64)
}

fn rect_join_exec(r: Rect, c: (i64, i64)) -> (out: Rect)
    ensures
        out == rect_join(r, c),
{
    Rect {
        left: if c.0 < r.left {
            c.0
        } else {
            r.left
        },
        top: if c.1 < r.top {
            c.1
        } else {
            r.top
        },
        right: if c.0 > r.right {
            c.0
        } else {
            r.right
        },
        bottom: if c.1 > r.bottom {
            c.1
        } else {
            r.bottom
        },
    }
}

/// Fold a coordinate list into its bounding box.
pub fn bbox_of_coords(coords: &Vec<(i64, i64)>) -> (r: Option<Rect>)
    ensures
        coords@.len() == 0 ==> r.is_none(),
        coords@.len() > 0 ==> r == Some(spec_bbox(coords@)),
{
    if coords.len() == 0 {
        return None;
    }
    let mut acc = Rect { left: coords[0].0, top: coords[0].1, right: coords[0].0, bottom: coords[0].1 };
    proof {
        assert(coords@.take(1).len() == 1);
        assert(coords@.take(1)[0] == coords@[0]);
        assert(acc == spec_bbox(coords@.take(1)));
    }
    let mut i: usize = 1;
    while i < coords.len()
        invariant
            1 <= i <= coords@.len(),
            acc == spec_bbox(coords@.take(i as int)),
        decreases coords@.len() - i,
    {
        proof {
            assert(coords@.take(i as int + 1).drop_last() =~= coords@.take(i as int));
            assert(coords@.take(i as int + 1).last() == coords@[i as int]);
        }
        acc = rect_join_exec(acc, coords[i]);
        i += 1;
    }
    proof {
        assert(coords@.take(coords@.len() as int) =~= coords@);
    }
    Some(acc)
}

/// The center of a well-formed bounding box.
pub fn rect_center_exec(r: Rect) -> (c: (i64, i64))
    requires
        r.left <= r.right,
        r.top <= r.bottom,
    ensures
        c == rect_center(r),
{
    let dx: u64 = (r.right as i128 - r.left as i128) as u64;
    let dy: u64 = (r.bottom as i128 - r.top as i128) as u64;
    let cx = ((r.left as i128) + ((dx / 2) as i128)) as i64;
    let cy = ((r.top as i128) + ((dy / 2) as i128)) as i64;
    (cx, cy)
}

pub open spec fn coord_in_range(v: int) -> bool {
    i64::MIN <= v <= i64::MAX
}

pub open spec fn handle_tr_ok(h: Handle, dx: int, dy: int) -> bool {
    match h {
        Handle::Colocated => true,
        Handle::At(x, y) => coord_in_range(x + dx) && coord_in_range(y + dy),
    }
}

pub open spec fn point_tr_ok(p: Point, dx: int, dy: int) -> bool {
    coord_in_range(p.x + dx) && coord_in_range(p.y + dy) && handle_tr_ok(p.a, dx, dy)
        && handle_tr_ok(p.b, dx, dy)
}

/// Whether translating every point and handle of the outline stays inside
/// the coordinate range.
pub open spec fn tr_ok(lv: Seq<ContourView>, dx: int, dy: int) -> bool {
    forall|i: int, j: int|
        0 <= i < lv.len() && 0 <= j < lv[i].points.len() ==> point_tr_ok(
            #[trigger] lv[i].points[j],
            dx,
            dy,
        )
}

pub open spec fn tr_handle(h: Handle, dx: int, dy: int) -> Handle {
    match h {
        Handle::Colocated => Handle::Colocated,
        Handle::At(x, y) => Handle::At((x + dx) as i64, (y + dy) as i64),
    }
}

pub open spec fn tr_point(p: Point, dx: int, dy: int) -> Point {
    Point {
        x: (p.x + dx) as i64,
        y: (p.y + dy) as i64,
        a: tr_handle(p.a, dx, dy),
        b: tr_handle(p.b, dx, dy),
        ptype: p.ptype,
        smooth: p.smooth,
    }
}

pub open spec fn tr_points(pts: Seq<Point>, dx: int, dy: int) -> Seq<Point> {
    Seq::new(pts.len(), |j: int| tr_point(pts[j], dx, dy))
}

/// The translated outline: every point and explicit handle moved by the
/// same delta; operation parameters are untouched.
pub open spec fn tr_outline(lv: Seq<ContourView>, dx: int, dy: int) -> Seq<ContourView> {
    Seq::new(lv.len(), |i: int| ContourView { points: tr_points(lv[i].points, dx, dy), op: lv[i].op })
}

/// Paste positioning: under a translation that stays in range, every point
/// of the translated outline sits at exactly its source position moved by
/// the delta, and likewise each explicit handle.
pub proof fn lemma_paste_positioning(lv: Seq<ContourView>, dx: int, dy: int, i: int, j: int)
    requires
        tr_ok(lv, dx, dy),
        0 <= i < lv.len(),
        0 <= j < lv[i].points.len(),
    ensures
        tr_outline(lv, dx, dy)[i].points[j].x == lv[i].points[j].x + dx,
        tr_outline(lv, dx, dy)[i].points[j].y == lv[i].points[j].y + dy,
        tr_outline(lv, dx, dy)[i].points[j].ptype == lv[i].points[j].ptype,
        tr_outline(lv, dx, dy)[i].op == lv[i].op,
{
}

} // verus!
