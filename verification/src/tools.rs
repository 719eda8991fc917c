//! The editing tools' data operations: point selection presses, select
//! all, nudge, contour reversal, the grid tool's mode switch, and the
//! quadratic pen's point insertion.

use vstd::prelude::*;

use crate::contour_operations::{clone_op, insert_op, ContourOperation, OpView};
use crate::editor::{contour_pairs, Editor, ToolEnum};
use crate::outline::{
    contour_is_open, outline_view, Contour, ContourView, Layer, Point, PointType,
    Handle,
};
use crate::util::copy_vec;

verus! {

/// The grid tool: it owns no state; pressing the mouse hands control back
/// to the pan tool.
#[derive(Clone, Debug)]
pub struct GridTool {}

impl GridTool {
    pub fn new() -> (t: GridTool)
        ensures
            t == (GridTool {  }),
    {
        GridTool {  }
    }

    pub fn mouse_pressed(&mut self, v: &mut Editor)
        ensures
            *final(v) == (Editor { tool: ToolEnum::Pan, ..*old(v) }),
            *final(self) == *old(self),
    {
        v.set_tool(ToolEnum::Pan);
    }
}

/// The point order of a contour reversed.
pub open spec fn reversed_points(pts: Seq<Point>) -> Seq<Point> {
    Seq::new(pts.len(), |i: int| pts[pts.len() - 1 - i])
}

/// Where the live point index lands when its closed contour is reversed.
pub open spec fn remap_live(len: int, pi: int) -> int {
    if pi == 0 {
        0
    } else {
        len - pi
    }
}

/// Reverse idempotence: reversing a contour twice restores its original
/// point order, and for a closed contour remapping the live index twice
/// restores the original index.
pub proof fn lemma_reverse_idempotent(pts: Seq<Point>, len: int, pi: int)
    requires
        0 <= pi < len,
    ensures
        reversed_points(reversed_points(pts)) == pts,
        remap_live(len, remap_live(len, pi)) == pi,
{
    assert(reversed_points(reversed_points(pts)) =~= pts);
}

/// All (contour, point) pairs of the first `ci` contours of an outline.
pub open spec fn all_pairs_upto(outline: Seq<ContourView>, ci: int) -> Seq<(usize, usize)>
    decreases ci,
{
    if ci <= 0 {
        Seq::empty()
    } else {
        all_pairs_upto(outline, ci - 1) + contour_pairs(ci - 1, outline[ci - 1].points.len())
    }
}

/// The pairs a contour-wide double-press adds: each point of the contour
/// not already present in the selection, in point order.
pub open spec fn add_contour_pairs(base: Seq<(usize, usize)>, ci: usize, k: int) -> Seq<
    (usize, usize),
>
    decreases k,
{
    if k <= 0 {
        base
    } else {
        let s = add_contour_pairs(base, ci, k - 1);
        if s.contains((ci, ((k - 1) as usize))) {
            s
        } else {
            s.push((ci, ((k - 1) as usize)))
        }
    }
}

/// A point moved by the nudge offset, its handles untouched.
pub open spec fn nudged_point(p: Point, dx: i64, dy: i64) -> Point {
    Point {
        x: (p.x - dx) as i64,
        y: (p.y + dy) as i64,
        a: p.a,
        b: p.b,
        ptype: p.ptype,
        smooth: p.smooth,
    }
}

pub open spec fn nudge_point_ok(p: Point, dx: i64, dy: i64) -> bool {
    i64::MIN <= p.x - dx <= i64::MAX && i64::MIN <= p.y + dy <= i64::MAX
}

/// Whether every targeted point can be nudged without leaving the
/// coordinate range.
pub open spec fn nudge_ok(e: Editor, dx: i64, dy: i64) -> bool {
    forall|ci: int, pi: int|
        0 <= ci < e.active_outline().len() && 0 <= pi < e.active_outline()[ci].points.len()
            && e.spec_selected(ci as usize, pi as usize) ==> nudge_point_ok(
            #[trigger] e.active_outline()[ci].points[pi],
            dx,
            dy,
        )
}

/// The outline after nudging every selected point.
pub open spec fn nudged_outline(e: Editor, dx: i64, dy: i64) -> Seq<ContourView> {
    Seq::new(
        e.active_outline().len(),
        |ci: int|
            ContourView {
                points: Seq::new(
                    e.active_outline()[ci].points.len(),
                    |pi: int|
                        if e.spec_selected(ci as usize, pi as usize) {
                            nudged_point(e.active_outline()[ci].points[pi], dx, dy)
                        } else {
                            e.active_outline()[ci].points[pi]
                        },
                ),
                op: e.active_outline()[ci].op,
            },
    )
}

pub open spec fn has_nudge_targets(e: Editor) -> bool {
    e.selected@.len() > 0 || (e.contour_idx.is_some() && e.point_idx.is_some())
}

/// The point-selection tool: its only state is the rotation pivot set by a
/// right press on empty canvas.
#[derive(Clone, Debug, Default)]
pub struct Select {
    pub pivot_point: Option<(i64, i64)>,
}

impl Select {
    pub fn new() -> (s: Select)
        ensures
            s.pivot_point.is_none(),
    {
        Select { pivot_point: None }
    }

    /// Select every point of every contour of the active layer.
    pub fn select_all(&self, v: &mut Editor)
        requires
            old(v).wf(),
        ensures
            final(v).wf(),
            final(v).selected@ == all_pairs_upto(
                old(v).active_outline(),
                old(v).active_outline().len() as int,
            ),
            *final(v) == (Editor { selected: final(v).selected, ..*old(v) }),
    {
        let li = v.layer_idx;
        let n = v.layers[li].outline.len();
        let mut points: Vec<(usize, usize)> = Vec::new();
        let mut ci: usize = 0;
        while ci < n
            invariant
                ci <= n,
                v.wf(),
                li == v.layer_idx,
                n == v.active_outline().len(),
                points@ == all_pairs_upto(v.active_outline(), ci as int),
                forall|k: int|
                    0 <= k < points@.len() ==> ((#[trigger] points@[k]).0 < n && points@[k].1
                        < v.active_outline()[points@[k].0 as int].points.len()),
            decreases n - ci,
        {
            let m = v.layers[li].outline[ci].inner.len();
            proof {
                assert(m == v.active_outline()[ci as int].points.len());
            }
            let ghost pre = points@;
            let mut pi: usize = 0;
            while pi < m
                invariant
                    pi <= m,
                    ci < n,
                    v.wf(),
                    li == v.layer_idx,
                    n == v.active_outline().len(),
                    m == v.active_outline()[ci as int].points.len(),
                    points@ == pre + contour_pairs(ci as int, pi as nat),
                    forall|k: int|
                        0 <= k < pre.len() ==> ((#[trigger] pre[k]).0 < n && pre[k].1
                            < v.active_outline()[pre[k].0 as int].points.len()),
                decreases m - pi,
            {
                points.push((ci, pi));
                proof {
                    assert(contour_pairs(ci as int, pi as nat + 1) =~= contour_pairs(
                        ci as int,
                        pi as nat,
                    ).push((ci, pi)));
                }
                pi += 1;
            }
            proof {
                assert(points@ =~= all_pairs_upto(v.active_outline(), ci as int + 1));
                assert forall|k: int| 0 <= k < points@.len() implies ((#[trigger] points@[k]).0
                    < n && points@[k].1 < v.active_outline()[points@[k].0 as int].points.len()) by {
                    if k < pre.len() {
                        assert(points@[k] == pre[k]);
                    } else {
                        assert(points@[k] == contour_pairs(ci as int, m as nat)[k - pre.len()]);
                    }
                }
            }
            ci += 1;
        }
        v.selected = points;
    }

    /// Move every selected point by the nudge offset; the whole nudge is
    /// refused if any moved coordinate would leave the representable range.
    pub fn nudge_selected(&self, v: &mut Editor, dx: i64, dy: i64)
        requires
            old(v).wf(),
        ensures
            final(v).wf(),
            !has_nudge_targets(*old(v)) ==> *final(v) == *old(v),
            has_nudge_targets(*old(v)) && !nudge_ok(*old(v), dx, dy) ==> *final(v) == *old(v),
            has_nudge_targets(*old(v)) && nudge_ok(*old(v), dx, dy) ==> {
                &&& final(v).active_outline() == nudged_outline(*old(v), dx, dy)
                &&& final(v).selected == old(v).selected
                &&& final(v).contour_idx == old(v).contour_idx
                &&& final(v).point_idx == old(v).point_idx
                &&& final(v).layer_idx == old(v).layer_idx
                &&& final(v).layers@.len() == old(v).layers@.len()
                &&& final(v).tool == old(v).tool
                &&& final(v).modifying == false
                &&& (forall|j: int|
                    0 <= j < old(v).layers@.len() && j != old(v).layer_idx ==> final(v).layers@[j]
                        == #[trigger] old(v).layers@[j])
            },
    {
        let has_live = v.contour_idx.is_some() && v.point_idx.is_some();
        if v.selected.len() == 0 && !has_live {
            return ;
        }
        let li = v.layer_idx;
        let n = v.layers[li].outline.len();
        let mut new_outline: Vec<Contour> = Vec::new();
        let mut ci: usize = 0;
        while ci < n
            invariant
                ci <= n,
                v.wf(),
                li == v.layer_idx,
                n == v.active_outline().len(),
                outline_view(new_outline@) == nudged_outline(*v, dx, dy).take(ci as int),
                forall|c2: int, p2: int|
                    0 <= c2 < ci && 0 <= p2 < v.active_outline()[c2].points.len()
                        && v.spec_selected(c2 as usize, p2 as usize) ==> nudge_point_ok(
                        #[trigger] v.active_outline()[c2].points[p2],
                        dx,
                        dy,
                    ),
            decreases n - ci,
        {
            let m = v.layers[li].outline[ci].inner.len();
            proof {
                assert(m == v.active_outline()[ci as int].points.len());
            }
            let ghost tgt = nudged_outline(*v, dx, dy)[ci as int].points;
            let mut pts: Vec<Point> = Vec::new();
            let mut pi: usize = 0;
            while pi < m
                invariant
                    pi <= m,
                    ci < n,
                    v.wf(),
                    li == v.layer_idx,
                    n == v.active_outline().len(),
                    m == v.active_outline()[ci as int].points.len(),
                    tgt == nudged_outline(*v, dx, dy)[ci as int].points,
                    pts@ == tgt.take(pi as int),
                    forall|p2: int|
                        0 <= p2 < pi && v.spec_selected(ci as usize, p2 as usize)
                            ==> nudge_point_ok(
                            #[trigger] v.active_outline()[ci as int].points[p2],
                            dx,
                            dy,
                        ),
                decreases m - pi,
            {
                let p = v.layers[li].outline[ci].inner[pi];
                proof {
                    assert(p == v.active_outline()[ci as int].points[pi as int]);
                }
                let moved = if v.point_selected(ci, pi) {
                    let nx = p.x as i128 - dx as i128;
                    let ny = p.y as i128 + dy as i128;
                    if nx < i64::MIN as i128 || nx > i64::MAX as i128 || ny < i64::MIN as i128
                        || ny > i64::MAX as i128 {
                        proof {
                            assert(!nudge_point_ok(
                                v.active_outline()[ci as int].points[pi as int],
                                dx,
                                dy,
                            ));
                            assert(!nudge_ok(*v, dx, dy));
                        }
                        return ;
                    }
                    Point { x: nx as i64, y: ny as i64, a: p.a, b: p.b, ptype: p.ptype, smooth: p.smooth }
                } else {
                    p
                };
                pts.push(moved);
                proof {
                    assert(pts@ =~= tgt.take(pi as int + 1));
                }
                pi += 1;
            }
            let op = clone_op(&v.layers[li].outline[ci].operation);
            let nc = Contour { inner: pts, operation: op };
            proof {
                assert(tgt.take(m as int) =~= tgt);
                assert(nc@ == nudged_outline(*v, dx, dy)[ci as int]);
            }
            let ghost prevv = outline_view(new_outline@);
            new_outline.push(nc);
            proof {
                assert(outline_view(new_outline@) =~~= prevv.push(nc@));
                assert(nudged_outline(*v, dx, dy).take(ci as int + 1) =~= nudged_outline(
                    *v,
                    dx,
                    dy,
                ).take(ci as int).push(nudged_outline(*v, dx, dy)[ci as int]));
            }
            ci += 1;
        }
        proof {
            assert(nudge_ok(*v, dx, dy));
            assert(nudged_outline(*v, dx, dy).take(n as int) =~= nudged_outline(*v, dx, dy));
        }
        v.begin_modification("Nudge selected points.");
        v.layers[li] = Layer { outline: new_outline };
        v.end_modification();
    }

    /// Reverse the point order of the contour the current selection points
    /// at; a closed contour's live point index is remapped so that the same
    /// point stays live, an open contour's live reference is dropped.
    pub fn reverse_selected(&self, v: &mut Editor)
        requires
            old(v).wf(),
        ensures
            final(v).wf(),
            (match (old(v).contour_idx, old(v).point_idx) {
                (Option::Some(_), Option::Some(_)) => false,
                _ => old(v).selected@.len() == 0,
            }) ==> *final(v) == *old(v),
            !(match (old(v).contour_idx, old(v).point_idx) {
                (Option::Some(_), Option::Some(_)) => false,
                _ => old(v).selected@.len() == 0,
            }) ==> {
                let ci = (match (old(v).contour_idx, old(v).point_idx) {
                    (Option::Some(c), Option::Some(_)) => c,
                    _ => old(v).selected@[0].0,
                });
                let pts = old(v).active_outline()[ci as int].points;
                &&& final(v).active_outline() == old(v).active_outline().update(
                    ci as int,
                    ContourView {
                        points: reversed_points(pts),
                        op: old(v).active_outline()[ci as int].op,
                    },
                )
                &&& final(v).point_idx == (match old(v).point_idx {
                    Option::Some(pi) => {
                        if !contour_is_open(pts) {
                            Some((remap_live(pts.len() as int, pi as int) as usize))
                        } else {
                            None
                        }
                    },
                    Option::None => None,
                })
                &&& final(v).contour_idx == (if final(v).point_idx.is_some() {
                    old(v).contour_idx
                } else {
                    None
                })
                &&& final(v).selected == old(v).selected
                &&& final(v).layer_idx == old(v).layer_idx
                &&& final(v).layers@.len() == old(v).layers@.len()
                &&& final(v).tool == old(v).tool
                &&& final(v).modifying == false
                &&& (forall|j: int|
                    0 <= j < old(v).layers@.len() && j != old(v).layer_idx ==> final(v).layers@[j]
                        == #[trigger] old(v).layers@[j])
            },
    {
        let ci = match v.selected() {
            Option::Some((ci, _)) => ci,
            Option::None => {
                return ;
            },
        };
        v.begin_modification("Reversing contours.");
        let li = v.layer_idx;
        let m = v.layers[li].outline[ci].inner.len();
        let ghost pts = v.active_outline()[ci as int].points;
        proof {
            assert(m == pts.len());
        }
        let mut rev: Vec<Point> = Vec::new();
        let mut j: usize = 0;
        while j < m
            invariant
                j <= m,
                li == v.layer_idx,
                li < v.layers@.len(),
                ci < v.active_outline().len(),
                m == pts.len(),
                pts == v.active_outline()[ci as int].points,
                rev@ == reversed_points(pts).take(j as int),
            decreases m - j,
        {
            rev.push(v.layers[li].outline[ci].inner[m - 1 - j]);
            proof {
                assert(rev@ =~= reversed_points(pts).take(j as int + 1));
            }
            j += 1;
        }
        let closed = m > 0 && !matches!(v.layers[li].outline[ci].inner[0].ptype, PointType::Move);
        let op = clone_op(&v.layers[li].outline[ci].operation);
        let nc = Contour { inner: rev, operation: op };
        proof {
            assert(reversed_points(pts).take(m as int) =~= reversed_points(pts));
            assert(nc@ == ContourView {
                points: reversed_points(pts),
                op: v.active_outline()[ci as int].op,
            });
        }
        v.layers[li].outline[ci] = nc;
        proof {
            assert(v.active_outline() =~~= old(v).active_outline().update(
                ci as int,
                ContourView {
                    points: reversed_points(pts),
                    op: old(v).active_outline()[ci as int].op,
                },
            ));
        }
        v.point_idx = match v.point_idx {
            Option::Some(pi) => {
                if closed {
                    if pi == 0 {
                        Some(0)
                    } else {
                        Some(m - pi)
                    }
                } else {
                    None
                }
            },
            Option::None => None,
        };
        if v.point_idx.is_none() {
            v.contour_idx = None;
        }
        v.end_modification();
    }

    /// A single press: a hit on a point updates the live reference and the
    /// selection per the shift modifier; a miss on empty canvas clears them
    /// unless shift is held, and a right press there sets the rotation
    /// pivot.
    pub fn mouse_pressed(
        &mut self,
        v: &mut Editor,
        hit: Option<(usize, usize)>,
        shift: bool,
        right_button: bool,
        pos: (i64, i64),
    )
        requires
            old(v).wf(),
            match hit {
                Option::Some((ci, pi)) => ci < old(v).active_outline().len() && pi < old(
                    v,
                ).active_outline()[ci as int].points.len(),
                Option::None => true,
            },
        ensures
            final(v).wf(),
            match hit {
                Option::Some((ci, pi)) => {
                    &&& final(v).contour_idx == Some(ci)
                    &&& final(v).point_idx == Some(pi)
                    &&& final(v).layers == old(v).layers
                    &&& final(v).layer_idx == old(v).layer_idx
                    &&& final(v).tool == old(v).tool
                    &&& final(v).modifying == old(v).modifying
                    &&& *final(self) == *old(self)
                    &&& final(v).selected@ == (if shift {
                        match (old(v).contour_idx, old(v).point_idx) {
                            (Option::Some(oc), Option::Some(op)) => {
                                if old(v).selected@.contains((oc, op)) {
                                    old(v).selected@
                                } else {
                                    old(v).selected@.push((oc, op))
                                }
                            },
                            _ => old(v).selected@,
                        }
                    } else if old(v).selected@.contains((ci, pi)) {
                        old(v).selected@
                    } else {
                        Seq::<(usize, usize)>::empty()
                    })
                },
                Option::None => {
                    &&& final(v).layers == old(v).layers
                    &&& final(v).layer_idx == old(v).layer_idx
                    &&& final(v).tool == old(v).tool
                    &&& final(v).modifying == old(v).modifying
                    &&& (if shift {
                        final(v).selected@ == old(v).selected@
                            && final(v).contour_idx == old(v).contour_idx
                            && final(v).point_idx == old(v).point_idx
                    } else {
                        final(v).selected@ == Seq::<(usize, usize)>::empty()
                            && final(v).contour_idx.is_none()
                            && final(v).point_idx.is_none()
                    })
                    &&& final(self).pivot_point == (if right_button {
                        Some(pos)
                    } else {
                        old(self).pivot_point
                    })
                },
            },
    {
        match hit {
            Option::Some((ci, pi)) => {
                if shift {
                    if let (Option::Some(oc), Option::Some(op)) = (v.contour_idx, v.point_idx) {
                        if !pair_in_selection(&v.selected, oc, op) {
                            v.selected.push((oc, op));
                        }
                    }
                } else if !pair_in_selection(&v.selected, ci, pi) {
                    v.selected = Vec::new();
                }
                v.contour_idx = Some(ci);
                v.point_idx = Some(pi);
            },
            Option::None => {
                if !shift {
                    v.selected = Vec::new();
                    v.contour_idx = None;
                    v.point_idx = None;
                }
                if right_button {
                    self.pivot_point = Some(pos);
                }
            },
        }
    }

    /// A double press on a contour selects every point of that contour,
    /// keeping the existing selection only when shift is held.
    pub fn mouse_double_pressed(&self, v: &mut Editor, hit: Option<usize>, shift: bool)
        requires
            old(v).wf(),
            match hit {
                Option::Some(ci) => ci < old(v).active_outline().len(),
                Option::None => true,
            },
        ensures
            final(v).wf(),
            match hit {
                Option::None => *final(v) == *old(v),
                Option::Some(ci) => {
                    &&& final(v).selected@ == add_contour_pairs(
                        if shift {
                            old(v).selected@
                        } else {
                            Seq::<(usize, usize)>::empty()
                        },
                        ci,
                        old(v).active_outline()[ci as int].points.len() as int,
                    )
                    &&& final(v).layers == old(v).layers
                    &&& final(v).layer_idx == old(v).layer_idx
                    &&& final(v).contour_idx == old(v).contour_idx
                    &&& final(v).point_idx == old(v).point_idx
                    &&& final(v).tool == old(v).tool
                    &&& final(v).modifying == old(v).modifying
                },
            },
    {
        let ci = match hit {
            Option::Some(ci) => ci,
            Option::None => {
                return ;
            },
        };
        if !shift {
            v.selected = Vec::new();
        }
        let li = v.layer_idx;
        let m = v.layers[li].outline[ci].inner.len();
        let ghost base = v.selected@;
        proof {
            assert(m == v.active_outline()[ci as int].points.len());
        }
        let mut pi: usize = 0;
        while pi < m
            invariant
                pi <= m,
                li == v.layer_idx,
                li < v.layers@.len(),
                ci < v.active_outline().len(),
                m == v.active_outline()[ci as int].points.len(),
                v.selected@ == add_contour_pairs(base, ci, pi as int),
                v.layers == old(v).layers,
                v.layer_idx == old(v).layer_idx,
                v.contour_idx == old(v).contour_idx,
                v.point_idx == old(v).point_idx,
                v.tool == old(v).tool,
                v.modifying == old(v).modifying,
                old(v).wf(),
                forall|k: int|
                    0 <= k < base.len() ==> ((#[trigger] base[k]).0 < v.active_outline().len()
                        && base[k].1 < v.active_outline()[base[k].0 as int].points.len()),
                v.sel_ok(),
            decreases m - pi,
        {
            if !pair_in_selection(&v.selected, ci, pi) {
                v.selected.push((ci, pi));
            }
            pi += 1;
        }
    }
}

/// Linear membership scan of the selection vector.
fn pair_in_selection(sel: &Vec<(usize, usize)>, ci: usize, pi: usize) -> (r: bool)
    ensures
        r == sel@.contains((ci, pi)),
{
    let mut k: usize = 0;
    while k < sel.len()
        invariant
            k <= sel@.len(),
            forall|m: int| 0 <= m < k ==> #[trigger] sel@[m] != (ci, pi),
        decreases sel@.len() - k,
    {
        let (c, p) = sel[k];
        if c == ci && p == pi {
            proof {
                assert(sel@.contains((ci, pi)));
            }
            return true;
        }
        k += 1;
    }
    proof {
        assert(!sel@.contains((ci, pi)));
    }
    false
}

/// The quadratic pen mode: it owns no state of its own.
#[derive(Clone, Debug)]
pub struct QuadMode {}

impl QuadMode {
    pub fn new() -> (m: QuadMode)
        ensures
            m == (QuadMode {  }),
    {
        QuadMode {  }
    }

    /// Start a new contour at the pressed position: one point, typed
    /// `Curve` when shift is held (a closed start) and `Move` otherwise,
    /// which becomes the live point.
    pub fn new_contour(&self, v: &mut Editor, pos: (i64, i64), shift: bool)
        requires
            old(v).wf(),
        ensures
            final(v).wf(),
            final(v).active_outline() == old(v).active_outline().push(
                ContourView {
                    points: seq![
                        Point {
                            x: pos.0,
                            y: pos.1,
                            a: Handle::Colocated,
                            b: Handle::Colocated,
                            ptype: if shift {
                                PointType::Curve
                            } else {
                                PointType::Move
                            },
                            smooth: false,
                        },
                    ],
                    op: OpView::NoOp,
                },
            ),
            final(v).contour_idx == Some((old(v).active_outline().len() as usize)),
            final(v).point_idx == Some(0usize),
            final(v).selected == old(v).selected,
            final(v).layer_idx == old(v).layer_idx,
            final(v).layers@.len() == old(v).layers@.len(),
            final(v).tool == old(v).tool,
            final(v).modifying == old(v).modifying,
    {
        let ptype = if shift {
            PointType::Curve
        } else {
            PointType::Move
        };
        let mut pts: Vec<Point> = Vec::new();
        pts.push(
            Point {
                x: pos.0,
                y: pos.1,
                a: Handle::Colocated,
                b: Handle::Colocated,
                ptype,
                smooth: false,
            },
        );
        let nc = Contour { inner: pts, operation: None };
        let li = v.layer_idx;
        let ghost prev = v.active_outline();
        let idx = v.layers[li].outline.len();
        v.layers[li].outline.push(nc);
        proof {
            assert(v.active_outline() =~~= prev.push(
                ContourView {
                    points: seq![
                        Point {
                            x: pos.0,
                            y: pos.1,
                            a: Handle::Colocated,
                            b: Handle::Colocated,
                            ptype: if shift {
                                PointType::Curve
                            } else {
                                PointType::Move
                            },
                            smooth: false,
                        },
                    ],
                    op: OpView::NoOp,
                },
            ));
        }
        v.contour_idx = Some(idx);
        v.point_idx = Some(0);
    }

    /// Add a point at the pressed position: pressed at the live contour's
    /// last point it appends a `Curve` point, pressed at its first point it
    /// prepends one carrying the old start's type; anywhere else, or with
    /// no valid live point, nothing changes. The contour's operation is
    /// notified of the insertion.
    pub fn add_point(&self, v: &mut Editor, pos: (i64, i64))
        requires
            old(v).wf(),
        ensures
            final(v).wf(),
            match (old(v).contour_idx, old(v).point_idx) {
                (Option::Some(ci), Option::Some(pi)) => {
                    let pts = old(v).active_outline()[ci as int].points;
                    let opv = old(v).active_outline()[ci as int].op;
                    if pi == pts.len() - 1 {
                        &&& final(v).active_outline() == old(v).active_outline().update(
                            ci as int,
                            ContourView {
                                points: pts.push(
                                    Point {
                                        x: pos.0,
                                        y: pos.1,
                                        a: Handle::Colocated,
                                        b: Handle::Colocated,
                                        ptype: PointType::Curve,
                                        smooth: false,
                                    },
                                ),
                                op: insert_op(opv, pts.len() as int),
                            },
                        )
                        &&& final(v).contour_idx == Some(ci)
                        &&& final(v).point_idx == Some((pts.len() as usize))
                        &&& final(v).selected == old(v).selected
                        &&& final(v).modifying == old(v).modifying
                        &&& final(v).layer_idx == old(v).layer_idx
                        &&& final(v).layers@.len() == old(v).layers@.len()
                        &&& final(v).tool == old(v).tool
                    } else if pi == 0 {
                        &&& final(v).active_outline() == old(v).active_outline().update(
                            ci as int,
                            ContourView {
                                points: seq![
                                    Point {
                                        x: pos.0,
                                        y: pos.1,
                                        a: Handle::Colocated,
                                        b: Handle::Colocated,
                                        ptype: pts[0].ptype,
                                        smooth: false,
                                    },
                                ] + (if contour_is_open(pts) {
                                    pts.update(
                                        0,
                                        Point {
                                            x: pts[0].x,
                                            y: pts[0].y,
                                            a: pts[0].a,
                                            b: pts[0].b,
                                            ptype: PointType::Curve,
                                            smooth: pts[0].smooth,
                                        },
                                    )
                                } else {
                                    pts
                                }),
                                op: insert_op(opv, 0),
                            },
                        )
                        &&& final(v).contour_idx == Some(ci)
                        &&& final(v).point_idx == Some(pi)
                        &&& final(v).selected == old(v).selected
                        &&& final(v).modifying == false
                        &&& final(v).layer_idx == old(v).layer_idx
                        &&& final(v).layers@.len() == old(v).layers@.len()
                        &&& final(v).tool == old(v).tool
                    } else {
                        *final(v) == *old(v)
                    }
                },
                _ => *final(v) == *old(v),
            },
    {
        let (ci, pi) = match (v.contour_idx, v.point_idx) {
            (Option::Some(ci), Option::Some(pi)) => (ci, pi),
            _ => {
                return ;
            },
        };
        let li = v.layer_idx;
        let m = v.layers[li].outline[ci].inner.len();
        let ghost pts = v.active_outline()[ci as int].points;
        proof {
            assert(m == pts.len());
        }
        if pi == m - 1 {
            let mut inner = copy_vec(&v.layers[li].outline[ci].inner);
            let mut op = clone_op(&v.layers[li].outline[ci].operation);
            ContourOperation::insert(&mut op, &v.layers[li].outline[ci], m);
            inner.push(
                Point {
                    x: pos.0,
                    y: pos.1,
                    a: Handle::Colocated,
                    b: Handle::Colocated,
                    ptype: PointType::Curve,
                    smooth: false,
                },
            );
            let nc = Contour { inner, operation: op };
            v.layers[li].outline[ci] = nc;
            proof {
                assert(v.active_outline() =~~= old(v).active_outline().update(
                    ci as int,
                    ContourView {
                        points: pts.push(
                            Point {
                                x: pos.0,
                                y: pos.1,
                                a: Handle::Colocated,
                                b: Handle::Colocated,
                                ptype: PointType::Curve,
                                smooth: false,
                            },
                        ),
                        op: insert_op(old(v).active_outline()[ci as int].op, pts.len() as int),
                    },
                ));
            }
            v.point_idx = Some(m);
        } else if pi == 0 {
            let first = v.layers[li].outline[ci].inner[0];
            let open = matches!(first.ptype, PointType::Move);
            let mut inner = copy_vec(&v.layers[li].outline[ci].inner);
            if open {
                inner[0] = Point {
                    x: first.x,
                    y: first.y,
                    a: first.a,
                    b: first.b,
                    ptype: PointType::Curve,
                    smooth: first.smooth,
                };
            }
            inner.insert(
                0,
                Point {
                    x: pos.0,
                    y: pos.1,
                    a: Handle::Colocated,
                    b: Handle::Colocated,
                    ptype: first.ptype,
                    smooth: false,
                },
            );
            let mut op = clone_op(&v.layers[li].outline[ci].operation);
            ContourOperation::insert(&mut op, &v.layers[li].outline[ci], 0);
            let nc = Contour { inner, operation: op };
            proof {
                assert(nc.inner@ =~= seq![
                    Point {
                        x: pos.0,
                        y: pos.1,
                        a: Handle::Colocated,
                        b: Handle::Colocated,
                        ptype: pts[0].ptype,
                        smooth: false,
                    },
                ] + (if contour_is_open(pts) {
                    pts.update(
                        0,
                        Point {
                            x: pts[0].x,
                            y: pts[0].y,
                            a: pts[0].a,
                            b: pts[0].b,
                            ptype: PointType::Curve,
                            smooth: pts[0].smooth,
                        },
                    )
                } else {
                    pts
                }));
            }
            v.layers[li].outline[ci] = nc;
            proof {
                assert(v.active_outline() =~~= old(v).active_outline().update(
                    ci as int,
                    ContourView {
                        points: seq![
                            Point {
                                x: pos.0,
                                y: pos.1,
                                a: Handle::Colocated,
                                b: Handle::Colocated,
                                ptype: pts[0].ptype,
                                smooth: false,
                            },
                        ] + (if contour_is_open(pts) {
                            pts.update(
                                0,
                                Point {
                                    x: pts[0].x,
                                    y: pts[0].y,
                                    a: pts[0].a,
                                    b: pts[0].b,
                                    ptype: PointType::Curve,
                                    smooth: pts[0].smooth,
                                },
                            )
                        } else {
                            pts
                        }),
                        op: insert_op(old(v).active_outline()[ci as int].op, 0),
                    },
                ));
            }
            v.end_modification();
        }
    }
}

} // verus!
