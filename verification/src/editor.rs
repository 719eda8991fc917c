//! The editor context and the selection-aware structural edit engine:
//! selection queries, copy, paste, delete and simplify.

use vstd::prelude::*;

use crate::contour_operations::clone_op;
use crate::geometry::{
    bbox_of_coords, lemma_bbox_wf, outline_coords, outline_coords_upto, point_coords,
    points_coords_upto, point_tr_ok, rect_center, rect_center_exec, spec_bbox,
    tr_ok, tr_outline, tr_point, tr_points, Rect,
};
use crate::outline::{outline_view, Contour, ContourView, Handle, Layer, Point};
use crate::partition::{partition_contour, spec_partition};
use crate::payload::{clipboard_text_for_layer, parse_clipboard, spec_clip_text,
    spec_parse_clipboard};
use crate::util::copy_vec;

verus! {

/// The editor's tools, as selectable modes.
#[derive(Clone, Copy, Debug, PartialEq, Eq, Structural)]
pub enum ToolEnum {
    Pan,
    Select,
    Pen,
    Zoom,
    Measure,
    VWS,
    PAP,
    Dash,
    Anchors,
    Shapes,
    Image,
    Guidelines,
    Grid,
}

/// The editor context: the glyph's layers, the active layer, the live
/// (most recently interacted-with) contour/point reference, the selection
/// set, the active tool, and the modification bracket flag.
#[derive(Debug)]
pub struct Editor {
    pub layers: Vec<Layer>,
    pub layer_idx: usize,
    pub contour_idx: Option<usize>,
    pub point_idx: Option<usize>,
    pub selected: Vec<(usize, usize)>,
    pub tool: ToolEnum,
    pub modifying: bool,
}

impl Editor {
    /// The active layer's outline, as a sequence of contour values.
    pub open spec fn active_outline(&self) -> Seq<ContourView> {
        self.layers@[self.layer_idx as int]@
    }

    pub open spec fn layer_ok(&self) -> bool {
        self.layer_idx < self.layers@.len()
    }

    /// The live reference is consistent and points into the active outline.
    pub open spec fn live_ok(&self) -> bool {
        match (self.contour_idx, self.point_idx) {
            (Option::Some(ci), Option::Some(pi)) => ci < self.active_outline().len() && pi
                < self.active_outline()[ci as int].points.len(),
            (Option::Some(ci), Option::None) => ci < self.active_outline().len(),
            (Option::None, Option::Some(_)) => false,
            (Option::None, Option::None) => true,
        }
    }

    /// Every selection entry indexes an existing point of the active outline.
    pub open spec fn sel_ok(&self) -> bool {
        forall|k: int|
            0 <= k < self.selected@.len() ==> ((#[trigger] self.selected@[k]).0
                < self.active_outline().len() && self.selected@[k].1 < self.active_outline()[
                self.selected@[k].0 as int
            ].points.len())
    }

    pub open spec fn wf(&self) -> bool {
        self.layer_ok() && self.live_ok() && self.sel_ok()
    }

    /// Whether the pair is the live point or a member of the selection set.
    pub open spec fn spec_selected(&self, contour_idx: usize, point_idx: usize) -> bool {
        (match (self.contour_idx, self.point_idx) {
            (Option::Some(ci), Option::Some(pi)) => ci == contour_idx && pi == point_idx,
            _ => false,
        }) || self.selected@.contains((contour_idx, point_idx))
    }

    pub fn get_active_layer_ref(&self) -> (layer: &Layer)
        requires
            self.layer_ok(),
        ensures
            *layer == self.layers@[self.layer_idx as int],
    {
        &self.layers[self.layer_idx]
    }

    /// True if the pair matches the live index pair or is in the selection.
    pub fn point_selected(&self, contour_idx: usize, point_idx: usize) -> (r: bool)
        requires
            self.point_idx.is_some() ==> self.contour_idx.is_some(),
        ensures
            r == self.spec_selected(contour_idx, point_idx),
    {
        if let (Option::Some(ci), Option::Some(pi)) = (self.contour_idx, self.point_idx) {
            if ci == contour_idx && pi == point_idx {
                return true;
            }
        }
        let mut k: usize = 0;
        while k < self.selected.len()
            invariant
                k <= self.selected@.len(),
                forall|m: int|
                    0 <= m < k ==> #[trigger] self.selected@[m] != (contour_idx, point_idx),
            decreases self.selected@.len() - k,
        {
            let (ci, pi) = self.selected[k];
            if ci == contour_idx && pi == point_idx {
                proof {
                    assert(self.selected@.contains((contour_idx, point_idx)));
                }
                return true;
            }
            k += 1;
        }
        proof {
            assert(!self.selected@.contains((contour_idx, point_idx)));
        }
        false
    }

    /// The single point an editing command applies to: the live pair if one
    /// is set, else the first selection entry, else nothing.
    pub fn selected(&self) -> (r: Option<(usize, usize)>)
        ensures
            r == (match (self.contour_idx, self.point_idx) {
                (Option::Some(ci), Option::Some(pi)) => Some((ci, pi)),
                _ => {
                    if self.selected@.len() > 0 {
                        Some(self.selected@[0])
                    } else {
                        None
                    }
                },
            }),
    {
        if let (Option::Some(ci), Option::Some(pi)) = (self.contour_idx, self.point_idx) {
            Some((ci, pi))
        } else if self.selected.len() > 0 {
            Some(self.selected[0])
        } else {
            None
        }
    }

    /// Empty the selection set and drop the live reference.
    pub fn clear_selection(&mut self)
        ensures
            final(self).selected@ == Seq::<(usize, usize)>::empty(),
            final(self).contour_idx.is_none(),
            final(self).point_idx.is_none(),
            final(self).layers == old(self).layers,
            final(self).layer_idx == old(self).layer_idx,
            final(self).tool == old(self).tool,
            final(self).modifying == old(self).modifying,
    {
        self.selected = Vec::new();
        self.contour_idx = None;
        self.point_idx = None;
    }

    pub fn set_tool(&mut self, tool: ToolEnum)
        ensures
            *final(self) == (Editor { tool, ..*old(self) }),
    {
        self.tool = tool;
    }

    pub fn is_modifying(&self) -> (r: bool)
        ensures
            r == self.modifying,
    {
        self.modifying
    }

    /// Open the undo-transaction bracket around a mutating operation. The
    /// history collaborator itself lives outside this engine.
    pub fn begin_modification(&mut self, label: &str)
        ensures
            *final(self) == (Editor { modifying: true, ..*old(self) }),
    {
        self.modifying = true;
    }

    /// Close the undo-transaction bracket.
    pub fn end_modification(&mut self)
        ensures
            *final(self) == (Editor { modifying: false, ..*old(self) }),
    {
        self.modifying = false;
    }

    /// Remove exactly the live point from its contour, without any
    /// split or operation bookkeeping; an invalid live reference makes this
    /// a recoverable no-op.
    pub fn simplify_selection(&mut self)
        requires
            old(self).wf(),
        ensures
            final(self).wf(),
            match (old(self).contour_idx, old(self).point_idx) {
                (Option::Some(ci), Option::Some(pi)) => {
                    &&& final(self).layers@.len() == old(self).layers@.len()
                    &&& final(self).layer_idx == old(self).layer_idx
                    &&& final(self).tool == old(self).tool
                    &&& final(self).modifying == false
                    &&& final(self).active_outline() == old(self).active_outline().update(
                        ci as int,
                        ContourView {
                            points: old(self).active_outline()[ci as int].points.remove(pi as int),
                            op: old(self).active_outline()[ci as int].op,
                        },
                    )
                    &&& forall|j: int|
                        0 <= j < old(self).layers@.len() && j != old(self).layer_idx
                            ==> final(self).layers@[j] == #[trigger] old(self).layers@[j]
                    &&& final(self).selected@ == Seq::<(usize, usize)>::empty()
                    &&& final(self).contour_idx.is_none()
                    &&& final(self).point_idx.is_none()
                },
                _ => *final(self) == *old(self),
            },
    {
        let (ci, pi) = match (self.contour_idx, self.point_idx) {
            (Option::Some(ci), Option::Some(pi)) => (ci, pi),
            _ => {
                return ;
            },
        };
        self.begin_modification("Simplify selection.");

        let li = self.layer_idx;
        let mut pts = copy_vec(&self.layers[li].outline[ci].inner);
        pts.remove(pi);
        let op = clone_op(&self.layers[li].outline[ci].operation);
        let newc = Contour { inner: pts, operation: op };
        proof {
            assert(newc@ == ContourView {
                points: old(self).active_outline()[ci as int].points.remove(pi as int),
                op: old(self).active_outline()[ci as int].op,
            });
        }
        self.layers[li].outline[ci] = newc;
        proof {
            assert(self.active_outline() =~~= old(self).active_outline().update(
                ci as int,
                ContourView {
                    points: old(self).active_outline()[ci as int].points.remove(pi as int),
                    op: old(self).active_outline()[ci as int].op,
                },
            ));
        }

        self.contour_idx = None;
        self.point_idx = None;
        self.selected = Vec::new();

        self.end_modification();
    }
}

/// The keep mask the split-and-filter algorithm runs under for contour
/// `ci`: with `keep_selected` true the selected points survive (copy), with
/// it false the unselected points survive (delete).
pub open spec fn keep_mask(e: Editor, ci: int, keep_selected: bool) -> Seq<bool> {
    Seq::new(
        e.active_outline()[ci].points.len(),
        |pi: int| e.spec_selected(ci as usize, pi as usize) == keep_selected,
    )
}

/// The concatenated partition results of the first `ci` contours.
pub open spec fn filtered_upto(e: Editor, keep_selected: bool, ci: int) -> Seq<ContourView>
    decreases ci,
{
    if ci <= 0 {
        Seq::empty()
    } else {
        filtered_upto(e, keep_selected, ci - 1) + spec_partition(
            e.active_outline()[ci - 1],
            keep_mask(e, ci - 1, keep_selected),
        )
    }
}

/// The outline that filtering the whole active layer produces.
pub open spec fn filtered_outline_spec(e: Editor, keep_selected: bool) -> Seq<ContourView> {
    filtered_upto(e, keep_selected, e.active_outline().len() as int)
}

impl Editor {
    fn filtered_outline(&self, keep_selected: bool) -> (out: Vec<Contour>)
        requires
            self.wf(),
        ensures
            outline_view(out@) == filtered_outline_spec(*self, keep_selected),
    {
        let li = self.layer_idx;
        let n = self.layers[li].outline.len();
        let mut out: Vec<Contour> = Vec::new();
        let mut ci: usize = 0;
        while ci < n
            invariant
                self.wf(),
                ci <= n,
                li == self.layer_idx,
                n == self.active_outline().len(),
                outline_view(out@) == filtered_upto(*self, keep_selected, ci as int),
            decreases n - ci,
        {
            let m = self.layers[li].outline[ci].inner.len();
            proof {
                assert(self.active_outline()[ci as int] == self.layers@[li as int].outline@[
                    ci as int
                ]@);
            }
            let mut keep: Vec<bool> = Vec::new();
            let mut pi: usize = 0;
            while pi < m
                invariant
                    self.wf(),
                    pi <= m,
                    ci < n,
                    li == self.layer_idx,
                    n == self.active_outline().len(),
                    m == self.active_outline()[ci as int].points.len(),
                    keep@ == keep_mask(*self, ci as int, keep_selected).take(pi as int),
                decreases m - pi,
            {
                let sel = self.point_selected(ci, pi);
                keep.push(sel == keep_selected);
                proof {
                    assert(keep@ =~= keep_mask(*self, ci as int, keep_selected).take(
                        pi as int + 1,
                    ));
                }
                pi += 1;
            }
            proof {
                assert(keep@ =~= keep_mask(*self, ci as int, keep_selected));
            }
            let mut frags = partition_contour(&self.layers[li].outline[ci], &keep);
            let ghost pre = outline_view(out@);
            out.append(&mut frags);
            proof {
                assert(outline_view(out@) =~~= pre + spec_partition(
                    self.active_outline()[ci as int],
                    keep_mask(*self, ci as int, keep_selected),
                ));
            }
            ci += 1;
        }
        out
    }

    /// Replace the active layer's outline with the fragments that survive
    /// removing every selected point, then clear the selection and the live
    /// reference.
    pub fn delete_selection(&mut self)
        requires
            old(self).wf(),
        ensures
            final(self).wf(),
            final(self).active_outline() == filtered_outline_spec(*old(self), false),
            final(self).selected@ == Seq::<(usize, usize)>::empty(),
            final(self).contour_idx.is_none(),
            final(self).point_idx.is_none(),
            final(self).layers@.len() == old(self).layers@.len(),
            final(self).layer_idx == old(self).layer_idx,
            final(self).tool == old(self).tool,
            final(self).modifying == false,
            forall|j: int|
                0 <= j < old(self).layers@.len() && j != old(self).layer_idx
                    ==> final(self).layers@[j] == #[trigger] old(self).layers@[j],
    {
        let new_outline = self.filtered_outline(false);
        self.begin_modification("Delete selection.");
        let li = self.layer_idx;
        self.layers[li] = Layer { outline: new_outline };
        self.contour_idx = None;
        self.point_idx = None;
        self.selected = Vec::new();
        self.end_modification();
    }

    /// Write the current selection as clipboard text: the surviving
    /// fragments of the split-and-filter walk that keeps exactly the
    /// selected points, framed as this application's clipboard payload.
    pub fn copy_selection(&self) -> (text: Vec<u8>)
        requires
            self.wf(),
        ensures
            text@ == spec_clip_text(filtered_outline_spec(*self, true)),
    {
        let outline = self.filtered_outline(true);
        let layer = Layer { outline };
        proof {
            assert(layer@ == filtered_outline_spec(*self, true));
        }
        clipboard_text_for_layer(&layer)
    }
}

/// Copy/paste round-trip: the clipboard text that `copy_selection` writes
/// for the current selection parses back to exactly the fragments the
/// split-and-filter walk kept, and pasting it with no position appends
/// exactly those fragments, point for point.
pub proof fn lemma_copy_paste_round_trip(e: Editor)
    requires
        e.wf(),
        crate::payload::layer_encodable(filtered_outline_spec(e, true)),
    ensures
        spec_parse_clipboard(spec_clip_text(filtered_outline_spec(e, true))) == Some(
            filtered_outline_spec(e, true),
        ),
        paste_translated(filtered_outline_spec(e, true), None) == Some(
            filtered_outline_spec(e, true),
        ),
{
    crate::payload::lemma_clipboard_round_trip(filtered_outline_spec(e, true));
}

/// The coordinates the selected points contribute to the selection's
/// bounding box, in selection order.
pub open spec fn sel_coords_upto(e: Editor, k: int) -> Seq<(i64, i64)>
    decreases k,
{
    if k <= 0 {
        Seq::empty()
    } else {
        sel_coords_upto(e, k - 1) + point_coords(
            e.active_outline()[e.selected@[k - 1].0 as int].points[e.selected@[k - 1].1 as int],
        )
    }
}

pub open spec fn selection_coords(e: Editor) -> Seq<(i64, i64)> {
    sel_coords_upto(e, e.selected@.len() as int)
}

impl Editor {
    /// The axis-aligned bounding box over every selected point's position
    /// and explicit handle positions; nothing selected gives no box.
    pub fn build_selection_bounding_box(&self) -> (r: Option<Rect>)
        requires
            self.wf(),
        ensures
            selection_coords(*self).len() == 0 ==> r.is_none(),
            selection_coords(*self).len() > 0 ==> r == Some(spec_bbox(selection_coords(*self))),
    {
        let li = self.layer_idx;
        let mut coords: Vec<(i64, i64)> = Vec::new();
        let mut k: usize = 0;
        while k < self.selected.len()
            invariant
                self.wf(),
                k <= self.selected@.len(),
                li == self.layer_idx,
                coords@ == sel_coords_upto(*self, k as int),
            decreases self.selected@.len() - k,
        {
            let (ci, pi) = self.selected[k];
            let p = self.layers[li].outline[ci].inner[pi];
            let ghost pre = coords@;
            proof {
                assert(p == self.active_outline()[ci as int].points[pi as int]);
            }
            coords.push((p.x, p.y));
            match p.a {
                Handle::At(x, y) => coords.push((x, y)),
                Handle::Colocated => {},
            }
            match p.b {
                Handle::At(x, y) => coords.push((x, y)),
                Handle::Colocated => {},
            }
            proof {
                assert(coords@ =~= pre + point_coords(p));
            }
            k += 1;
        }
        bbox_of_coords(&coords)
    }

    /// The center of the selection's bounding box, used as the default
    /// rotation pivot.
    pub fn get_selection_bounding_box_center(&self) -> (r: Option<(i64, i64)>)
        requires
            self.wf(),
        ensures
            selection_coords(*self).len() == 0 ==> r.is_none(),
            selection_coords(*self).len() > 0 ==> r == Some(
                rect_center(spec_bbox(selection_coords(*self))),
            ),
    {
        match self.build_selection_bounding_box() {
            Option::Some(rect) => {
                proof {
                    lemma_bbox_wf(selection_coords(*self));
                }
                Some(rect_center_exec(rect))
            },
            Option::None => None,
        }
    }
}

/// What pasting derives from the decoded clipboard layer: unchanged
/// contours when no position is requested or there is nothing to measure,
/// else every coordinate moved by the difference between the requested
/// position and the pasted content's bounding-box center; nothing at all if
/// that translation would leave the coordinate range.
pub open spec fn paste_translated(lv: Seq<ContourView>, position: Option<(i64, i64)>) -> Option<
    Seq<ContourView>,
> {
    match position {
        Option::None => Some(lv),
        Option::Some(p) => {
            let cs = outline_coords(lv);
            if cs.len() == 0 {
                Some(lv)
            } else {
                let c = rect_center(spec_bbox(cs));
                let dx = p.0 - c.0;
                let dy = p.1 - c.1;
                if tr_ok(lv, dx, dy) {
                    Some(tr_outline(lv, dx, dy))
                } else {
                    None
                }
            }
        },
    }
}

pub open spec fn contour_pairs(ci: int, n: nat) -> Seq<(usize, usize)> {
    Seq::new(n, |pi: int| (ci as usize, pi as usize))
}

pub open spec fn paste_pairs_upto(base: int, lv: Seq<ContourView>, k: int) -> Seq<(usize, usize)>
    decreases k,
{
    if k <= 0 {
        Seq::empty()
    } else {
        paste_pairs_upto(base, lv, k - 1) + contour_pairs(base + k - 1, lv[k - 1].points.len())
    }
}

/// The selection entries covering every point of the pasted contours,
/// whose indices start at the pre-paste outline length.
pub open spec fn paste_pairs(base: int, lv: Seq<ContourView>) -> Seq<(usize, usize)> {
    paste_pairs_upto(base, lv, lv.len() as int)
}

fn tr_point_checked(p: Point, dxw: i128, dyw: i128) -> (r: Option<Point>)
    requires
        -36893488147419103232 <= dxw <= 36893488147419103232,
        -36893488147419103232 <= dyw <= 36893488147419103232,
    ensures
        r.is_some() <==> point_tr_ok(p, dxw as int, dyw as int),
        r.is_some() ==> r == Some(tr_point(p, dxw as int, dyw as int)),
{
    let lo = i64::MIN as i128;
    let hi = i64::MAX as i128;
    let nx = p.x as i128 + dxw;
    if nx < lo || nx > hi {
        return None;
    }
    let ny = p.y as i128 + dyw;
    if ny < lo || ny > hi {
        return None;
    }
    let a = match p.a {
        Handle::Colocated => Handle::Colocated,
        Handle::At(x, y) => {
            let hx = x as i128 + dxw;
            if hx < lo || hx > hi {
                return None;
            }
            let hy = y as i128 + dyw;
            if hy < lo || hy > hi {
                return None;
            }
            Handle::At(hx as i64, hy as i64)
        },
    };
    let b = match p.b {
        Handle::Colocated => Handle::Colocated,
        Handle::At(x, y) => {
            let hx = x as i128 + dxw;
            if hx < lo || hx > hi {
                return None;
            }
            let hy = y as i128 + dyw;
            if hy < lo || hy > hi {
                return None;
            }
            Handle::At(hx as i64, hy as i64)
        },
    };
    Some(Point { x: nx as i64, y: ny as i64, a, b, ptype: p.ptype, smooth: p.smooth })
}

/// Translate decoded clipboard contours for pasting at a requested
/// position, refusing the whole paste if any coordinate would leave the
/// representable range.
fn translate_for_paste(src: Vec<Contour>, position: Option<(i64, i64)>) -> (r: Option<
    Vec<Contour>,
>)
    ensures
        match r {
            Option::Some(v) => paste_translated(outline_view(src@), position) == Some(
                outline_view(v@),
            ),
            Option::None => paste_translated(outline_view(src@), position).is_none(),
        },
{
    let ghost lv = outline_view(src@);
    let (px, py) = match position {
        Option::None => {
            return Some(src);
        },
        Option::Some(p) => p,
    };
    // gather the coordinates of the pasted content
    let mut coords: Vec<(i64, i64)> = Vec::new();
    let mut ci: usize = 0;
    while ci < src.len()
        invariant
            ci <= src@.len(),
            lv == outline_view(src@),
            coords@ == outline_coords_upto(lv, ci as int),
        decreases src@.len() - ci,
    {
        let m = src[ci].inner.len();
        let ghost pts = lv[ci as int].points;
        let ghost pre_c = coords@;
        let mut pi: usize = 0;
        while pi < m
            invariant
                pi <= m,
                ci < src@.len(),
                lv == outline_view(src@),
                pts == lv[ci as int].points,
                m == pts.len(),
                coords@ == pre_c + points_coords_upto(pts, pi as int),
            decreases m - pi,
        {
            let p = src[ci].inner[pi];
            let ghost pc0 = coords@;
            proof {
                assert(p == pts[pi as int]);
            }
            coords.push((p.x, p.y));
            match p.a {
                Handle::At(x, y) => coords.push((x, y)),
                Handle::Colocated => {},
            }
            match p.b {
                Handle::At(x, y) => coords.push((x, y)),
                Handle::Colocated => {},
            }
            proof {
                assert(coords@ =~= pc0 + point_coords(p));
                assert(coords@ =~= pre_c + points_coords_upto(pts, pi as int + 1));
            }
            pi += 1;
        }
        proof {
            assert(coords@ =~= outline_coords_upto(lv, ci as int + 1));
        }
        ci += 1;
    }
    proof {
        assert(coords@ == outline_coords(lv));
    }
    if coords.len() == 0 {
        return Some(src);
    }
    let rect = bbox_of_coords(&coords).unwrap();
    proof {
        lemma_bbox_wf(coords@);
    }
    let c = rect_center_exec(rect);
    let dxw: i128 = px as i128 - c.0 as i128;
    let dyw: i128 = py as i128 - c.1 as i128;
    let ghost dx = px - c.0 as int;
    let ghost dy = py - c.1 as int;
    let mut newo: Vec<Contour> = Vec::new();
    let mut ci2: usize = 0;
    while ci2 < src.len()
        invariant
            ci2 <= src@.len(),
            lv == outline_view(src@),
            dxw == dx,
            dyw == dy,
            -36893488147419103232 <= dxw <= 36893488147419103232,
            -36893488147419103232 <= dyw <= 36893488147419103232,
            coords@ == outline_coords(lv),
            coords@.len() > 0,
            position == Some((px, py)),
            dx == px - rect_center(spec_bbox(coords@)).0,
            dy == py - rect_center(spec_bbox(coords@)).1,
            outline_view(newo@) == tr_outline(lv, dx, dy).take(ci2 as int),
            forall|i: int, j: int|
                0 <= i < ci2 && 0 <= j < lv[i].points.len() ==> point_tr_ok(
                    #[trigger] lv[i].points[j],
                    dx,
                    dy,
                ),
        decreases src@.len() - ci2,
    {
        let m = src[ci2].inner.len();
        let ghost pts = lv[ci2 as int].points;
        let mut npts: Vec<Point> = Vec::new();
        let mut pj: usize = 0;
        while pj < m
            invariant
                pj <= m,
                ci2 < src@.len(),
                lv == outline_view(src@),
                dxw == dx,
                dyw == dy,
                -36893488147419103232 <= dxw <= 36893488147419103232,
                -36893488147419103232 <= dyw <= 36893488147419103232,
                coords@ == outline_coords(lv),
                coords@.len() > 0,
                position == Some((px, py)),
                dx == px - rect_center(spec_bbox(coords@)).0,
                dy == py - rect_center(spec_bbox(coords@)).1,
                pts == lv[ci2 as int].points,
                m == pts.len(),
                npts@ == tr_points(pts, dx, dy).take(pj as int),
                forall|j: int| 0 <= j < pj ==> point_tr_ok(#[trigger] pts[j], dx, dy),
            decreases m - pj,
        {
            let p = src[ci2].inner[pj];
            proof {
                assert(p == pts[pj as int]);
            }
            let np = match tr_point_checked(p, dxw, dyw) {
                Option::Some(np) => np,
                Option::None => {
                    proof {
                        assert(!point_tr_ok(lv[ci2 as int].points[pj as int], dx, dy));
                        assert(!tr_ok(lv, dx, dy));
                    }
                    return None;
                },
            };
            npts.push(np);
            proof {
                assert(npts@ =~= tr_points(pts, dx, dy).take(pj as int + 1));
            }
            pj += 1;
        }
        let op = clone_op(&src[ci2].operation);
        let nc = Contour { inner: npts, operation: op };
        proof {
            assert(tr_points(pts, dx, dy).take(m as int) =~= tr_points(pts, dx, dy));
            assert(nc@ == tr_outline(lv, dx, dy)[ci2 as int]);
        }
        let ghost prevv = outline_view(newo@);
        newo.push(nc);
        proof {
            assert(outline_view(newo@) =~~= prevv.push(nc@));
            assert(tr_outline(lv, dx, dy).take(ci2 as int + 1) =~= tr_outline(lv, dx, dy).take(
                ci2 as int,
            ).push(tr_outline(lv, dx, dy)[ci2 as int]));
            assert(outline_view(newo@) =~~= tr_outline(lv, dx, dy).take(ci2 as int + 1));
        }
        ci2 += 1;
    }
    proof {
        assert(tr_ok(lv, dx, dy));
        assert(outline_view(newo@) =~~= tr_outline(lv, dx, dy));
    }
    Some(newo)
}

impl Editor {
    /// Paste clipboard text: nothing at all happens unless the text carries
    /// this application's tag, a tab, and a decodable payload whose
    /// requested translation stays representable; a committed paste appends
    /// the (possibly translated) contours to the active outline, merges a
    /// selection covering every pasted point into the existing selection,
    /// and drops the live reference.
    pub fn paste_selection(&mut self, text: &Vec<u8>, position: Option<(i64, i64)>)
        requires
            old(self).wf(),
        ensures
            final(self).wf(),
            match spec_parse_clipboard(text@) {
                Option::None => *final(self) == *old(self),
                Option::Some(lv) => match paste_translated(lv, position) {
                    Option::None => *final(self) == *old(self),
                    Option::Some(tr) => {
                        &&& final(self).active_outline() == old(self).active_outline() + tr
                        &&& final(self).selected@ == old(self).selected@ + paste_pairs(
                            old(self).active_outline().len() as int,
                            tr,
                        )
                        &&& final(self).contour_idx.is_none()
                        &&& final(self).point_idx.is_none()
                        &&& final(self).layers@.len() == old(self).layers@.len()
                        &&& final(self).layer_idx == old(self).layer_idx
                        &&& final(self).tool == old(self).tool
                        &&& final(self).modifying == false
                        &&& (forall|j: int|
                            0 <= j < old(self).layers@.len() && j != old(self).layer_idx
                                ==> final(self).layers@[j] == #[trigger] old(self).layers@[j])
                    },
                },
            },
    {
        let clip = match parse_clipboard(text) {
            Option::Some(l) => l,
            Option::None => {
                return ;
            },
        };
        let ghost lv = clip@;
        let Layer { outline: src } = clip;
        let to_paste = match translate_for_paste(src, position) {
            Option::Some(v) => v,
            Option::None => {
                return ;
            },
        };
        let ghost tr = outline_view(to_paste@);

        self.begin_modification("Paste clipboard.");
        self.contour_idx = None;
        self.point_idx = None;

        let li = self.layer_idx;
        let ghost old_active = old(self).active_outline();
        let ghost old_sel = old(self).selected@;
        let mut k: usize = 0;
        while k < to_paste.len()
            invariant
                k <= to_paste@.len(),
                tr == outline_view(to_paste@),
                li == self.layer_idx,
                li < self.layers@.len(),
                self.layers@.len() == old(self).layers@.len(),
                self.contour_idx.is_none(),
                self.point_idx.is_none(),
                self.tool == old(self).tool,
                self.modifying == true,
                old_active == old(self).active_outline(),
                old_sel == old(self).selected@,
                self.active_outline() == old_active + tr.take(k as int),
                self.selected@ == old_sel + paste_pairs_upto(old_active.len() as int, tr, k as int),
                self.sel_ok(),
                forall|j: int|
                    0 <= j < old(self).layers@.len() && j != li ==> self.layers@[j]
                        == #[trigger] old(self).layers@[j],
                old(self).wf(),
            decreases to_paste@.len() - k,
        {
            let cur_idx = self.layers[li].outline.len();
            let c = crate::outline::clone_contour(&to_paste[k]);
            proof {
                assert(c@ == tr[k as int]);
            }
            let ghost prev_active = self.active_outline();
            self.layers[li].outline.push(c);
            proof {
                assert(self.active_outline() =~~= prev_active.push(c@));
                assert(old_active + tr.take(k as int + 1) =~= (old_active + tr.take(
                    k as int,
                )).push(tr[k as int]));
                assert(self.active_outline() =~~= old_active + tr.take(k as int + 1));
            }
            let m = self.layers[li].outline[cur_idx].inner.len();
            proof {
                assert(m == tr[k as int].points.len());
            }
            let mut pi: usize = 0;
            while pi < m
                invariant
                    pi <= m,
                    cur_idx < self.active_outline().len(),
                    m == self.active_outline()[cur_idx as int].points.len(),
                    self.selected@ == old_sel + paste_pairs_upto(
                        old_active.len() as int,
                        tr,
                        k as int,
                    ) + contour_pairs(cur_idx as int, pi as nat),
                    self.sel_ok(),
                    self.layers@.len() == old(self).layers@.len(),
                    li == self.layer_idx,
                    li < self.layers@.len(),
                    self.contour_idx.is_none(),
                    self.point_idx.is_none(),
                    self.tool == old(self).tool,
                    self.modifying == true,
                    self.active_outline() == old_active + tr.take(k as int + 1),
                    tr == outline_view(to_paste@),
                    k < to_paste@.len(),
                    old_active == old(self).active_outline(),
                    old_sel == old(self).selected@,
                    forall|j: int|
                        0 <= j < old(self).layers@.len() && j != li ==> self.layers@[j]
                            == #[trigger] old(self).layers@[j],
                    old(self).wf(),
                decreases m - pi,
            {
                self.selected.push((cur_idx, pi));
                proof {
                    assert(contour_pairs(cur_idx as int, pi as nat + 1) =~= contour_pairs(
                        cur_idx as int,
                        pi as nat,
                    ).push((cur_idx, pi)));
                    assert(self.selected@ =~= old_sel + paste_pairs_upto(
                        old_active.len() as int,
                        tr,
                        k as int,
                    ) + contour_pairs(cur_idx as int, pi as nat + 1));
                }
                pi += 1;
            }
            proof {
                assert(contour_pairs(cur_idx as int, m as nat) == contour_pairs(
                    old_active.len() as int + k,
                    tr[k as int].points.len(),
                ));
                assert(self.selected@ =~= old_sel + paste_pairs_upto(
                    old_active.len() as int,
                    tr,
                    k as int + 1,
                ));
            }
            k += 1;
        }
        proof {
            assert(tr.take(to_paste@.len() as int) =~= tr);
            assert(paste_pairs_upto(old_active.len() as int, tr, to_paste@.len() as int)
                == paste_pairs(old_active.len() as int, tr));
        }
        self.end_modification();
    }
}

} // verus!
