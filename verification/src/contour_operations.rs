//! Procedural contour operations: their parameters, the notifications that
//! keep them in step with structural edits of their skeleton, and the build
//! engine that derives a renderable outline from skeleton and operation.

use vstd::prelude::*;

use crate::outline::{outline_view, Contour, ContourView, Handle, Point, PointType};
use crate::util::{copy_vec, sat_add, sat_neg, spec_sat_add, spec_sat_neg};

verus! {

/// Stroke-width profile entry attached to one skeleton point: how far the
/// stroke extends to each side of the path there.
#[derive(Clone, Copy, Debug, PartialEq, Eq, Structural)]
pub struct VwsHandle {
    pub left: i64,
    pub right: i64,
}

/// Parameters of a variable-width stroke: one profile entry per skeleton
/// point, indexed by point position.
#[derive(Debug, PartialEq)]
pub struct VwsParams {
    pub handles: Vec<VwsHandle>,
}

/// Parameters of pattern-along-path: the stamped pattern contour and its
/// spacing. Neither is indexed by point position.
#[derive(Debug, PartialEq)]
pub struct PapParams {
    pub pattern: Vec<Point>,
    pub spacing: i64,
}

/// Parameters of dash-along-path: the dash lengths, cycled along the path.
#[derive(Debug, PartialEq)]
pub struct DashParams {
    pub lengths: Vec<i64>,
}

/// The procedural operation attached to a skeleton contour.
#[derive(Debug, PartialEq)]
pub enum ContourOperations {
    VariableWidthStroke { data: VwsParams },
    PatternAlongPath { data: PapParams },
    DashAlongPath { data: DashParams },
}

/// The mathematical value of an optional contour operation.
#[verifier::ext_equal]
pub enum OpView {
    NoOp,
    Vws { handles: Seq<VwsHandle> },
    Pap { pattern: Seq<Point>, spacing: i64 },
    Dash { lengths: Seq<i64> },
}

pub open spec fn op_view(op: Option<ContourOperations>) -> OpView {
    match op {
        Option::None => OpView::NoOp,
        Option::Some(ContourOperations::VariableWidthStroke { data }) => OpView::Vws {
            handles: data.handles@,
        },
        Option::Some(ContourOperations::PatternAlongPath { data }) => OpView::Pap {
            pattern: data.pattern@,
            spacing: data.spacing,
        },
        Option::Some(ContourOperations::DashAlongPath { data }) => OpView::Dash {
            lengths: data.lengths@,
        },
    }
}

pub fn clone_op(op: &Option<ContourOperations>) -> (r: Option<ContourOperations>)
    ensures
        op_view(r) == op_view(*op),
{
    match op {
        Option::None => None,
        Option::Some(ContourOperations::VariableWidthStroke { data }) => Some(
            ContourOperations::VariableWidthStroke {
                data: VwsParams { handles: copy_vec(&data.handles) },
            },
        ),
        Option::Some(ContourOperations::PatternAlongPath { data }) => Some(
            ContourOperations::PatternAlongPath {
                data: PapParams { pattern: copy_vec(&data.pattern), spacing: data.spacing },
            },
        ),
        Option::Some(ContourOperations::DashAlongPath { data }) => Some(
            ContourOperations::DashAlongPath {
                data: DashParams { lengths: copy_vec(&data.lengths) },
            },
        ),
    }
}

/// Clamp an index into `[0, len]`.
pub open spec fn clamp_idx(len: int, i: int) -> int {
    if i < 0 {
        0
    } else if i > len {
        len
    } else {
        i
    }
}

/// What a `sub` notification does to an operation's abstract value: the
/// position-indexed stroke profile is truncated to the surviving range;
/// operations with no position-indexed parameters are unchanged.
pub open spec fn sub_op(op: OpView, begin: int, end: int) -> OpView {
    match op {
        OpView::Vws { handles } => {
            let b = clamp_idx(handles.len() as int, begin);
            let e0 = clamp_idx(handles.len() as int, end);
            let e = if e0 < b {
                b
            } else {
                e0
            };
            OpView::Vws { handles: handles.subrange(b, e) }
        },
        _ => op,
    }
}

/// What an `append` notification does: position-indexed parameters of the
/// appended fragment's operation are concatenated onto this one's.
pub open spec fn append_op(op: OpView, appended: OpView) -> OpView {
    match (op, appended) {
        (OpView::Vws { handles: h1 }, OpView::Vws { handles: h2 }) => OpView::Vws {
            handles: h1 + h2,
        },
        _ => op,
    }
}

/// What an `insert` notification does: the stroke profile gains an entry at
/// the inserted position, copied from its nearest surviving neighbour.
pub open spec fn insert_op(op: OpView, idx: int) -> OpView {
    match op {
        OpView::Vws { handles } => {
            let i = clamp_idx(handles.len() as int, idx);
            let h = if handles.len() == 0 {
                VwsHandle { left: 0, right: 0 }
            } else if i < handles.len() {
                handles[i]
            } else {
                handles[handles.len() - 1]
            };
            OpView::Vws { handles: handles.insert(i, h) }
        },
        _ => op,
    }
}

/// Mutation notifications by which a contour operation tracks structural
/// edits of the skeleton it is attached to.
pub trait ContourOperation {
    spec fn op(&self) -> OpView;

    /// The skeleton has been reduced to the point range `[begin, end)`.
    fn sub(&mut self, contour: &Contour, begin: usize, end: usize)
        ensures
            final(self).op() == sub_op(old(self).op(), begin as int, end as int),
    ;

    /// The points of `appended` were appended to this operation's skeleton.
    fn append(&mut self, contour: &Contour, appended: &Contour)
        ensures
            final(self).op() == append_op(old(self).op(), appended@.op),
    ;

    /// A new point was inserted at `point_idx`.
    fn insert(&mut self, contour: &Contour, point_idx: usize)
        ensures
            final(self).op() == insert_op(old(self).op(), point_idx as int),
    ;
}

impl ContourOperation for Option<ContourOperations> {
    open spec fn op(&self) -> OpView {
        op_view(*self)
    }

    fn sub(&mut self, contour: &Contour, begin: usize, end: usize) {
        match self {
            Option::Some(ContourOperations::VariableWidthStroke { data }) => {
                let len = data.handles.len();
                let b = if begin > len {
                    len
                } else {
                    begin
                };
                let e0 = if end > len {
                    len
                } else {
                    end
                };
                let e = if e0 < b {
                    b
                } else {
                    e0
                };
                let mut kept: Vec<VwsHandle> = Vec::new();
                let mut j: usize = b;
                while j < e
                    invariant
                        b <= j <= e <= data.handles@.len(),
                        kept@ == data.handles@.subrange(b as int, j as int),
                    decreases e - j,
                {
                    kept.push(data.handles[j]);
                    proof {
                        assert(kept@ =~= data.handles@.subrange(b as int, j as int + 1));
                    }
                    j += 1;
                }
                data.handles = kept;
            },
            _ => {},
        }
    }

    fn append(&mut self, contour: &Contour, appended: &Contour) {
        match self {
            Option::Some(ContourOperations::VariableWidthStroke { data }) => {
                match &appended.operation {
                    Option::Some(ContourOperations::VariableWidthStroke { data: other }) => {
                        let mut extra = copy_vec(&other.handles);
                        data.handles.append(&mut extra);
                    },
                    _ => {},
                }
            },
            _ => {},
        }
    }

    fn insert(&mut self, contour: &Contour, point_idx: usize) {
        match self {
            Option::Some(ContourOperations::VariableWidthStroke { data }) => {
                let len = data.handles.len();
                let i = if point_idx > len {
                    len
                } else {
                    point_idx
                };
                let h = if len == 0 {
                    VwsHandle { left: 0, right: 0 }
                } else if i < len {
                    data.handles[i]
                } else {
                    data.handles[len - 1]
                };
                data.handles.insert(i, h);
            },
            _ => {},
        }
    }
}

/// The stroke half-width on the left side at point `i`, zero where the
/// profile has no entry.
pub open spec fn profile_left(handles: Seq<VwsHandle>, i: int) -> i64 {
    if 0 <= i < handles.len() {
        handles[i].left
    } else {
        0
    }
}

pub open spec fn profile_right(handles: Seq<VwsHandle>, i: int) -> i64 {
    if 0 <= i < handles.len() {
        handles[i].right
    } else {
        0
    }
}

pub open spec fn shift_x_handle(h: Handle, d: i64) -> Handle {
    match h {
        Handle::Colocated => Handle::Colocated,
        Handle::At(x, y) => Handle::At(spec_sat_add(x, d), y),
    }
}

pub open spec fn shift_x_point(p: Point, d: i64) -> Point {
    Point {
        x: spec_sat_add(p.x, d),
        y: p.y,
        a: shift_x_handle(p.a, d),
        b: shift_x_handle(p.b, d),
        ptype: p.ptype,
        smooth: p.smooth,
    }
}

fn shift_point_x(p: Point, d: i64) -> (r: Point)
    ensures
        r == shift_x_point(p, d),
{
    let a = match p.a {
        Handle::Colocated => Handle::Colocated,
        Handle::At(x, y) => Handle::At(sat_add(x, d), y),
    };
    let b = match p.b {
        Handle::Colocated => Handle::Colocated,
        Handle::At(x, y) => Handle::At(sat_add(x, d), y),
    };
    Point { x: sat_add(p.x, d), y: p.y, a, b, ptype: p.ptype, smooth: p.smooth }
}

/// The deterministic stroke outline: the left side walked forward, then the
/// right side walked backward.
pub open spec fn vws_points(points: Seq<Point>, handles: Seq<VwsHandle>) -> Seq<Point> {
    Seq::new(points.len(), |i: int| shift_x_point(points[i], spec_sat_neg(profile_left(handles, i))))
        + Seq::new(
        points.len(),
        |i: int|
            shift_x_point(
                points[points.len() - 1 - i],
                profile_right(handles, points.len() - 1 - i),
            ),
    )
}

fn build_vws(points: &Vec<Point>, handles: &Vec<VwsHandle>) -> (out: Vec<Point>)
    ensures
        out@ == vws_points(points@, handles@),
{
    let n = points.len();
    let mut out: Vec<Point> = Vec::new();
    let ghost fwd = Seq::new(
        points@.len(),
        |i: int| shift_x_point(points@[i], spec_sat_neg(profile_left(handles@, i))),
    );
    let ghost bwd = Seq::new(
        points@.len(),
        |i: int|
            shift_x_point(
                points@[points@.len() - 1 - i],
                profile_right(handles@, points@.len() - 1 - i),
            ),
    );
    let mut i: usize = 0;
    while i < n
        invariant
            i <= n,
            n == points@.len(),
            fwd == Seq::new(
                points@.len(),
                |k: int| shift_x_point(points@[k], spec_sat_neg(profile_left(handles@, k))),
            ),
            out@ == fwd.take(i as int),
        decreases n - i,
    {
        let w = if i < handles.len() {
            handles[i].left
        } else {
            0
        };
        out.push(shift_point_x(points[i], sat_neg(w)));
        proof {
            assert(out@ =~= fwd.take(i as int + 1));
        }
        i += 1;
    }
    let mut j: usize = 0;
    while j < n
        invariant
            j <= n,
            n == points@.len(),
            bwd == Seq::new(
                points@.len(),
                |k: int|
                    shift_x_point(
                        points@[points@.len() - 1 - k],
                        profile_right(handles@, points@.len() - 1 - k),
                    ),
            ),
            out@ == fwd.take(n as int) + bwd.take(j as int),
        decreases n - j,
    {
        let src = n - 1 - j;
        let w = if src < handles.len() {
            handles[src].right
        } else {
            0
        };
        out.push(shift_point_x(points[src], w));
        proof {
            assert(out@ =~= fwd.take(n as int) + bwd.take(j as int + 1));
        }
        j += 1;
    }
    proof {
        assert(fwd.take(n as int) =~= fwd);
        assert(bwd.take(n as int) =~= bwd);
        assert(out@ =~= vws_points(points@, handles@));
    }
    out
}

pub open spec fn translate_handle_sat(h: Handle, dx: i64, dy: i64) -> Handle {
    match h {
        Handle::Colocated => Handle::Colocated,
        Handle::At(x, y) => Handle::At(spec_sat_add(x, dx), spec_sat_add(y, dy)),
    }
}

pub open spec fn translate_point_sat(p: Point, dx: i64, dy: i64) -> Point {
    Point {
        x: spec_sat_add(p.x, dx),
        y: spec_sat_add(p.y, dy),
        a: translate_handle_sat(p.a, dx, dy),
        b: translate_handle_sat(p.b, dx, dy),
        ptype: p.ptype,
        smooth: p.smooth,
    }
}

fn translate_point_sat_exec(p: Point, dx: i64, dy: i64) -> (r: Point)
    ensures
        r == translate_point_sat(p, dx, dy),
{
    let a = match p.a {
        Handle::Colocated => Handle::Colocated,
        Handle::At(x, y) => Handle::At(sat_add(x, dx), sat_add(y, dy)),
    };
    let b = match p.b {
        Handle::Colocated => Handle::Colocated,
        Handle::At(x, y) => Handle::At(sat_add(x, dx), sat_add(y, dy)),
    };
    Point { x: sat_add(p.x, dx), y: sat_add(p.y, dy), a, b, ptype: p.ptype, smooth: p.smooth }
}

/// One stamp of the pattern, translated to a skeleton point's position.
pub open spec fn stamped(pattern: Seq<Point>, dx: i64, dy: i64) -> Seq<Point> {
    Seq::new(pattern.len(), |j: int| translate_point_sat(pattern[j], dx, dy))
}

/// Pattern-along-path: one stamped copy of the pattern per skeleton point,
/// each an independent output contour.
pub open spec fn pap_outline(points: Seq<Point>, pattern: Seq<Point>) -> Seq<ContourView> {
    Seq::new(
        points.len(),
        |i: int| ContourView { points: stamped(pattern, points[i].x, points[i].y), op: OpView::NoOp },
    )
}

fn build_stamp(pattern: &Vec<Point>, dx: i64, dy: i64) -> (out: Vec<Point>)
    ensures
        out@ == stamped(pattern@, dx, dy),
{
    let mut out: Vec<Point> = Vec::new();
    let mut j: usize = 0;
    while j < pattern.len()
        invariant
            j <= pattern@.len(),
            out@ == stamped(pattern@, dx, dy).take(j as int),
        decreases pattern@.len() - j,
    {
        out.push(translate_point_sat_exec(pattern[j], dx, dy));
        proof {
            assert(out@ =~= stamped(pattern@, dx, dy).take(j as int + 1));
        }
        j += 1;
    }
    proof {
        assert(stamped(pattern@, dx, dy).take(pattern@.len() as int) =~= stamped(
            pattern@,
            dx,
            dy,
        ));
    }
    out
}

fn build_pap(points: &Vec<Point>, pattern: &Vec<Point>) -> (out: Vec<Contour>)
    ensures
        outline_view(out@) == pap_outline(points@, pattern@),
{
    let mut out: Vec<Contour> = Vec::new();
    let mut i: usize = 0;
    while i < points.len()
        invariant
            i <= points@.len(),
            outline_view(out@) == pap_outline(points@, pattern@).take(i as int),
        decreases points@.len() - i,
    {
        proof {
            assert(pap_outline(points@, pattern@).take(i as int).len() == i as int);
        }
        let stamp = build_stamp(pattern, points[i].x, points[i].y);
        out.push(Contour::from_points(stamp));
        proof {
            assert(outline_view(out@) =~~= pap_outline(points@, pattern@).take(i as int + 1));
        }
        i += 1;
    }
    proof {
        assert(pap_outline(points@, pattern@).take(points@.len() as int) =~~= pap_outline(
            points@,
            pattern@,
        ));
    }
    out
}

/// The dash pattern's on-length: how many consecutive points each dash keeps.
pub open spec fn dash_on(lengths: Seq<i64>) -> int {
    if lengths.len() >= 1 && lengths[0] >= 1 {
        lengths[0] as int
    } else {
        1
    }
}

/// The dash pattern's off-length: how many points each gap skips.
pub open spec fn dash_off(lengths: Seq<i64>) -> int {
    if lengths.len() >= 2 && lengths[1] >= 0 {
        lengths[1] as int
    } else {
        0
    }
}

/// Retype a fragment's first point to `Move`: it starts a new sub-path.
pub open spec fn retype_move(pts: Seq<Point>) -> Seq<Point> {
    if pts.len() == 0 {
        pts
    } else {
        pts.update(
            0,
            Point {
                x: pts[0].x,
                y: pts[0].y,
                a: pts[0].a,
                b: pts[0].b,
                ptype: PointType::Move,
                smooth: pts[0].smooth,
            },
        )
    }
}

/// Dash-along-path fragments: runs of `on` kept points separated by gaps of
/// `off` skipped points, each run an independent sub-path.
pub open spec fn dash_frags(points: Seq<Point>, on: int, off: int, start: int) -> Seq<ContourView>
    decreases points.len() - start,
{
    if start < 0 || start >= points.len() || on < 1 || off < 0 {
        Seq::empty()
    } else {
        let stop = if start + on > points.len() {
            points.len() as int
        } else {
            start + on
        };
        let next = if stop + off > points.len() {
            points.len() as int
        } else {
            stop + off
        };
        seq![
            ContourView { points: retype_move(points.subrange(start, stop)), op: OpView::NoOp },
        ] + dash_frags(points, on, off, next)
    }
}

pub open spec fn dash_outline(points: Seq<Point>, lengths: Seq<i64>) -> Seq<ContourView> {
    dash_frags(points, dash_on(lengths), dash_off(lengths), 0)
}

fn build_dash(points: &Vec<Point>, lengths: &Vec<i64>) -> (out: Vec<Contour>)
    ensures
        outline_view(out@) == dash_outline(points@, lengths@),
{
    let n = points.len();
    let on_l: i64 = if lengths.len() >= 1 && lengths[0] >= 1 {
        lengths[0]
    } else {
        1
    };
    let off_l: i64 = if lengths.len() >= 2 && lengths[1] >= 0 {
        lengths[1]
    } else {
        0
    };
    let ghost on = dash_on(lengths@);
    let ghost off = dash_off(lengths@);
    let mut out: Vec<Contour> = Vec::new();
    let mut start: usize = 0;
    while start < n
        invariant
            start <= n,
            n == points@.len(),
            on_l as int == on,
            off_l as int == off,
            on >= 1,
            off >= 0,
            dash_outline(points@, lengths@) == outline_view(out@) + dash_frags(
                points@,
                on,
                off,
                start as int,
            ),
        decreases n - start,
    {
        let ghost stop_s = if start as int + on > n as int {
            n as int
        } else {
            start as int + on
        };
        let mut frag: Vec<Point> = Vec::new();
        let mut k: usize = start;
        let mut cnt: i64 = 0;
        while k < n && cnt < on_l
            invariant
                start <= k <= n,
                n == points@.len(),
                cnt as int == k - start,
                cnt <= on_l,
                on_l as int == on,
                frag@ == points@.subrange(start as int, k as int),
            decreases n - k,
        {
            frag.push(points[k]);
            proof {
                assert(frag@ =~= points@.subrange(start as int, k as int + 1));
            }
            k += 1;
            cnt += 1;
        }
        proof {
            assert(k as int == stop_s);
        }
        let p0 = frag[0];
        frag[0] = Point {
            x: p0.x,
            y: p0.y,
            a: p0.a,
            b: p0.b,
            ptype: PointType::Move,
            smooth: p0.smooth,
        };
        proof {
            assert(frag@ =~= retype_move(points@.subrange(start as int, stop_s)));
        }
        let ghost next_s = if stop_s + off > n as int {
            n as int
        } else {
            stop_s + off
        };
        let mut cnt2: i64 = 0;
        while k < n && cnt2 < off_l
            invariant
                k <= n,
                cnt2 as int == k as int - stop_s,
                cnt2 <= off_l,
                off_l as int == off,
                stop_s <= k as int,
            decreases n - k,
        {
            k += 1;
            cnt2 += 1;
        }
        proof {
            assert(k as int == next_s);
        }
        out.push(Contour::from_points(frag));
        proof {
            assert(outline_view(out@) =~= outline_view(out@.drop_last()) + seq![
                ContourView {
                    points: retype_move(points@.subrange(start as int, stop_s)),
                    op: OpView::NoOp,
                },
            ]);
            assert(dash_outline(points@, lengths@) == outline_view(out@) + dash_frags(
                points@,
                on,
                off,
                next_s,
            ));
        }
        start = k;
    }
    proof {
        assert(dash_frags(points@, on, off, start as int) =~= Seq::<ContourView>::empty());
        assert(outline_view(out@) + Seq::<ContourView>::empty() =~= outline_view(out@));
    }
    out
}

/// What building derives from a skeleton and an operation: pass-through for
/// no operation, else the operation-specific generator's outline. Every
/// representable operation has a generator, so the defensive empty-outline
/// fallback for an unmatched variant has no case left to cover.
pub open spec fn build_op(op: OpView, points: Seq<Point>) -> Seq<ContourView> {
    match op {
        OpView::NoOp => seq![ContourView { points: points, op: OpView::NoOp }],
        OpView::Vws { handles } => seq![
            ContourView { points: vws_points(points, handles), op: OpView::NoOp },
        ],
        OpView::Pap { pattern, .. } => pap_outline(points, pattern),
        OpView::Dash { lengths } => dash_outline(points, lengths),
    }
}

/// The outline build engine: derive the renderable outline of a skeleton
/// contour under this operation.
pub trait ContourOperationBuild: ContourOperation {
    fn build(&self, contour: &Contour) -> (out: Vec<Contour>)
        ensures
            outline_view(out@) == build_op(self.op(), contour@.points),
    ;
}

impl ContourOperationBuild for Option<ContourOperations> {
    fn build(&self, contour: &Contour) -> (out: Vec<Contour>) {
        match self {
            Option::None => {
                let mut out: Vec<Contour> = Vec::new();
                out.push(Contour::from_points(copy_vec(&contour.inner)));
                proof {
                    assert(outline_view(out@) =~= build_op(self.op(), contour@.points));
                }
                out
            },
            Option::Some(ContourOperations::VariableWidthStroke { data }) => {
                let mut out: Vec<Contour> = Vec::new();
                out.push(Contour::from_points(build_vws(&contour.inner, &data.handles)));
                proof {
                    assert(outline_view(out@) =~= build_op(self.op(), contour@.points));
                }
                out
            },
            Option::Some(ContourOperations::PatternAlongPath { data }) => {
                build_pap(&contour.inner, &data.pattern)
            },
            Option::Some(ContourOperations::DashAlongPath { data }) => {
                build_dash(&contour.inner, &data.lengths)
            },
        }
    }
}

/// Build pass-through: building a contour with no operation yields exactly
/// one output contour whose points are the skeleton's, unchanged by value.
pub proof fn lemma_build_passthrough(c: ContourView)
    requires
        c.op == OpView::NoOp,
    ensures
        build_op(c.op, c.points).len() == 1,
        build_op(c.op, c.points)[0].points == c.points,
        build_op(c.op, c.points)[0].op == OpView::NoOp,
{
}

} // verus!
