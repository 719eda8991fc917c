//! The clipboard payload: a layer's contours, points and operation
//! parameters written as a token stream behind the application's tag, with
//! a proved encode/decode round trip.

use vstd::prelude::*;

use crate::contour_operations::{op_view, ContourOperations, DashParams, OpView, PapParams,
    VwsHandle, VwsParams};
use crate::outline::{outline_view, Contour, ContourView, Handle, Layer, Point, PointType};

verus! {

// ---------------------------------------------------------------------------
// Token layer: a layer's contours, points and operation parameters written
// as a flat stream of numbers.
// ---------------------------------------------------------------------------

pub open spec fn enc_handle(h: Handle) -> Seq<i128> {
    match h {
        Handle::Colocated => seq![0],
        Handle::At(x, y) => seq![1, x as i128, y as i128],
    }
}

pub open spec fn ptype_code(t: PointType) -> i128 {
    match t {
        PointType::Move => 0,
        PointType::Line => 1,
        PointType::Curve => 2,
        PointType::QCurve => 3,
        PointType::OffCurve => 4,
    }
}

pub open spec fn enc_point(p: Point) -> Seq<i128> {
    seq![p.x as i128, p.y as i128] + enc_handle(p.a) + enc_handle(p.b) + seq![
        ptype_code(p.ptype),
        if p.smooth {
            1
        } else {
            0
        },
    ]
}

pub open spec fn enc_points(pts: Seq<Point>) -> Seq<i128>
    decreases pts.len(),
{
    if pts.len() == 0 {
        Seq::empty()
    } else {
        enc_point(pts[0]) + enc_points(pts.skip(1))
    }
}

pub open spec fn enc_vws_handles(hs: Seq<crate::contour_operations::VwsHandle>) -> Seq<i128>
    decreases hs.len(),
{
    if hs.len() == 0 {
        Seq::empty()
    } else {
        seq![hs[0].left as i128, hs[0].right as i128] + enc_vws_handles(hs.skip(1))
    }
}

pub open spec fn enc_lengths(ls: Seq<i64>) -> Seq<i128>
    decreases ls.len(),
{
    if ls.len() == 0 {
        Seq::empty()
    } else {
        seq![ls[0] as i128] + enc_lengths(ls.skip(1))
    }
}

pub open spec fn enc_op(op: OpView) -> Seq<i128> {
    match op {
        OpView::NoOp => seq![0],
        OpView::Vws { handles } => seq![1, handles.len() as i128] + enc_vws_handles(handles),
        OpView::Pap { pattern, spacing } => seq![2, spacing as i128, pattern.len() as i128]
            + enc_points(pattern),
        OpView::Dash { lengths } => seq![3, lengths.len() as i128] + enc_lengths(lengths),
    }
}

pub open spec fn enc_contour(c: ContourView) -> Seq<i128> {
    enc_op(c.op) + seq![c.points.len() as i128] + enc_points(c.points)
}

pub open spec fn enc_contours(cs: Seq<ContourView>) -> Seq<i128>
    decreases cs.len(),
{
    if cs.len() == 0 {
        Seq::empty()
    } else {
        enc_contour(cs[0]) + enc_contours(cs.skip(1))
    }
}

pub open spec fn enc_layer(lv: Seq<ContourView>) -> Seq<i128> {
    seq![lv.len() as i128] + enc_contours(lv)
}

/// Whether an operation's parameter lists have machine-representable
/// lengths, so that the written counts are faithful.
pub open spec fn op_encodable(op: OpView) -> bool {
    match op {
        OpView::NoOp => true,
        OpView::Vws { handles } => handles.len() <= usize::MAX,
        OpView::Pap { pattern, spacing } => pattern.len() <= usize::MAX,
        OpView::Dash { lengths } => lengths.len() <= usize::MAX,
    }
}

pub open spec fn layer_encodable(lv: Seq<ContourView>) -> bool {
    &&& lv.len() <= usize::MAX
    &&& forall|i: int|
        0 <= i < lv.len() ==> (#[trigger] lv[i].points.len() <= usize::MAX && op_encodable(
            lv[i].op,
        ))
}

// ---------------------------------------------------------------------------
// Token-level decoding, as total functions over the token stream.
// ---------------------------------------------------------------------------

pub open spec fn dec_i64(ts: Seq<i128>) -> Option<(i64, Seq<i128>)> {
    if ts.len() >= 1 && i64::MIN as i128 <= ts[0] <= i64::MAX as i128 {
        Some(((ts[0] as i64), ts.skip(1)))
    } else {
        None
    }
}

pub open spec fn dec_count(ts: Seq<i128>) -> Option<(usize, Seq<i128>)> {
    if ts.len() >= 1 && 0 <= ts[0] <= usize::MAX as i128 {
        Some(((ts[0] as usize), ts.skip(1)))
    } else {
        None
    }
}

pub open spec fn dec_handle(ts: Seq<i128>) -> Option<(Handle, Seq<i128>)> {
    if ts.len() == 0 {
        None
    } else if ts[0] == 0 {
        Some((Handle::Colocated, ts.skip(1)))
    } else if ts[0] == 1 {
        match dec_i64(ts.skip(1)) {
            Option::None => None,
            Option::Some((x, r1)) => match dec_i64(r1) {
                Option::None => None,
                Option::Some((y, r2)) => Some((Handle::At(x, y), r2)),
            },
        }
    } else {
        None
    }
}

pub open spec fn dec_ptype(ts: Seq<i128>) -> Option<(PointType, Seq<i128>)> {
    if ts.len() == 0 {
        None
    } else if ts[0] == 0 {
        Some((PointType::Move, ts.skip(1)))
    } else if ts[0] == 1 {
        Some((PointType::Line, ts.skip(1)))
    } else if ts[0] == 2 {
        Some((PointType::Curve, ts.skip(1)))
    } else if ts[0] == 3 {
        Some((PointType::QCurve, ts.skip(1)))
    } else if ts[0] == 4 {
        Some((PointType::OffCurve, ts.skip(1)))
    } else {
        None
    }
}

pub open spec fn dec_point(ts: Seq<i128>) -> Option<(Point, Seq<i128>)> {
    match dec_i64(ts) {
        Option::None => None,
        Option::Some((x, r1)) => match dec_i64(r1) {
            Option::None => None,
            Option::Some((y, r2)) => match dec_handle(r2) {
                Option::None => None,
                Option::Some((a, r3)) => match dec_handle(r3) {
                    Option::None => None,
                    Option::Some((b, r4)) => match dec_ptype(r4) {
                        Option::None => None,
                        Option::Some((t, r5)) => {
                            if r5.len() >= 1 && (r5[0] == 0 || r5[0] == 1) {
                                Some(
                                    (
                                        Point {
                                            x,
                                            y,
                                            a,
                                            b,
                                            ptype: t,
                                            smooth: r5[0] == 1,
                                        },
                                        r5.skip(1),
                                    ),
                                )
                            } else {
                                None
                            }
                        },
                    },
                },
            },
        },
    }
}

pub open spec fn dec_points(n: nat, ts: Seq<i128>) -> Option<(Seq<Point>, Seq<i128>)>
    decreases n,
{
    if n == 0 {
        Some((Seq::empty(), ts))
    } else {
        match dec_point(ts) {
            Option::None => None,
            Option::Some((p, r1)) => match dec_points((n - 1) as nat, r1) {
                Option::None => None,
                Option::Some((pts, r2)) => Some((seq![p] + pts, r2)),
            },
        }
    }
}

pub open spec fn dec_vws_handles(n: nat, ts: Seq<i128>) -> Option<
    (Seq<crate::contour_operations::VwsHandle>, Seq<i128>),
>
    decreases n,
{
    if n == 0 {
        Some((Seq::empty(), ts))
    } else {
        match dec_i64(ts) {
            Option::None => None,
            Option::Some((l, r1)) => match dec_i64(r1) {
                Option::None => None,
                Option::Some((r, r2)) => match dec_vws_handles((n - 1) as nat, r2) {
                    Option::None => None,
                    Option::Some((hs, r3)) => Some(
                        (seq![crate::contour_operations::VwsHandle { left: l, right: r }] + hs, r3),
                    ),
                },
            },
        }
    }
}

pub open spec fn dec_lengths(n: nat, ts: Seq<i128>) -> Option<(Seq<i64>, Seq<i128>)>
    decreases n,
{
    if n == 0 {
        Some((Seq::empty(), ts))
    } else {
        match dec_i64(ts) {
            Option::None => None,
            Option::Some((l, r1)) => match dec_lengths((n - 1) as nat, r1) {
                Option::None => None,
                Option::Some((ls, r2)) => Some((seq![l] + ls, r2)),
            },
        }
    }
}

pub open spec fn dec_op(ts: Seq<i128>) -> Option<(OpView, Seq<i128>)> {
    if ts.len() == 0 {
        None
    } else if ts[0] == 0 {
        Some((OpView::NoOp, ts.skip(1)))
    } else if ts[0] == 1 {
        match dec_count(ts.skip(1)) {
            Option::None => None,
            Option::Some((n, r1)) => match dec_vws_handles(n as nat, r1) {
                Option::None => None,
                Option::Some((hs, r2)) => Some((OpView::Vws { handles: hs }, r2)),
            },
        }
    } else if ts[0] == 2 {
        match dec_i64(ts.skip(1)) {
            Option::None => None,
            Option::Some((spacing, r1)) => match dec_count(r1) {
                Option::None => None,
                Option::Some((n, r2)) => match dec_points(n as nat, r2) {
                    Option::None => None,
                    Option::Some((pts, r3)) => Some((OpView::Pap { pattern: pts, spacing }, r3)),
                },
            },
        }
    } else if ts[0] == 3 {
        match dec_count(ts.skip(1)) {
            Option::None => None,
            Option::Some((n, r1)) => match dec_lengths(n as nat, r1) {
                Option::None => None,
                Option::Some((ls, r2)) => Some((OpView::Dash { lengths: ls }, r2)),
            },
        }
    } else {
        None
    }
}

pub open spec fn dec_contour(ts: Seq<i128>) -> Option<(ContourView, Seq<i128>)> {
    match dec_op(ts) {
        Option::None => None,
        Option::Some((op, r1)) => match dec_count(r1) {
            Option::None => None,
            Option::Some((n, r2)) => match dec_points(n as nat, r2) {
                Option::None => None,
                Option::Some((pts, r3)) => Some((ContourView { points: pts, op }, r3)),
            },
        },
    }
}

pub open spec fn dec_contours(n: nat, ts: Seq<i128>) -> Option<(Seq<ContourView>, Seq<i128>)>
    decreases n,
{
    if n == 0 {
        Some((Seq::empty(), ts))
    } else {
        match dec_contour(ts) {
            Option::None => None,
            Option::Some((c, r1)) => match dec_contours((n - 1) as nat, r1) {
                Option::None => None,
                Option::Some((cs, r2)) => Some((seq![c] + cs, r2)),
            },
        }
    }
}

/// The whole-payload decode: a contour count, that many contours, and
/// nothing left over.
pub open spec fn dec_layer(ts: Seq<i128>) -> Option<Seq<ContourView>> {
    match dec_count(ts) {
        Option::None => None,
        Option::Some((n, r1)) => match dec_contours(n as nat, r1) {
            Option::None => None,
            Option::Some((cs, r2)) => {
                if r2.len() == 0 {
                    Some(cs)
                } else {
                    None
                }
            },
        },
    }
}

// ---------------------------------------------------------------------------
// Inversion: decoding what was encoded gives the value back.
// ---------------------------------------------------------------------------

proof fn lemma_rt_i64(x: i64, rest: Seq<i128>)
    ensures
        dec_i64(seq![x as i128] + rest) == Some((x, rest)),
{
    assert((seq![x as i128] + rest)[0] == x as i128);
    assert((seq![x as i128] + rest).skip(1) =~= rest);
}

proof fn lemma_rt_count(n: nat, rest: Seq<i128>)
    requires
        n <= usize::MAX,
    ensures
        dec_count(seq![n as i128] + rest) == Some((n as usize, rest)),
{
    assert((seq![n as i128] + rest)[0] == n as i128);
    assert((seq![n as i128] + rest).skip(1) =~= rest);
}

proof fn lemma_rt_handle(h: Handle, rest: Seq<i128>)
    ensures
        dec_handle(enc_handle(h) + rest) == Some((h, rest)),
{
    match h {
        Handle::Colocated => {
            assert((enc_handle(h) + rest)[0] == 0);
            assert((enc_handle(h) + rest).skip(1) =~= rest);
        },
        Handle::At(x, y) => {
            let s = enc_handle(h) + rest;
            assert(s[0] == 1);
            assert(s.skip(1) =~= seq![x as i128] + (seq![y as i128] + rest));
            lemma_rt_i64(x, seq![y as i128] + rest);
            lemma_rt_i64(y, rest);
        },
    }
}

proof fn lemma_rt_ptype(t: PointType, rest: Seq<i128>)
    ensures
        dec_ptype(seq![ptype_code(t)] + rest) == Some((t, rest)),
{
    assert((seq![ptype_code(t)] + rest)[0] == ptype_code(t));
    assert((seq![ptype_code(t)] + rest).skip(1) =~= rest);
}

#[verifier::rlimit(100)]
proof fn lemma_rt_point(p: Point, rest: Seq<i128>)
    ensures
        dec_point(enc_point(p) + rest) == Some((p, rest)),
{
    let sm: i128 = if p.smooth {
        1
    } else {
        0
    };
    let s = enc_point(p) + rest;
    let r1 = seq![p.y as i128] + (enc_handle(p.a) + (enc_handle(p.b) + (seq![
        ptype_code(p.ptype)] + (seq![sm] + rest))));
    assert(s =~= seq![p.x as i128] + r1);
    lemma_rt_i64(p.x, r1);
    let r2 = enc_handle(p.a) + (enc_handle(p.b) + (seq![ptype_code(p.ptype)] + (seq![sm] + rest)));
    assert(r1.skip(1) =~= r2);
    lemma_rt_i64(p.y, r2);
    lemma_rt_handle(p.a, enc_handle(p.b) + (seq![ptype_code(p.ptype)] + (seq![sm] + rest)));
    lemma_rt_handle(p.b, seq![ptype_code(p.ptype)] + (seq![sm] + rest));
    lemma_rt_ptype(p.ptype, seq![sm] + rest);
    assert((seq![sm] + rest)[0] == sm);
    assert((seq![sm] + rest).skip(1) =~= rest);
}

#[verifier::rlimit(60)]
proof fn lemma_rt_points(pts: Seq<Point>, rest: Seq<i128>)
    ensures
        dec_points(pts.len(), enc_points(pts) + rest) == Some((pts, rest)),
    decreases pts.len(),
{
    if pts.len() == 0 {
        assert(enc_points(pts) + rest =~= rest);
        assert(dec_points(0, rest) == Some((Seq::<Point>::empty(), rest)));
        assert(pts =~= Seq::<Point>::empty());
    } else {
        assert(enc_points(pts) + rest =~= enc_point(pts[0]) + (enc_points(pts.skip(1)) + rest));
        lemma_rt_point(pts[0], enc_points(pts.skip(1)) + rest);
        lemma_rt_points(pts.skip(1), rest);
        assert(seq![pts[0]] + pts.skip(1) =~= pts);
    }
}

proof fn lemma_rt_vws_handles(hs: Seq<crate::contour_operations::VwsHandle>, rest: Seq<i128>)
    ensures
        dec_vws_handles(hs.len(), enc_vws_handles(hs) + rest) == Some((hs, rest)),
    decreases hs.len(),
{
    if hs.len() == 0 {
        assert(enc_vws_handles(hs) + rest =~= rest);
        assert(hs =~= Seq::<crate::contour_operations::VwsHandle>::empty());
    } else {
        let tail = enc_vws_handles(hs.skip(1)) + rest;
        assert(enc_vws_handles(hs) + rest =~= seq![hs[0].left as i128] + (seq![
            hs[0].right as i128] + tail));
        lemma_rt_i64(hs[0].left, seq![hs[0].right as i128] + tail);
        lemma_rt_i64(hs[0].right, tail);
        lemma_rt_vws_handles(hs.skip(1), rest);
        assert(seq![hs[0]] + hs.skip(1) =~= hs);
        assert(crate::contour_operations::VwsHandle { left: hs[0].left, right: hs[0].right }
            == hs[0]);
    }
}

proof fn lemma_rt_lengths(ls: Seq<i64>, rest: Seq<i128>)
    ensures
        dec_lengths(ls.len(), enc_lengths(ls) + rest) == Some((ls, rest)),
    decreases ls.len(),
{
    if ls.len() == 0 {
        assert(enc_lengths(ls) + rest =~= rest);
        assert(ls =~= Seq::<i64>::empty());
    } else {
        assert(enc_lengths(ls) + rest =~= seq![ls[0] as i128] + (enc_lengths(ls.skip(1)) + rest));
        lemma_rt_i64(ls[0], enc_lengths(ls.skip(1)) + rest);
        lemma_rt_lengths(ls.skip(1), rest);
        assert(seq![ls[0]] + ls.skip(1) =~= ls);
    }
}

#[verifier::rlimit(60)]
proof fn lemma_rt_op(op: OpView, rest: Seq<i128>)
    requires
        op_encodable(op),
    ensures
        dec_op(enc_op(op) + rest) == Some((op, rest)),
{
    let s = enc_op(op) + rest;
    match op {
        OpView::NoOp => {
            assert(s[0] == 0);
            assert(s.skip(1) =~= rest);
        },
        OpView::Vws { handles } => {
            assert(s[0] == 1);
            assert(s.skip(1) =~= seq![handles.len() as i128] + (enc_vws_handles(handles) + rest));
            lemma_rt_count(handles.len(), enc_vws_handles(handles) + rest);
            lemma_rt_vws_handles(handles, rest);
        },
        OpView::Pap { pattern, spacing } => {
            assert(s[0] == 2);
            assert(s.skip(1) =~= seq![spacing as i128] + (seq![pattern.len() as i128]
                + (enc_points(pattern) + rest)));
            lemma_rt_i64(spacing, seq![pattern.len() as i128] + (enc_points(pattern) + rest));
            lemma_rt_count(pattern.len(), enc_points(pattern) + rest);
            lemma_rt_points(pattern, rest);
        },
        OpView::Dash { lengths } => {
            assert(s[0] == 3);
            assert(s.skip(1) =~= seq![lengths.len() as i128] + (enc_lengths(lengths) + rest));
            lemma_rt_count(lengths.len(), enc_lengths(lengths) + rest);
            lemma_rt_lengths(lengths, rest);
        },
    }
}

#[verifier::rlimit(60)]
proof fn lemma_rt_contour(c: ContourView, rest: Seq<i128>)
    requires
        op_encodable(c.op),
        c.points.len() <= usize::MAX,
    ensures
        dec_contour(enc_contour(c) + rest) == Some((c, rest)),
{
    assert(enc_contour(c) + rest =~= enc_op(c.op) + (seq![c.points.len() as i128] + (enc_points(
        c.points,
    ) + rest)));
    lemma_rt_op(c.op, seq![c.points.len() as i128] + (enc_points(c.points) + rest));
    lemma_rt_count(c.points.len(), enc_points(c.points) + rest);
    lemma_rt_points(c.points, rest);
    assert(ContourView { points: c.points, op: c.op } == c);
}

proof fn lemma_rt_contours(cs: Seq<ContourView>, rest: Seq<i128>)
    requires
        forall|i: int|
            0 <= i < cs.len() ==> (#[trigger] cs[i].points.len() <= usize::MAX && op_encodable(
                cs[i].op,
            )),
    ensures
        dec_contours(cs.len(), enc_contours(cs) + rest) == Some((cs, rest)),
    decreases cs.len(),
{
    if cs.len() == 0 {
        assert(enc_contours(cs) + rest =~= rest);
        assert(cs =~= Seq::<ContourView>::empty());
    } else {
        assert(enc_contours(cs) + rest =~= enc_contour(cs[0]) + (enc_contours(cs.skip(1))
            + rest));
        lemma_rt_contour(cs[0], enc_contours(cs.skip(1)) + rest);
        lemma_rt_contours(cs.skip(1), rest);
        assert(seq![cs[0]] + cs.skip(1) =~= cs);
    }
}

// ---------------------------------------------------------------------------
// Executable encoding
// ---------------------------------------------------------------------------

fn emit_handle(out: &mut Vec<i128>, h: Handle)
    ensures
        final(out)@ == old(out)@ + enc_handle(h),
{
    match h {
        Handle::Colocated => {
            out.push(0);
        },
        Handle::At(x, y) => {
            out.push(1);
            out.push(x as i128);
            out.push(y as i128);
        },
    }
    proof {
        assert(out@ =~= old(out)@ + enc_handle(h));
    }
}

fn emit_point(out: &mut Vec<i128>, p: Point)
    ensures
        final(out)@ == old(out)@ + enc_point(p),
{
    out.push(p.x as i128);
    out.push(p.y as i128);
    emit_handle(out, p.a);
    emit_handle(out, p.b);
    let code: i128 = match p.ptype {
        PointType::Move => 0,
        PointType::Line => 1,
        PointType::Curve => 2,
        PointType::QCurve => 3,
        PointType::OffCurve => 4,
    };
    out.push(code);
    out.push(
        if p.smooth {
            1
        } else {
            0
        },
    );
    proof {
        assert(out@ =~= old(out)@ + enc_point(p));
    }
}

fn emit_points(out: &mut Vec<i128>, pts: &Vec<Point>)
    ensures
        final(out)@ == old(out)@ + enc_points(pts@),
{
    let mut i: usize = 0;
    proof {
        assert(pts@.skip(0) =~= pts@);
    }
    while i < pts.len()
        invariant
            i <= pts@.len(),
            out@ + enc_points(pts@.skip(i as int)) == old(out)@ + enc_points(pts@),
        decreases pts@.len() - i,
    {
        proof {
            assert(pts@.skip(i as int)[0] == pts@[i as int]);
            assert(pts@.skip(i as int).skip(1) =~= pts@.skip(i as int + 1));
        }
        let ghost pre = out@;
        emit_point(out, pts[i]);
        proof {
            assert(out@ + enc_points(pts@.skip(i as int + 1)) =~= pre + enc_points(
                pts@.skip(i as int),
            ));
        }
        i += 1;
    }
    proof {
        assert(pts@.skip(pts@.len() as int) =~= Seq::<Point>::empty());
        assert(out@ + Seq::<i128>::empty() =~= out@);
    }
}

fn emit_vws_handles(out: &mut Vec<i128>, hs: &Vec<VwsHandle>)
    ensures
        final(out)@ == old(out)@ + enc_vws_handles(hs@),
{
    let mut i: usize = 0;
    proof {
        assert(hs@.skip(0) =~= hs@);
    }
    while i < hs.len()
        invariant
            i <= hs@.len(),
            out@ + enc_vws_handles(hs@.skip(i as int)) == old(out)@ + enc_vws_handles(hs@),
        decreases hs@.len() - i,
    {
        proof {
            assert(hs@.skip(i as int)[0] == hs@[i as int]);
            assert(hs@.skip(i as int).skip(1) =~= hs@.skip(i as int + 1));
        }
        let ghost pre = out@;
        out.push(hs[i].left as i128);
        out.push(hs[i].right as i128);
        proof {
            assert(out@ + enc_vws_handles(hs@.skip(i as int + 1)) =~= pre + enc_vws_handles(
                hs@.skip(i as int),
            ));
        }
        i += 1;
    }
    proof {
        assert(hs@.skip(hs@.len() as int) =~= Seq::<VwsHandle>::empty());
        assert(out@ + Seq::<i128>::empty() =~= out@);
    }
}

fn emit_lengths(out: &mut Vec<i128>, ls: &Vec<i64>)
    ensures
        final(out)@ == old(out)@ + enc_lengths(ls@),
{
    let mut i: usize = 0;
    proof {
        assert(ls@.skip(0) =~= ls@);
    }
    while i < ls.len()
        invariant
            i <= ls@.len(),
            out@ + enc_lengths(ls@.skip(i as int)) == old(out)@ + enc_lengths(ls@),
        decreases ls@.len() - i,
    {
        proof {
            assert(ls@.skip(i as int)[0] == ls@[i as int]);
            assert(ls@.skip(i as int).skip(1) =~= ls@.skip(i as int + 1));
        }
        let ghost pre = out@;
        out.push(ls[i] as i128);
        proof {
            assert(out@ + enc_lengths(ls@.skip(i as int + 1)) =~= pre + enc_lengths(
                ls@.skip(i as int),
            ));
        }
        i += 1;
    }
    proof {
        assert(ls@.skip(ls@.len() as int) =~= Seq::<i64>::empty());
        assert(out@ + Seq::<i128>::empty() =~= out@);
    }
}

fn emit_op(out: &mut Vec<i128>, op: &Option<ContourOperations>)
    ensures
        final(out)@ == old(out)@ + enc_op(op_view(*op)),
{
    match op {
        Option::None => {
            out.push(0);
            proof {
                assert(out@ =~= old(out)@ + enc_op(op_view(*op)));
            }
        },
        Option::Some(ContourOperations::VariableWidthStroke { data }) => {
            out.push(1);
            out.push(data.handles.len() as i128);
            let ghost pre = out@;
            emit_vws_handles(out, &data.handles);
            proof {
                assert(out@ =~= old(out)@ + enc_op(op_view(*op)));
            }
        },
        Option::Some(ContourOperations::PatternAlongPath { data }) => {
            out.push(2);
            out.push(data.spacing as i128);
            out.push(data.pattern.len() as i128);
            emit_points(out, &data.pattern);
            proof {
                assert(out@ =~= old(out)@ + enc_op(op_view(*op)));
            }
        },
        Option::Some(ContourOperations::DashAlongPath { data }) => {
            out.push(3);
            out.push(data.lengths.len() as i128);
            emit_lengths(out, &data.lengths);
            proof {
                assert(out@ =~= old(out)@ + enc_op(op_view(*op)));
            }
        },
    }
}

fn emit_contour(out: &mut Vec<i128>, c: &Contour)
    ensures
        final(out)@ == old(out)@ + enc_contour(c@),
{
    emit_op(out, &c.operation);
    out.push(c.inner.len() as i128);
    emit_points(out, &c.inner);
    proof {
        assert(out@ =~= old(out)@ + enc_contour(c@));
    }
}

/// Write a layer's clipboard payload as a token stream.
pub fn encode_layer_tokens(layer: &Layer) -> (out: Vec<i128>)
    ensures
        out@ == enc_layer(layer@),
{
    let mut out: Vec<i128> = Vec::new();
    out.push(layer.outline.len() as i128);
    let ghost cs = layer@;
    let mut i: usize = 0;
    proof {
        assert(cs.skip(0) =~= cs);
        assert(out@ =~= seq![cs.len() as i128]);
    }
    while i < layer.outline.len()
        invariant
            i <= layer.outline@.len(),
            cs == layer@,
            cs.len() == layer.outline@.len(),
            out@ + enc_contours(cs.skip(i as int)) == seq![cs.len() as i128] + enc_contours(cs),
        decreases layer.outline@.len() - i,
    {
        proof {
            assert(cs.skip(i as int)[0] == cs[i as int]);
            assert(cs[i as int] == layer.outline@[i as int]@);
            assert(cs.skip(i as int).skip(1) =~= cs.skip(i as int + 1));
        }
        let ghost pre = out@;
        emit_contour(&mut out, &layer.outline[i]);
        proof {
            assert(out@ + enc_contours(cs.skip(i as int + 1)) =~= pre + enc_contours(
                cs.skip(i as int),
            ));
        }
        i += 1;
    }
    proof {
        assert(cs.skip(cs.len() as int) =~= Seq::<ContourView>::empty());
        assert(out@ + Seq::<i128>::empty() =~= out@);
        assert(out@ =~= enc_layer(cs));
    }
    out
}

// ---------------------------------------------------------------------------
// Executable decoding
// ---------------------------------------------------------------------------

fn read_i64(ts: &Vec<i128>, pos: &mut usize) -> (r: Option<i64>)
    requires
        *old(pos) <= ts@.len(),
    ensures
        match r {
            Option::Some(x) => {
                &&& *old(pos) <= *final(pos) <= ts@.len()
                &&& dec_i64(ts@.skip(*old(pos) as int)) == Some(
                    (x, ts@.skip(*final(pos) as int)),
                )
            },
            Option::None => dec_i64(ts@.skip(*old(pos) as int)).is_none(),
        },
{
    let p = *pos;
    if p < ts.len() {
        let t = ts[p];
        if i64::MIN as i128 <= t && t <= i64::MAX as i128 {
            *pos = p + 1;
            proof {
                assert(ts@.skip(p as int)[0] == ts@[p as int]);
                assert(ts@.skip(p as int).skip(1) =~= ts@.skip(p as int + 1));
            }
            Some(t as i64)
        } else {
            proof {
                assert(ts@.skip(p as int)[0] == ts@[p as int]);
            }
            None
        }
    } else {
        None
    }
}

fn read_count(ts: &Vec<i128>, pos: &mut usize) -> (r: Option<usize>)
    requires
        *old(pos) <= ts@.len(),
    ensures
        match r {
            Option::Some(n) => {
                &&& *old(pos) <= *final(pos) <= ts@.len()
                &&& dec_count(ts@.skip(*old(pos) as int)) == Some(
                    (n, ts@.skip(*final(pos) as int)),
                )
            },
            Option::None => dec_count(ts@.skip(*old(pos) as int)).is_none(),
        },
{
    let p = *pos;
    if p < ts.len() {
        let t = ts[p];
        if 0 <= t && t <= usize::MAX as i128 {
            *pos = p + 1;
            proof {
                assert(ts@.skip(p as int)[0] == ts@[p as int]);
                assert(ts@.skip(p as int).skip(1) =~= ts@.skip(p as int + 1));
            }
            Some(t as usize)
        } else {
            proof {
                assert(ts@.skip(p as int)[0] == ts@[p as int]);
            }
            None
        }
    } else {
        None
    }
}

fn read_handle(ts: &Vec<i128>, pos: &mut usize) -> (r: Option<Handle>)
    requires
        *old(pos) <= ts@.len(),
    ensures
        match r {
            Option::Some(h) => {
                &&& *old(pos) <= *final(pos) <= ts@.len()
                &&& dec_handle(ts@.skip(*old(pos) as int)) == Some(
                    (h, ts@.skip(*final(pos) as int)),
                )
            },
            Option::None => dec_handle(ts@.skip(*old(pos) as int)).is_none(),
        },
{
    let p = *pos;
    if p >= ts.len() {
        return None;
    }
    let t = ts[p];
    proof {
        assert(ts@.skip(p as int)[0] == ts@[p as int]);
        assert(ts@.skip(p as int).skip(1) =~= ts@.skip(p as int + 1));
    }
    if t == 0 {
        *pos = p + 1;
        Some(Handle::Colocated)
    } else if t == 1 {
        *pos = p + 1;
        let x = match read_i64(ts, pos) {
            Option::Some(x) => x,
            Option::None => {
                return None;
            },
        };
        let y = match read_i64(ts, pos) {
            Option::Some(y) => y,
            Option::None => {
                return None;
            },
        };
        Some(Handle::At(x, y))
    } else {
        None
    }
}

fn read_ptype(ts: &Vec<i128>, pos: &mut usize) -> (r: Option<PointType>)
    requires
        *old(pos) <= ts@.len(),
    ensures
        match r {
            Option::Some(t) => {
                &&& *old(pos) <= *final(pos) <= ts@.len()
                &&& dec_ptype(ts@.skip(*old(pos) as int)) == Some(
                    (t, ts@.skip(*final(pos) as int)),
                )
            },
            Option::None => dec_ptype(ts@.skip(*old(pos) as int)).is_none(),
        },
{
    let p = *pos;
    if p >= ts.len() {
        return None;
    }
    let t = ts[p];
    proof {
        assert(ts@.skip(p as int)[0] == ts@[p as int]);
        assert(ts@.skip(p as int).skip(1) =~= ts@.skip(p as int + 1));
    }
    if t == 0 {
        *pos = p + 1;
        Some(PointType::Move)
    } else if t == 1 {
        *pos = p + 1;
        Some(PointType::Line)
    } else if t == 2 {
        *pos = p + 1;
        Some(PointType::Curve)
    } else if t == 3 {
        *pos = p + 1;
        Some(PointType::QCurve)
    } else if t == 4 {
        *pos = p + 1;
        Some(PointType::OffCurve)
    } else {
        None
    }
}

fn read_point(ts: &Vec<i128>, pos: &mut usize) -> (r: Option<Point>)
    requires
        *old(pos) <= ts@.len(),
    ensures
        match r {
            Option::Some(pt) => {
                &&& *old(pos) <= *final(pos) <= ts@.len()
                &&& dec_point(ts@.skip(*old(pos) as int)) == Some(
                    (pt, ts@.skip(*final(pos) as int)),
                )
            },
            Option::None => dec_point(ts@.skip(*old(pos) as int)).is_none(),
        },
{
    let x = match read_i64(ts, pos) {
        Option::Some(x) => x,
        Option::None => {
            return None;
        },
    };
    let y = match read_i64(ts, pos) {
        Option::Some(y) => y,
        Option::None => {
            return None;
        },
    };
    let a = match read_handle(ts, pos) {
        Option::Some(a) => a,
        Option::None => {
            return None;
        },
    };
    let b = match read_handle(ts, pos) {
        Option::Some(b) => b,
        Option::None => {
            return None;
        },
    };
    let t = match read_ptype(ts, pos) {
        Option::Some(t) => t,
        Option::None => {
            return None;
        },
    };
    let p = *pos;
    if p < ts.len() && (ts[p] == 0 || ts[p] == 1) {
        let smooth = ts[p] == 1;
        *pos = p + 1;
        proof {
            assert(ts@.skip(p as int)[0] == ts@[p as int]);
            assert(ts@.skip(p as int).skip(1) =~= ts@.skip(p as int + 1));
        }
        Some(Point { x, y, a, b, ptype: t, smooth })
    } else {
        proof {
            if p < ts@.len() {
                assert(ts@.skip(p as int)[0] == ts@[p as int]);
            }
        }
        None
    }
}

fn read_points(ts: &Vec<i128>, pos: &mut usize, n: usize) -> (r: Option<Vec<Point>>)
    requires
        *old(pos) <= ts@.len(),
    ensures
        match r {
            Option::Some(pts) => {
                &&& *old(pos) <= *final(pos) <= ts@.len()
                &&& dec_points(n as nat, ts@.skip(*old(pos) as int)) == Some(
                    (pts@, ts@.skip(*final(pos) as int)),
                )
            },
            Option::None => dec_points(n as nat, ts@.skip(*old(pos) as int)).is_none(),
        },
{
    let ghost p0 = *pos;
    let mut acc: Vec<Point> = Vec::new();
    let mut i: usize = 0;
    proof {
        assert forall|rest: Seq<Point>| #[trigger] (Seq::<Point>::empty() + rest) =~= rest by {}
    }
    while i < n
        invariant
            i <= n,
            p0 == *old(pos),
            p0 <= *pos <= ts@.len(),
            acc@.len() == i,
            match dec_points((n - i) as nat, ts@.skip(*pos as int)) {
                Option::None => dec_points(n as nat, ts@.skip(p0 as int)).is_none(),
                Option::Some((pts, rest)) => dec_points(n as nat, ts@.skip(p0 as int)) == Some(
                    (acc@ + pts, rest),
                ),
            },
        decreases n - i,
    {
        let ghost pcur = *pos;
        let pt = match read_point(ts, pos) {
            Option::Some(pt) => pt,
            Option::None => {
                proof {
                    assert(dec_point(ts@.skip(pcur as int)).is_none());
                    assert(dec_points((n - i) as nat, ts@.skip(pcur as int)).is_none());
                }
                return None;
            },
        };
        let ghost pre = acc@;
        acc.push(pt);
        proof {
            match dec_points((n - i - 1) as nat, ts@.skip(*pos as int)) {
                Option::None => {},
                Option::Some((pts, rest)) => {
                    assert(pre + (seq![pt] + pts) =~= acc@ + pts);
                },
            }
        }
        i += 1;
    }
    proof {
        assert(acc@ + Seq::<Point>::empty() =~= acc@);
    }
    Some(acc)
}

fn read_vws_handles(ts: &Vec<i128>, pos: &mut usize, n: usize) -> (r: Option<Vec<VwsHandle>>)
    requires
        *old(pos) <= ts@.len(),
    ensures
        match r {
            Option::Some(hs) => {
                &&& *old(pos) <= *final(pos) <= ts@.len()
                &&& dec_vws_handles(n as nat, ts@.skip(*old(pos) as int)) == Some(
                    (hs@, ts@.skip(*final(pos) as int)),
                )
            },
            Option::None => dec_vws_handles(n as nat, ts@.skip(*old(pos) as int)).is_none(),
        },
{
    let ghost p0 = *pos;
    let mut acc: Vec<VwsHandle> = Vec::new();
    let mut i: usize = 0;
    proof {
        assert forall|rest: Seq<VwsHandle>|
            #[trigger] (Seq::<VwsHandle>::empty() + rest) =~= rest by {}
    }
    while i < n
        invariant
            i <= n,
            p0 == *old(pos),
            p0 <= *pos <= ts@.len(),
            acc@.len() == i,
            match dec_vws_handles((n - i) as nat, ts@.skip(*pos as int)) {
                Option::None => dec_vws_handles(n as nat, ts@.skip(p0 as int)).is_none(),
                Option::Some((hs, rest)) => dec_vws_handles(n as nat, ts@.skip(p0 as int))
                    == Some((acc@ + hs, rest)),
            },
        decreases n - i,
    {
        let ghost pcur = *pos;
        let l = match read_i64(ts, pos) {
            Option::Some(l) => l,
            Option::None => {
                proof {
                    assert(dec_vws_handles((n - i) as nat, ts@.skip(pcur as int)).is_none());
                }
                return None;
            },
        };
        let r = match read_i64(ts, pos) {
            Option::Some(r) => r,
            Option::None => {
                proof {
                    assert(dec_vws_handles((n - i) as nat, ts@.skip(pcur as int)).is_none());
                }
                return None;
            },
        };
        let h = VwsHandle { left: l, right: r };
        let ghost pre = acc@;
        acc.push(h);
        proof {
            match dec_vws_handles((n - i - 1) as nat, ts@.skip(*pos as int)) {
                Option::None => {},
                Option::Some((hs, rest)) => {
                    assert(pre + (seq![h] + hs) =~= acc@ + hs);
                },
            }
        }
        i += 1;
    }
    proof {
        assert(acc@ + Seq::<VwsHandle>::empty() =~= acc@);
    }
    Some(acc)
}

fn read_lengths(ts: &Vec<i128>, pos: &mut usize, n: usize) -> (r: Option<Vec<i64>>)
    requires
        *old(pos) <= ts@.len(),
    ensures
        match r {
            Option::Some(ls) => {
                &&& *old(pos) <= *final(pos) <= ts@.len()
                &&& dec_lengths(n as nat, ts@.skip(*old(pos) as int)) == Some(
                    (ls@, ts@.skip(*final(pos) as int)),
                )
            },
            Option::None => dec_lengths(n as nat, ts@.skip(*old(pos) as int)).is_none(),
        },
{
    let ghost p0 = *pos;
    let mut acc: Vec<i64> = Vec::new();
    let mut i: usize = 0;
    proof {
        assert forall|rest: Seq<i64>| #[trigger] (Seq::<i64>::empty() + rest) =~= rest by {}
    }
    while i < n
        invariant
            i <= n,
            p0 == *old(pos),
            p0 <= *pos <= ts@.len(),
            acc@.len() == i,
            match dec_lengths((n - i) as nat, ts@.skip(*pos as int)) {
                Option::None => dec_lengths(n as nat, ts@.skip(p0 as int)).is_none(),
                Option::Some((ls, rest)) => dec_lengths(n as nat, ts@.skip(p0 as int)) == Some(
                    (acc@ + ls, rest),
                ),
            },
        decreases n - i,
    {
        let ghost pcur = *pos;
        let l = match read_i64(ts, pos) {
            Option::Some(l) => l,
            Option::None => {
                proof {
                    assert(dec_lengths((n - i) as nat, ts@.skip(pcur as int)).is_none());
                }
                return None;
            },
        };
        let ghost pre = acc@;
        acc.push(l);
        proof {
            match dec_lengths((n - i - 1) as nat, ts@.skip(*pos as int)) {
                Option::None => {},
                Option::Some((ls, rest)) => {
                    assert(pre + (seq![l] + ls) =~= acc@ + ls);
                },
            }
        }
        i += 1;
    }
    proof {
        assert(acc@ + Seq::<i64>::empty() =~= acc@);
    }
    Some(acc)
}

fn read_op(ts: &Vec<i128>, pos: &mut usize) -> (r: Option<Option<ContourOperations>>)
    requires
        *old(pos) <= ts@.len(),
    ensures
        match r {
            Option::Some(op) => {
                &&& *old(pos) <= *final(pos) <= ts@.len()
                &&& dec_op(ts@.skip(*old(pos) as int)) == Some(
                    (op_view(op), ts@.skip(*final(pos) as int)),
                )
            },
            Option::None => dec_op(ts@.skip(*old(pos) as int)).is_none(),
        },
{
    let p = *pos;
    if p >= ts.len() {
        return None;
    }
    let t = ts[p];
    proof {
        assert(ts@.skip(p as int)[0] == ts@[p as int]);
        assert(ts@.skip(p as int).skip(1) =~= ts@.skip(p as int + 1));
    }
    if t == 0 {
        *pos = p + 1;
        Some(None)
    } else if t == 1 {
        *pos = p + 1;
        let n = match read_count(ts, pos) {
            Option::Some(n) => n,
            Option::None => {
                return None;
            },
        };
        let hs = match read_vws_handles(ts, pos, n) {
            Option::Some(hs) => hs,
            Option::None => {
                return None;
            },
        };
        Some(Some(ContourOperations::VariableWidthStroke { data: VwsParams { handles: hs } }))
    } else if t == 2 {
        *pos = p + 1;
        let spacing = match read_i64(ts, pos) {
            Option::Some(s) => s,
            Option::None => {
                return None;
            },
        };
        let n = match read_count(ts, pos) {
            Option::Some(n) => n,
            Option::None => {
                return None;
            },
        };
        let pts = match read_points(ts, pos, n) {
            Option::Some(pts) => pts,
            Option::None => {
                return None;
            },
        };
        Some(Some(ContourOperations::PatternAlongPath {
            data: PapParams { pattern: pts, spacing },
        }))
    } else if t == 3 {
        *pos = p + 1;
        let n = match read_count(ts, pos) {
            Option::Some(n) => n,
            Option::None => {
                return None;
            },
        };
        let ls = match read_lengths(ts, pos, n) {
            Option::Some(ls) => ls,
            Option::None => {
                return None;
            },
        };
        Some(Some(ContourOperations::DashAlongPath { data: DashParams { lengths: ls } }))
    } else {
        None
    }
}

fn read_contour(ts: &Vec<i128>, pos: &mut usize) -> (r: Option<Contour>)
    requires
        *old(pos) <= ts@.len(),
    ensures
        match r {
            Option::Some(c) => {
                &&& *old(pos) <= *final(pos) <= ts@.len()
                &&& dec_contour(ts@.skip(*old(pos) as int)) == Some(
                    (c@, ts@.skip(*final(pos) as int)),
                )
            },
            Option::None => dec_contour(ts@.skip(*old(pos) as int)).is_none(),
        },
{
    let op = match read_op(ts, pos) {
        Option::Some(op) => op,
        Option::None => {
            return None;
        },
    };
    let n = match read_count(ts, pos) {
        Option::Some(n) => n,
        Option::None => {
            return None;
        },
    };
    let pts = match read_points(ts, pos, n) {
        Option::Some(pts) => pts,
        Option::None => {
            return None;
        },
    };
    Some(Contour { inner: pts, operation: op })
}

/// Decode a whole clipboard payload token stream back into a layer.
pub fn decode_layer_tokens(ts: &Vec<i128>) -> (r: Option<Layer>)
    ensures
        match r {
            Option::Some(l) => dec_layer(ts@) == Some(l@),
            Option::None => dec_layer(ts@).is_none(),
        },
{
    let mut pos: usize = 0;
    proof {
        assert(ts@.skip(0) =~= ts@);
    }
    let n = match read_count(ts, &mut pos) {
        Option::Some(n) => n,
        Option::None => {
            return None;
        },
    };
    let ghost p0 = pos;
    let mut acc: Vec<Contour> = Vec::new();
    let mut i: usize = 0;
    proof {
        assert forall|rest: Seq<ContourView>|
            #[trigger] (Seq::<ContourView>::empty() + rest) =~= rest by {}
    }
    while i < n
        invariant
            i <= n,
            p0 <= pos <= ts@.len(),
            outline_view(acc@).len() == i,
            dec_layer(ts@) == match dec_contours((n - i) as nat, ts@.skip(pos as int)) {
                Option::None => Option::<Seq<ContourView>>::None,
                Option::Some((cs, rest)) => {
                    if rest.len() == 0 {
                        Some(outline_view(acc@) + cs)
                    } else {
                        None
                    }
                },
            },
        decreases n - i,
    {
        let c = match read_contour(ts, &mut pos) {
            Option::Some(c) => c,
            Option::None => {
                return None;
            },
        };
        let ghost pre = outline_view(acc@);
        acc.push(c);
        proof {
            assert(outline_view(acc@) =~~= pre + seq![c@]);
            match dec_contours((n - i - 1) as nat, ts@.skip(pos as int)) {
                Option::None => {},
                Option::Some((cs, rest)) => {
                    assert(pre + (seq![c@] + cs) =~= outline_view(acc@) + cs);
                },
            }
        }
        i += 1;
    }
    if pos < ts.len() {
        proof {
            assert(ts@.skip(pos as int).len() > 0);
        }
        return None;
    }
    proof {
        assert(ts@.skip(pos as int).len() == 0);
        assert(outline_view(acc@) + Seq::<ContourView>::empty() =~= outline_view(acc@));
    }
    Some(Layer { outline: acc })
}

/// Decoding an encoded layer payload gives the layer back.
pub proof fn lemma_rt_layer(lv: Seq<ContourView>)
    requires
        layer_encodable(lv),
    ensures
        dec_layer(enc_layer(lv)) == Some(lv),
{
    assert(enc_layer(lv) =~= seq![lv.len() as i128] + (enc_contours(lv) + Seq::<i128>::empty()));
    lemma_rt_count(lv.len(), enc_contours(lv) + Seq::<i128>::empty());
    assert(enc_contours(lv) + Seq::<i128>::empty() =~= enc_contours(lv)
        + Seq::<i128>::empty());
    lemma_rt_contours(lv, Seq::<i128>::empty());
}

// ---------------------------------------------------------------------------
// Clipboard framing: the application tag, one tab byte, then the payload.
// ---------------------------------------------------------------------------

/// The bytes of the application's clipboard tag, `text/vnd.mfek.glifjson`.
pub open spec fn mime_tag() -> Seq<u8> {
    seq![
        116u8,
        101u8,
        120u8,
        116u8,
        47u8,
        118u8,
        110u8,
        100u8,
        46u8,
        109u8,
        102u8,
        101u8,
        107u8,
        46u8,
        103u8,
        108u8,
        105u8,
        102u8,
        106u8,
        115u8,
        111u8,
        110u8,
    ]
}

fn mime_tag_bytes() -> (r: Vec<u8>)
    ensures
        r@ == mime_tag(),
{
    let mut r: Vec<u8> = Vec::new();
    r.push(116);
    r.push(101);
    r.push(120);
    r.push(116);
    r.push(47);
    r.push(118);
    r.push(110);
    r.push(100);
    r.push(46);
    r.push(109);
    r.push(102);
    r.push(101);
    r.push(107);
    r.push(46);
    r.push(103);
    r.push(108);
    r.push(105);
    r.push(102);
    r.push(106);
    r.push(115);
    r.push(111);
    r.push(110);
    proof {
        assert(r@ =~= mime_tag());
    }
    r
}

/// The clipboard text a layer is written as.
pub open spec fn spec_clip_text(lv: Seq<ContourView>) -> Seq<u8> {
    mime_tag() + seq![9u8] + crate::codec::spec_render(enc_layer(lv))
}

pub fn clipboard_text_for_layer(layer: &Layer) -> (text: Vec<u8>)
    ensures
        text@ == spec_clip_text(layer@),
{
    let mut text = mime_tag_bytes();
    text.push(9);
    let toks = encode_layer_tokens(layer);
    let mut body = crate::codec::render_tokens(&toks);
    text.append(&mut body);
    proof {
        assert(text@ =~= spec_clip_text(layer@));
    }
    text
}

/// The total parse of clipboard text: the tag must be this application's,
/// followed by a tab, followed by a decodable payload.
pub open spec fn spec_parse_clipboard(text: Seq<u8>) -> Option<Seq<ContourView>> {
    if text.len() < 23 {
        None
    } else if text.take(22) != mime_tag() || text[22] != 9 {
        None
    } else {
        match crate::codec::spec_tokenize(text.skip(23)) {
            Option::None => None,
            Option::Some(ts) => dec_layer(ts),
        }
    }
}

pub fn parse_clipboard(text: &Vec<u8>) -> (r: Option<Layer>)
    ensures
        match r {
            Option::Some(l) => spec_parse_clipboard(text@) == Some(l@),
            Option::None => spec_parse_clipboard(text@).is_none(),
        },
{
    if text.len() < 23 {
        return None;
    }
    let tag = mime_tag_bytes();
    let mut k: usize = 0;
    while k < 22
        invariant
            k <= 22,
            tag@ == mime_tag(),
            text@.len() >= 23,
            forall|m: int| 0 <= m < k ==> text@[m] == mime_tag()[m],
        decreases 22 - k,
    {
        if text[k] != tag[k] {
            proof {
                assert(text@.take(22)[k as int] != mime_tag()[k as int]);
            }
            return None;
        }
        k += 1;
    }
    proof {
        assert(text@.take(22) =~= mime_tag());
    }
    if text[22] != 9 {
        return None;
    }
    let mut body: Vec<u8> = Vec::new();
    let mut i: usize = 23;
    while i < text.len()
        invariant
            23 <= i <= text@.len(),
            body@ == text@.subrange(23, i as int),
        decreases text@.len() - i,
    {
        body.push(text[i]);
        proof {
            assert(body@ =~= text@.subrange(23, i as int + 1));
        }
        i += 1;
    }
    proof {
        assert(body@ =~= text@.skip(23));
    }
    let toks = match crate::codec::tokenize(&body) {
        Option::Some(ts) => ts,
        Option::None => {
            return None;
        },
    };
    decode_layer_tokens(&toks)
}

/// Clipboard round-trip: the text written for a layer parses back to
/// exactly that layer's contours.
pub proof fn lemma_clipboard_round_trip(lv: Seq<ContourView>)
    requires
        layer_encodable(lv),
    ensures
        spec_parse_clipboard(spec_clip_text(lv)) == Some(lv),
{
    let body = crate::codec::spec_render(enc_layer(lv));
    let text = spec_clip_text(lv);
    assert(mime_tag().len() == 22);
    assert(text.len() >= 23);
    assert(text.take(22) =~= mime_tag());
    assert(text[22] == 9);
    assert(text.skip(23) =~= body);
    crate::codec::lemma_tokenize_render(enc_layer(lv));
    lemma_rt_layer(lv);
}

} // verus!
