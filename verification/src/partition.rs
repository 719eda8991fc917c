//! The split-and-filter algorithm shared by copy and delete: a contour is
//! split at removed points, a closed contour's boundary fragments are
//! rejoined, and surviving fragments are emitted as new sub-paths.

use vstd::prelude::*;

use crate::contour_operations::{
    append_op, clone_op, retype_move, sub_op, ContourOperation, OpView,
};
use crate::outline::{clone_contour, outline_view, Contour, ContourView, Point, PointType};

verus! {

/// The raw fragment walk of the split-and-filter algorithm: kept points
/// accumulate in the current fragment; every removed point closes the
/// current fragment together with the skeleton range it covered, which the
/// fragment's operation is notified of.
pub open spec fn partition_walk(
    points: Seq<Point>,
    keep: Seq<bool>,
    op: OpView,
    i: int,
    begin: int,
    cur: Seq<Point>,
) -> Seq<ContourView>
    decreases points.len() - i,
{
    if i < 0 || i >= points.len() {
        seq![ContourView { points: cur, op: sub_op(op, begin, points.len() as int) }]
    } else if keep[i] {
        partition_walk(points, keep, op, i + 1, begin, cur.push(points[i]))
    } else {
        seq![ContourView { points: cur, op: sub_op(op, begin, i) }] + partition_walk(
            points,
            keep,
            op,
            i + 1,
            i + 1,
            Seq::empty(),
        )
    }
}

/// All fragments the walk yields for a whole contour, before the closed
/// contour front/back merge and before empty fragments are dropped.
pub open spec fn raw_partition(c: ContourView, keep: Seq<bool>) -> Seq<ContourView> {
    partition_walk(c.points, keep, c.op, 0, 0, Seq::empty())
}

pub open spec fn merge_views(last: ContourView, first: ContourView) -> ContourView {
    ContourView { points: last.points + first.points, op: append_op(last.op, first.op) }
}

/// The fragments after the front/back merge: when a closed contour (first
/// point type not `Move`) split into several fragments, the break at the
/// sequence boundary is artificial, so the last fragment is joined in front
/// of the first one.
pub open spec fn merged_partition(c: ContourView, keep: Seq<bool>) -> Seq<ContourView> {
    let raw = raw_partition(c, keep);
    if raw.len() > 1 && c.points[0].ptype != PointType::Move {
        seq![merge_views(raw.last(), raw[0])] + raw.subrange(1, raw.len() - 1)
    } else {
        raw
    }
}

/// Whether the keep predicate removes any point at all.
pub open spec fn any_removed(keep: Seq<bool>) -> bool {
    exists|i: int| 0 <= i < keep.len() && !keep[i]
}

pub open spec fn maybe_retype(c: ContourView, deleted: bool) -> ContourView {
    if deleted {
        ContourView { points: retype_move(c.points), op: c.op }
    } else {
        c
    }
}

/// The emitted outline: empty fragments are dropped, and if any point was
/// removed each surviving fragment's first point is retyped to `Move`.
pub open spec fn emit_fragments(frags: Seq<ContourView>, deleted: bool) -> Seq<ContourView>
    decreases frags.len(),
{
    if frags.len() == 0 {
        Seq::empty()
    } else {
        let head = if frags[0].points.len() > 0 {
            seq![maybe_retype(frags[0], deleted)]
        } else {
            Seq::empty()
        };
        head + emit_fragments(frags.skip(1), deleted)
    }
}

/// What partitioning a contour emits.
pub open spec fn spec_partition(c: ContourView, keep: Seq<bool>) -> Seq<ContourView> {
    emit_fragments(merged_partition(c, keep), any_removed(keep))
}

proof fn lemma_emit_concat(s: Seq<ContourView>, t: Seq<ContourView>, deleted: bool)
    ensures
        emit_fragments(s + t, deleted) == emit_fragments(s, deleted) + emit_fragments(t, deleted),
    decreases s.len(),
{
    if s.len() == 0 {
        assert(s + t =~= t);
        assert(emit_fragments(s, deleted) + emit_fragments(t, deleted) =~= emit_fragments(
            t,
            deleted,
        ));
    } else {
        assert((s + t).skip(1) =~= s.skip(1) + t);
        lemma_emit_concat(s.skip(1), t, deleted);
        assert((s + t)[0] == s[0]);
        assert((s + t).len() > 0);
        if s[0].points.len() > 0 {
            assert(emit_fragments(s + t, deleted) =~= seq![maybe_retype(s[0], deleted)]
                + emit_fragments(s.skip(1), deleted) + emit_fragments(t, deleted));
            assert(emit_fragments(s, deleted) == seq![maybe_retype(s[0], deleted)]
                + emit_fragments(s.skip(1), deleted));
        } else {
            assert(emit_fragments(s + t, deleted) =~= emit_fragments(s.skip(1), deleted)
                + emit_fragments(t, deleted));
            assert(emit_fragments(s, deleted) =~= emit_fragments(s.skip(1), deleted));
        }
    }
}

/// The split-and-filter algorithm shared by copy and delete, parameterized
/// only by which points are kept. `keep[i]` says whether point `i` of the
/// contour survives.
pub fn partition_contour(contour: &Contour, keep: &Vec<bool>) -> (out: Vec<Contour>)
    requires
        keep@.len() == contour.inner@.len(),
    ensures
        outline_view(out@) == spec_partition(contour@, keep@),
{
    let ghost pts = contour.inner@;
    let ghost kp = keep@;
    let ghost opv = contour@.op;
    let ghost raw = partition_walk(pts, kp, opv, 0, 0, Seq::empty());

    let n = contour.inner.len();
    let mut results: Vec<Contour> = Vec::new();
    let mut cur: Vec<Point> = Vec::new();
    let mut begin: usize = 0;
    let mut deleted = false;
    let mut i: usize = 0;
    while i < n
        invariant
            i <= n,
            begin <= i,
            n == pts.len(),
            kp.len() == n,
            pts == contour.inner@,
            kp == keep@,
            opv == contour@.op,
            raw == partition_walk(pts, kp, opv, 0, 0, Seq::empty()),
            raw == outline_view(results@) + partition_walk(
                pts,
                kp,
                opv,
                i as int,
                begin as int,
                cur@,
            ),
            deleted == any_removed(kp.take(i as int)),
        decreases n - i,
    {
        if !keep[i] {
            let mut op = clone_op(&contour.operation);
            op.sub(contour, begin, i);
            let closed = Contour { inner: cur, operation: op };
            proof {
                assert(closed@ == ContourView {
                    points: cur@,
                    op: sub_op(opv, begin as int, i as int),
                });
            }
            results.push(closed);
            cur = Vec::new();
            deleted = true;
            begin = i + 1;
            proof {
                assert(outline_view(results@) =~~= outline_view(results@.drop_last()) + seq![
                    ContourView { points: results@.last().inner@, op: results@.last()@.op },
                ]);
                assert(raw == outline_view(results@) + partition_walk(
                    pts,
                    kp,
                    opv,
                    i as int + 1,
                    i as int + 1,
                    Seq::empty(),
                ));
                assert(cur@ =~= Seq::<Point>::empty());
                assert(0 <= i < kp.take(i as int + 1).len() && !kp.take(i as int + 1)[i as int]);
                assert(any_removed(kp.take(i as int + 1)));
            }
        } else {
            proof {
                assert(partition_walk(pts, kp, opv, i as int, begin as int, cur@)
                    == partition_walk(
                    pts,
                    kp,
                    opv,
                    i as int + 1,
                    begin as int,
                    cur@.push(pts[i as int]),
                ));
            }
            cur.push(contour.inner[i]);
            proof {
                if deleted {
                    let k = choose|k: int|
                        0 <= k < kp.take(i as int).len() && !kp.take(i as int)[k];
                    assert(0 <= k < kp.take(i as int + 1).len() && !kp.take(i as int + 1)[k]);
                } else {
                    assert forall|k: int| 0 <= k < i + 1 implies #[trigger] kp.take(i as int + 1)[k] by {
                        if k < i {
                            assert(kp.take(i as int)[k]);
                        }
                    }
                }
            }
        }
        i += 1;
    }
    let mut op = clone_op(&contour.operation);
    op.sub(contour, begin, n);
    let closed = Contour { inner: cur, operation: op };
    proof {
        assert(closed@ == ContourView { points: cur@, op: sub_op(opv, begin as int, n as int) });
    }
    results.push(closed);
    proof {
        assert(outline_view(results@) =~~= outline_view(results@.drop_last()) + seq![
            ContourView { points: results@.last().inner@, op: results@.last()@.op },
        ]);
        assert(outline_view(results@) =~~= raw);
        assert(kp.take(n as int) =~= kp);
    }

    let ghost merged = merged_partition(contour@, kp);
    if results.len() > 1 {
        proof {
            if n == 0 {
                assert(raw.len() == 1);
                assert(outline_view(results@).len() == results@.len());
            }
            assert(n > 0);
        }
        if contour.inner[0].ptype != PointType::Move {
            let mut last = results.pop().unwrap();
            let ghost popped = outline_view(results@);
            last.inner.append(&mut results[0].inner);
            last.operation.append(contour, &results[0]);
            proof {
                assert(results@[0]@.op == raw[0].op);
                assert(last@ == merge_views(raw.last(), raw[0]));
            }
            results[0] = last;
            proof {
                assert(outline_view(results@) =~~= seq![merge_views(raw.last(), raw[0])]
                    + raw.subrange(1, raw.len() - 1));
                assert(outline_view(results@) =~~= merged);
            }
        }
    }
    proof {
        assert(outline_view(results@) =~~= merged);
    }

    let ghost del = any_removed(kp);
    let mut out: Vec<Contour> = Vec::new();
    let mut j: usize = 0;
    while j < results.len()
        invariant
            j <= results@.len(),
            deleted == del,
            del == any_removed(kp),
            merged == merged_partition(contour@, kp),
            outline_view(results@) == merged,
            outline_view(out@) == emit_fragments(merged.take(j as int), del),
        decreases results@.len() - j,
    {
        proof {
            assert(merged.take(j as int + 1) =~= merged.take(j as int) + seq![merged[j as int]]);
            lemma_emit_concat(merged.take(j as int), seq![merged[j as int]], del);
            assert(seq![merged[j as int]].skip(1) =~= Seq::<ContourView>::empty());
            assert(emit_fragments(Seq::<ContourView>::empty(), del) =~= Seq::<
                ContourView,
            >::empty());
            assert(outline_view(results@)[j as int] == merged[j as int]);
        }
        if results[j].inner.len() > 0 {
            let mut c = clone_contour(&results[j]);
            if deleted {
                let p0 = c.inner[0];
                c.inner[0] = Point {
                    x: p0.x,
                    y: p0.y,
                    a: p0.a,
                    b: p0.b,
                    ptype: PointType::Move,
                    smooth: p0.smooth,
                };
                proof {
                    assert(c.inner@ =~= retype_move(merged[j as int].points));
                }
            }
            let ghost prev = outline_view(out@);
            out.push(c);
            proof {
                assert(outline_view(out@) =~~= prev + seq![maybe_retype(merged[j as int], del)]);
            }
        } else {
            proof {
                assert(merged[j as int].points.len() == 0);
                assert(emit_fragments(Seq::<ContourView>::empty(), del) =~= Seq::<
                    ContourView,
                >::empty());
                assert(emit_fragments(seq![merged[j as int]], del) =~= Seq::<
                    ContourView,
                >::empty());
            }
        }
        proof {
            assert(outline_view(out@) =~~= emit_fragments(merged.take(j as int + 1), del));
        }
        j += 1;
    }
    proof {
        assert(merged.take(results@.len() as int) =~= merged);
    }
    out
}

/// Helper for stating partition completeness: the concatenation of the
/// fragments' point sequences.
pub open spec fn concat_points(frags: Seq<ContourView>) -> Seq<Point>
    decreases frags.len(),
{
    if frags.len() == 0 {
        Seq::empty()
    } else {
        frags[0].points + concat_points(frags.skip(1))
    }
}

/// The kept points of a contour from index `i` on, in original order.
pub open spec fn kept_from(points: Seq<Point>, keep: Seq<bool>, i: int) -> Seq<Point>
    decreases points.len() - i,
{
    if i < 0 || i >= points.len() {
        Seq::empty()
    } else if keep[i] {
        seq![points[i]] + kept_from(points, keep, i + 1)
    } else {
        kept_from(points, keep, i + 1)
    }
}

pub open spec fn kept_points(points: Seq<Point>, keep: Seq<bool>) -> Seq<Point> {
    kept_from(points, keep, 0)
}

proof fn lemma_concat_cons(c: ContourView, rest: Seq<ContourView>)
    ensures
        concat_points(seq![c] + rest) == c.points + concat_points(rest),
{
    assert((seq![c] + rest).skip(1) =~= rest);
    assert((seq![c] + rest)[0] == c);
}

proof fn lemma_walk_complete(
    points: Seq<Point>,
    keep: Seq<bool>,
    op: OpView,
    i: int,
    begin: int,
    cur: Seq<Point>,
)
    requires
        keep.len() == points.len(),
        0 <= i,
    ensures
        concat_points(partition_walk(points, keep, op, i, begin, cur)) == cur + kept_from(
            points,
            keep,
            i,
        ),
    decreases points.len() - i,
{
    if i >= points.len() {
        let w = partition_walk(points, keep, op, i, begin, cur);
        assert(w.len() == 1);
        assert(w[0].points == cur);
        assert(w.skip(1) =~= Seq::<ContourView>::empty());
        assert(concat_points(w.skip(1)) == Seq::<Point>::empty());
        assert(concat_points(w) == cur + Seq::<Point>::empty());
        assert(cur + Seq::<Point>::empty() =~= cur);
        assert(cur + kept_from(points, keep, i) =~= cur);
    } else if keep[i] {
        lemma_walk_complete(points, keep, op, i + 1, begin, cur.push(points[i]));
        assert(cur.push(points[i]) + kept_from(points, keep, i + 1) =~= cur + (seq![points[i]]
            + kept_from(points, keep, i + 1)));
    } else {
        let head = ContourView { points: cur, op: sub_op(op, begin, i) };
        lemma_concat_cons(head, partition_walk(points, keep, op, i + 1, i + 1, Seq::empty()));
        lemma_walk_complete(points, keep, op, i + 1, i + 1, Seq::empty());
        assert(Seq::<Point>::empty() + kept_from(points, keep, i + 1) =~= kept_from(
            points,
            keep,
            i + 1,
        ));
    }
}

/// Partition completeness: across all fragments of the raw walk, the points
/// are exactly the kept points of the contour, in original relative order;
/// no point is duplicated or dropped.
pub proof fn lemma_partition_complete(c: ContourView, keep: Seq<bool>)
    requires
        keep.len() == c.points.len(),
    ensures
        concat_points(raw_partition(c, keep)) == kept_points(c.points, keep),
{
    lemma_walk_complete(c.points, keep, c.op, 0, 0, Seq::empty());
    assert(Seq::<Point>::empty() + kept_points(c.points, keep) =~= kept_points(c.points, keep));
}

/// Merge correctness: when partitioning a closed contour (first point type
/// not `Move`) yields two or more fragments, the last and first fragments
/// are merged into one, reducing the fragment count by exactly one, and the
/// merged fragment's points are the last fragment's followed by the first's.
pub proof fn lemma_partition_merge(c: ContourView, keep: Seq<bool>)
    requires
        keep.len() == c.points.len(),
        c.points.len() > 0,
        c.points[0].ptype != PointType::Move,
        raw_partition(c, keep).len() >= 2,
    ensures
        merged_partition(c, keep).len() == raw_partition(c, keep).len() - 1,
        merged_partition(c, keep)[0].points == raw_partition(c, keep).last().points
            + raw_partition(c, keep)[0].points,
        forall|k: int|
            1 <= k < merged_partition(c, keep).len() ==> merged_partition(c, keep)[k]
                == raw_partition(c, keep)[k],
{
}

} // verus!
