use glifedit::contour_operations::{
    ContourOperation, ContourOperationBuild, ContourOperations, DashParams, PapParams, VwsHandle,
    VwsParams,
};
use glifedit::outline::{Contour, Handle, Point, PointType};
use glifedit::partition::partition_contour;

fn pt(x: i64, y: i64, t: PointType) -> Point {
    Point { x, y, a: Handle::Colocated, b: Handle::Colocated, ptype: t, smooth: false }
}

fn vws(handles: Vec<VwsHandle>) -> Option<ContourOperations> {
    Some(ContourOperations::VariableWidthStroke { data: VwsParams { handles } })
}

#[test]
fn build_with_no_operation_passes_points_through() {
    let c = Contour {
        inner: vec![pt(1, 2, PointType::Move), pt(3, 4, PointType::Line)],
        operation: None,
    };
    let out = c.operation.build(&c);
    assert_eq!(out.len(), 1);
    assert_eq!(out[0].inner, c.inner);
    assert!(out[0].operation.is_none());
}

#[test]
fn build_pattern_stamps_once_per_skeleton_point() {
    let c = Contour {
        inner: vec![pt(10, 0, PointType::Move), pt(20, 5, PointType::Line)],
        operation: Some(ContourOperations::PatternAlongPath {
            data: PapParams { pattern: vec![pt(0, 0, PointType::Move), pt(1, 1, PointType::Line)], spacing: 1 },
        }),
    };
    let out = c.operation.build(&c);
    assert_eq!(out.len(), 2);
    assert_eq!(out[0].inner[0], pt(10, 0, PointType::Move));
    assert_eq!(out[0].inner[1], pt(11, 1, PointType::Line));
    assert_eq!(out[1].inner[0], pt(20, 5, PointType::Move));
    assert_eq!(out[1].inner[1], pt(21, 6, PointType::Line));
}

#[test]
fn build_stroke_offsets_both_sides() {
    let c = Contour {
        inner: vec![pt(0, 0, PointType::Move), pt(10, 0, PointType::Line)],
        operation: vws(vec![VwsHandle { left: 2, right: 3 }, VwsHandle { left: 2, right: 3 }]),
    };
    let out = c.operation.build(&c);
    assert_eq!(out.len(), 1);
    let pts = &out[0].inner;
    assert_eq!(pts.len(), 4);
    // left side forward (x - left), then right side backward (x + right)
    assert_eq!(pts[0].x, -2);
    assert_eq!(pts[1].x, 8);
    assert_eq!(pts[2].x, 13);
    assert_eq!(pts[3].x, 3);
}

#[test]
fn build_dash_cuts_runs_of_points() {
    let c = Contour {
        inner: vec![
            pt(0, 0, PointType::Curve),
            pt(1, 0, PointType::Curve),
            pt(2, 0, PointType::Curve),
            pt(3, 0, PointType::Curve),
            pt(4, 0, PointType::Curve),
        ],
        operation: Some(ContourOperations::DashAlongPath { data: DashParams { lengths: vec![2, 1] } }),
    };
    let out = c.operation.build(&c);
    // runs: [0,1] skip 2, [3,4]
    assert_eq!(out.len(), 2);
    assert_eq!(out[0].inner.len(), 2);
    assert_eq!(out[0].inner[0].ptype, PointType::Move);
    assert_eq!(out[1].inner[0].x, 3);
    assert_eq!(out[1].inner[1].x, 4);
}

#[test]
fn sub_truncates_stroke_profile() {
    let mut op = vws(vec![
        VwsHandle { left: 1, right: 1 },
        VwsHandle { left: 2, right: 2 },
        VwsHandle { left: 3, right: 3 },
    ]);
    let c = Contour { inner: vec![], operation: None };
    op.sub(&c, 1, 3);
    match op {
        Some(ContourOperations::VariableWidthStroke { data }) => {
            assert_eq!(data.handles, vec![VwsHandle { left: 2, right: 2 }, VwsHandle { left: 3, right: 3 }]);
        }
        _ => panic!("operation variant changed"),
    }
}

#[test]
fn append_concatenates_stroke_profiles() {
    let mut op = vws(vec![VwsHandle { left: 1, right: 1 }]);
    let c = Contour { inner: vec![], operation: None };
    let other = Contour { inner: vec![], operation: vws(vec![VwsHandle { left: 9, right: 9 }]) };
    op.append(&c, &other);
    match op {
        Some(ContourOperations::VariableWidthStroke { data }) => {
            assert_eq!(data.handles.len(), 2);
            assert_eq!(data.handles[1], VwsHandle { left: 9, right: 9 });
        }
        _ => panic!("operation variant changed"),
    }
}

#[test]
fn insert_copies_the_neighbouring_profile_entry() {
    let mut op = vws(vec![VwsHandle { left: 1, right: 1 }, VwsHandle { left: 5, right: 5 }]);
    let c = Contour { inner: vec![], operation: None };
    ContourOperation::insert(&mut op, &c, 1);
    match op {
        Some(ContourOperations::VariableWidthStroke { data }) => {
            assert_eq!(data.handles.len(), 3);
            assert_eq!(data.handles[1], VwsHandle { left: 5, right: 5 });
        }
        _ => panic!("operation variant changed"),
    }
}

#[test]
fn pattern_operation_ignores_edit_notifications() {
    let mut op = Some(ContourOperations::PatternAlongPath {
        data: PapParams { pattern: vec![pt(0, 0, PointType::Move)], spacing: 7 },
    });
    let c = Contour { inner: vec![], operation: None };
    op.sub(&c, 0, 0);
    ContourOperation::insert(&mut op, &c, 0);
    match op {
        Some(ContourOperations::PatternAlongPath { data }) => {
            assert_eq!(data.spacing, 7);
            assert_eq!(data.pattern.len(), 1);
        }
        _ => panic!("operation variant changed"),
    }
}

#[test]
fn partition_keeps_exactly_the_kept_points_in_order() {
    let c = Contour {
        inner: vec![
            pt(0, 0, PointType::Move),
            pt(1, 0, PointType::Line),
            pt(2, 0, PointType::Line),
            pt(3, 0, PointType::Line),
        ],
        operation: None,
    };
    let keep = vec![true, false, true, true];
    let frags = partition_contour(&c, &keep);
    let mut flat: Vec<i64> = Vec::new();
    for f in &frags {
        for p in &f.inner {
            flat.push(p.x);
        }
    }
    assert_eq!(flat, vec![0, 2, 3]);
}

#[test]
fn partition_of_closed_contour_merges_last_and_first_fragment() {
    let c = Contour {
        inner: vec![
            pt(0, 0, PointType::Curve),
            pt(1, 0, PointType::Curve),
            pt(2, 0, PointType::Curve),
            pt(3, 0, PointType::Curve),
            pt(4, 0, PointType::Curve),
        ],
        operation: None,
    };
    // remove point 2: raw fragments [0,1] and [3,4]; merged: [3,4,0,1]
    let keep = vec![true, true, false, true, true];
    let frags = partition_contour(&c, &keep);
    assert_eq!(frags.len(), 1);
    let xs: Vec<i64> = frags[0].inner.iter().map(|p| p.x).collect();
    assert_eq!(xs, vec![3, 4, 0, 1]);
    assert_eq!(frags[0].inner[0].ptype, PointType::Move);
}

#[test]
fn partition_carries_stroke_profile_to_fragments() {
    let c = Contour {
        inner: vec![
            pt(0, 0, PointType::Move),
            pt(1, 0, PointType::Line),
            pt(2, 0, PointType::Line),
        ],
        operation: vws(vec![
            VwsHandle { left: 1, right: 1 },
            VwsHandle { left: 2, right: 2 },
            VwsHandle { left: 3, right: 3 },
        ]),
    };
    // remove the first point: the fragment covers skeleton range [1,3)
    let keep = vec![false, true, true];
    let frags = partition_contour(&c, &keep);
    assert_eq!(frags.len(), 1);
    match &frags[0].operation {
        Some(ContourOperations::VariableWidthStroke { data }) => {
            assert_eq!(data.handles, vec![VwsHandle { left: 2, right: 2 }, VwsHandle { left: 3, right: 3 }]);
        }
        _ => panic!("fragment lost its operation"),
    }
}

#[test]
fn partition_with_everything_kept_keeps_one_contour() {
    let c = Contour {
        inner: vec![pt(0, 0, PointType::Move), pt(1, 0, PointType::Line)],
        operation: None,
    };
    let keep = vec![true, true];
    let frags = partition_contour(&c, &keep);
    assert_eq!(frags.len(), 1);
    assert_eq!(frags[0].inner, c.inner);
    // nothing was removed, so no retype happens
    assert_eq!(frags[0].inner[0].ptype, PointType::Move);
}
