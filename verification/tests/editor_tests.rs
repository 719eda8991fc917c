use glifedit::editor::{Editor, ToolEnum};
use glifedit::outline::{Contour, Handle, Layer, Point, PointType};
use glifedit::tools::{GridTool, QuadMode, Select};

fn pt(x: i64, y: i64, t: PointType) -> Point {
    Point { x, y, a: Handle::Colocated, b: Handle::Colocated, ptype: t, smooth: false }
}

fn contour(points: Vec<Point>) -> Contour {
    Contour { inner: points, operation: None }
}

fn editor(outline: Vec<Contour>) -> Editor {
    Editor {
        layers: vec![Layer { outline }],
        layer_idx: 0,
        contour_idx: None,
        point_idx: None,
        selected: vec![],
        tool: ToolEnum::Select,
        modifying: false,
    }
}

#[test]
fn point_selected_checks_live_and_set() {
    let mut e = editor(vec![contour(vec![pt(0, 0, PointType::Move), pt(10, 0, PointType::Line)])]);
    assert!(!e.point_selected(0, 0));
    e.contour_idx = Some(0);
    e.point_idx = Some(1);
    assert!(e.point_selected(0, 1));
    assert!(!e.point_selected(0, 0));
    e.selected.push((0, 0));
    assert!(e.point_selected(0, 0));
}

#[test]
fn selected_prefers_live_pair() {
    let mut e = editor(vec![contour(vec![pt(0, 0, PointType::Move), pt(10, 0, PointType::Line)])]);
    assert_eq!(e.selected(), None);
    e.selected.push((0, 1));
    assert_eq!(e.selected(), Some((0, 1)));
    e.contour_idx = Some(0);
    e.point_idx = Some(0);
    assert_eq!(e.selected(), Some((0, 0)));
}

#[test]
fn simplify_removes_live_point_and_clears() {
    let mut e = editor(vec![contour(vec![
        pt(0, 0, PointType::Move),
        pt(10, 0, PointType::Line),
        pt(20, 0, PointType::Line),
    ])]);
    e.contour_idx = Some(0);
    e.point_idx = Some(1);
    e.simplify_selection();
    assert_eq!(e.layers[0].outline[0].inner.len(), 2);
    assert_eq!(e.layers[0].outline[0].inner[1], pt(20, 0, PointType::Line));
    assert!(e.contour_idx.is_none());
    assert!(e.point_idx.is_none());
    assert!(e.selected.is_empty());
}

#[test]
fn simplify_without_live_point_is_a_no_op() {
    let mut e = editor(vec![contour(vec![pt(0, 0, PointType::Move)])]);
    e.simplify_selection();
    assert_eq!(e.layers[0].outline[0].inner.len(), 1);
}

#[test]
fn delete_splits_open_contour_and_retypes() {
    // open contour a-b-c-d-e; delete c: fragments a-b and d-e, both Move-started
    let mut e = editor(vec![contour(vec![
        pt(0, 0, PointType::Move),
        pt(1, 0, PointType::Line),
        pt(2, 0, PointType::Line),
        pt(3, 0, PointType::Line),
        pt(4, 0, PointType::Line),
    ])]);
    e.selected.push((0, 2));
    e.delete_selection();
    assert_eq!(e.layers[0].outline.len(), 2);
    let a = &e.layers[0].outline[0];
    let b = &e.layers[0].outline[1];
    assert_eq!(a.inner.len(), 2);
    assert_eq!(b.inner.len(), 2);
    assert_eq!(a.inner[0].ptype, PointType::Move);
    assert_eq!(b.inner[0].ptype, PointType::Move);
    assert_eq!(b.inner[0].x, 3);
    assert_eq!(b.inner[1].x, 4);
    // selection index validity: the selection is emptied
    assert!(e.selected.is_empty());
    assert!(e.contour_idx.is_none());
}

#[test]
fn delete_on_closed_contour_merges_around_boundary() {
    // closed contour (no Move): deleting the middle point must yield ONE
    // fragment made of (points after) ++ (points before), Move-retyped
    let mut e = editor(vec![contour(vec![
        pt(0, 0, PointType::Curve),
        pt(1, 0, PointType::Curve),
        pt(2, 0, PointType::Curve),
        pt(3, 0, PointType::Curve),
    ])]);
    e.selected.push((0, 1));
    e.delete_selection();
    assert_eq!(e.layers[0].outline.len(), 1);
    let c = &e.layers[0].outline[0];
    // last fragment (2,3) merged in front of first fragment (0)
    assert_eq!(c.inner.len(), 3);
    assert_eq!(c.inner[0].x, 2);
    assert_eq!(c.inner[1].x, 3);
    assert_eq!(c.inner[2].x, 0);
    assert_eq!(c.inner[0].ptype, PointType::Move);
}

#[test]
fn delete_everything_leaves_no_contour() {
    let mut e = editor(vec![contour(vec![pt(0, 0, PointType::Move), pt(1, 0, PointType::Line)])]);
    e.selected.push((0, 0));
    e.selected.push((0, 1));
    e.delete_selection();
    assert_eq!(e.layers[0].outline.len(), 0);
}

#[test]
fn copy_then_paste_round_trips_selection() {
    let mut e = editor(vec![contour(vec![
        pt(0, 0, PointType::Move),
        pt(1, 2, PointType::Line),
        pt(3, 4, PointType::Line),
    ])]);
    e.selected.push((0, 0));
    e.selected.push((0, 1));
    e.selected.push((0, 2));
    let text = e.copy_selection();
    // paste into an empty editor, with no position offset
    let mut f = editor(vec![]);
    f.paste_selection(&text, None);
    assert_eq!(f.layers[0].outline.len(), 1);
    let c = &f.layers[0].outline[0];
    assert_eq!(c.inner.len(), 3);
    assert_eq!(c.inner[0], pt(0, 0, PointType::Move));
    assert_eq!(c.inner[1], pt(1, 2, PointType::Line));
    assert_eq!(c.inner[2], pt(3, 4, PointType::Line));
    // the pasted points are selected
    assert_eq!(f.selected, vec![(0, 0), (0, 1), (0, 2)]);
}

#[test]
fn copy_partial_selection_retypes_fragment_start() {
    let mut e = editor(vec![contour(vec![
        pt(0, 0, PointType::Move),
        pt(1, 0, PointType::Line),
        pt(2, 0, PointType::Line),
    ])]);
    // keep only the last point: the fragment's first point becomes Move
    e.selected.push((0, 2));
    let text = e.copy_selection();
    let mut f = editor(vec![]);
    f.paste_selection(&text, None);
    assert_eq!(f.layers[0].outline.len(), 1);
    assert_eq!(f.layers[0].outline[0].inner.len(), 1);
    assert_eq!(f.layers[0].outline[0].inner[0].ptype, PointType::Move);
    assert_eq!(f.layers[0].outline[0].inner[0].x, 2);
}

#[test]
fn paste_with_position_translates_to_target() {
    // a single point at (10,10), no handles: target (50,50) puts it there
    let mut e = editor(vec![contour(vec![pt(10, 10, PointType::Move)])]);
    e.selected.push((0, 0));
    let text = e.copy_selection();
    let mut f = editor(vec![]);
    f.paste_selection(&text, Some((50, 50)));
    assert_eq!(f.layers[0].outline.len(), 1);
    assert_eq!(f.layers[0].outline[0].inner[0].x, 50);
    assert_eq!(f.layers[0].outline[0].inner[0].y, 50);
}

#[test]
fn paste_translates_handles_by_same_delta() {
    let mut e = editor(vec![contour(vec![Point {
        x: 10,
        y: 10,
        a: Handle::At(12, 14),
        b: Handle::Colocated,
        ptype: PointType::Move,
        smooth: false,
    }])]);
    e.selected.push((0, 0));
    let text = e.copy_selection();
    let mut f = editor(vec![]);
    f.paste_selection(&text, Some((111, 11)));
    // bounding box spans (10,10)-(12,14), center (11,12): delta (100,-1)
    let p = &f.layers[0].outline[0].inner[0];
    assert_eq!((p.x, p.y), (110, 9));
    assert_eq!(p.a, Handle::At(112, 13));
}

#[test]
fn paste_merges_into_existing_selection() {
    let mut e = editor(vec![contour(vec![pt(7, 8, PointType::Move)])]);
    e.selected.push((0, 0));
    let text = e.copy_selection();
    let mut f = editor(vec![contour(vec![pt(0, 0, PointType::Move)])]);
    f.selected.push((0, 0));
    f.paste_selection(&text, None);
    assert_eq!(f.layers[0].outline.len(), 2);
    assert_eq!(f.selected, vec![(0, 0), (1, 0)]);
}

#[test]
fn paste_without_tab_changes_nothing() {
    let mut e = editor(vec![contour(vec![pt(0, 0, PointType::Move)])]);
    e.selected.push((0, 0));
    let before_outline = format!("{:?}", e.layers);
    let before_sel = e.selected.clone();
    let text: Vec<u8> = b"no tab character here at all, nothing to see".to_vec();
    e.paste_selection(&text, None);
    assert_eq!(format!("{:?}", e.layers), before_outline);
    assert_eq!(e.selected, before_sel);
}

#[test]
fn paste_with_foreign_tag_changes_nothing() {
    let mut e = editor(vec![contour(vec![pt(0, 0, PointType::Move)])]);
    let before = format!("{:?}", e.layers);
    let text: Vec<u8> = b"text/plain\tsome ordinary clipboard text".to_vec();
    e.paste_selection(&text, None);
    assert_eq!(format!("{:?}", e.layers), before);
    assert!(e.selected.is_empty());
}

#[test]
fn paste_with_garbled_payload_changes_nothing() {
    let mut e = editor(vec![contour(vec![pt(0, 0, PointType::Move)])]);
    let before = format!("{:?}", e.layers);
    let text: Vec<u8> = b"text/vnd.mfek.glifjson\tthis is not a payload".to_vec();
    e.paste_selection(&text, None);
    assert_eq!(format!("{:?}", e.layers), before);
    assert!(e.selected.is_empty());
}

#[test]
fn bounding_box_covers_points_and_handles() {
    let mut e = editor(vec![contour(vec![
        Point {
            x: 0,
            y: 0,
            a: Handle::At(-5, 9),
            b: Handle::Colocated,
            ptype: PointType::Move,
            smooth: false,
        },
        pt(10, 2, PointType::Line),
    ])]);
    e.selected.push((0, 0));
    e.selected.push((0, 1));
    let r = e.build_selection_bounding_box().unwrap();
    assert_eq!((r.left, r.top, r.right, r.bottom), (-5, 0, 10, 9));
    let c = e.get_selection_bounding_box_center().unwrap();
    assert_eq!(c, (2, 4));
}

#[test]
fn bounding_box_of_empty_selection_is_none() {
    let e = editor(vec![contour(vec![pt(0, 0, PointType::Move)])]);
    assert!(e.build_selection_bounding_box().is_none());
    assert!(e.get_selection_bounding_box_center().is_none());
}

#[test]
fn select_all_selects_every_point() {
    let mut e = editor(vec![
        contour(vec![pt(0, 0, PointType::Move), pt(1, 0, PointType::Line)]),
        contour(vec![pt(5, 5, PointType::Move)]),
    ]);
    let s = Select::new();
    s.select_all(&mut e);
    assert_eq!(e.selected, vec![(0, 0), (0, 1), (1, 0)]);
}

#[test]
fn nudge_moves_only_selected_points() {
    let mut e = editor(vec![contour(vec![pt(0, 0, PointType::Move), pt(10, 0, PointType::Line)])]);
    e.selected.push((0, 1));
    let s = Select::new();
    s.nudge_selected(&mut e, 3, 4);
    // a nudge moves by (-dx, +dy)
    assert_eq!(e.layers[0].outline[0].inner[0], pt(0, 0, PointType::Move));
    assert_eq!(e.layers[0].outline[0].inner[1], pt(7, 4, PointType::Line));
}

#[test]
fn nudge_with_nothing_selected_is_a_no_op() {
    let mut e = editor(vec![contour(vec![pt(0, 0, PointType::Move)])]);
    let s = Select::new();
    s.nudge_selected(&mut e, 3, 4);
    assert_eq!(e.layers[0].outline[0].inner[0], pt(0, 0, PointType::Move));
}

#[test]
fn reverse_twice_restores_contour_and_live_index() {
    // closed contour with live point index 1
    let mut e = editor(vec![contour(vec![
        pt(0, 0, PointType::Curve),
        pt(1, 0, PointType::Curve),
        pt(2, 0, PointType::Curve),
    ])]);
    e.contour_idx = Some(0);
    e.point_idx = Some(1);
    let original: Vec<Point> = e.layers[0].outline[0].inner.clone();
    let s = Select::new();
    s.reverse_selected(&mut e);
    assert_eq!(e.layers[0].outline[0].inner[0].x, 2);
    assert_eq!(e.point_idx, Some(2));
    s.reverse_selected(&mut e);
    assert_eq!(e.layers[0].outline[0].inner, original);
    assert_eq!(e.point_idx, Some(1));
}

#[test]
fn reverse_open_contour_drops_live_reference() {
    let mut e = editor(vec![contour(vec![
        pt(0, 0, PointType::Move),
        pt(1, 0, PointType::Line),
    ])]);
    e.contour_idx = Some(0);
    e.point_idx = Some(1);
    let s = Select::new();
    s.reverse_selected(&mut e);
    assert_eq!(e.layers[0].outline[0].inner[0].x, 1);
    assert!(e.point_idx.is_none());
    assert!(e.contour_idx.is_none());
}

#[test]
fn mouse_press_hit_sets_live_and_clears_foreign_selection() {
    let mut e = editor(vec![contour(vec![pt(0, 0, PointType::Move), pt(1, 0, PointType::Line)])]);
    e.selected.push((0, 1));
    let mut s = Select::new();
    s.mouse_pressed(&mut e, Some((0, 0)), false, false, (0, 0));
    assert!(e.selected.is_empty());
    assert_eq!(e.contour_idx, Some(0));
    assert_eq!(e.point_idx, Some(0));
}

#[test]
fn mouse_press_miss_right_button_sets_pivot() {
    let mut e = editor(vec![contour(vec![pt(0, 0, PointType::Move)])]);
    let mut s = Select::new();
    s.mouse_pressed(&mut e, None, false, true, (42, 43));
    assert_eq!(s.pivot_point, Some((42, 43)));
    assert!(e.selected.is_empty());
}

#[test]
fn double_press_selects_whole_contour() {
    let mut e = editor(vec![contour(vec![pt(0, 0, PointType::Move), pt(1, 0, PointType::Line)])]);
    let s = Select::new();
    s.mouse_double_pressed(&mut e, Some(0), false);
    assert_eq!(e.selected, vec![(0, 0), (0, 1)]);
}

#[test]
fn shift_press_moves_old_live_point_into_selection() {
    let mut e = editor(vec![contour(vec![pt(0, 0, PointType::Move), pt(1, 0, PointType::Line)])]);
    e.contour_idx = Some(0);
    e.point_idx = Some(0);
    let mut s = Select::new();
    s.mouse_pressed(&mut e, Some((0, 1)), true, false, (0, 0));
    // the previously live point joins the selection; the hit becomes live
    assert_eq!(e.selected, vec![(0, 0)]);
    assert_eq!(e.point_idx, Some(1));
}

#[test]
fn clear_selection_empties_set_and_live_reference() {
    let mut e = editor(vec![contour(vec![pt(0, 0, PointType::Move)])]);
    e.selected.push((0, 0));
    e.contour_idx = Some(0);
    e.point_idx = Some(0);
    e.clear_selection();
    assert!(e.selected.is_empty());
    assert!(e.contour_idx.is_none());
    assert!(e.point_idx.is_none());
}

#[test]
fn modification_bracket_toggles_the_flag() {
    let mut e = editor(vec![]);
    assert!(!e.is_modifying());
    e.begin_modification("edit");
    assert!(e.is_modifying());
    e.end_modification();
    assert!(!e.is_modifying());
}

#[test]
fn grid_tool_press_switches_to_pan() {
    let mut e = editor(vec![]);
    let mut g = GridTool::new();
    g.mouse_pressed(&mut e);
    assert_eq!(e.tool, ToolEnum::Pan);
}

#[test]
fn quad_new_contour_starts_with_move_point() {
    let mut e = editor(vec![]);
    let q = QuadMode::new();
    q.new_contour(&mut e, (3, 4), false);
    assert_eq!(e.layers[0].outline.len(), 1);
    assert_eq!(e.layers[0].outline[0].inner[0], pt(3, 4, PointType::Move));
    assert_eq!(e.contour_idx, Some(0));
    assert_eq!(e.point_idx, Some(0));
}

#[test]
fn quad_add_point_appends_after_last() {
    let mut e = editor(vec![]);
    let q = QuadMode::new();
    q.new_contour(&mut e, (0, 0), false);
    q.add_point(&mut e, (5, 5));
    let c = &e.layers[0].outline[0];
    assert_eq!(c.inner.len(), 2);
    assert_eq!(c.inner[1].x, 5);
    assert_eq!(c.inner[1].ptype, PointType::Curve);
    assert_eq!(e.point_idx, Some(1));
}

#[test]
fn quad_add_point_prepends_before_first() {
    let mut e = editor(vec![contour(vec![
        pt(0, 0, PointType::Move),
        pt(1, 0, PointType::Curve),
    ])]);
    e.contour_idx = Some(0);
    e.point_idx = Some(0);
    let q = QuadMode::new();
    q.add_point(&mut e, (9, 9));
    let c = &e.layers[0].outline[0];
    assert_eq!(c.inner.len(), 3);
    // the new first point carries the old start's type; the old start is
    // retyped for an open contour
    assert_eq!(c.inner[0].x, 9);
    assert_eq!(c.inner[0].ptype, PointType::Move);
    assert_eq!(c.inner[1].ptype, PointType::Curve);
}
