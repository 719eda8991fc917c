use glifedit::codec::{render_tokens, tokenize};
use glifedit::contour_operations::{ContourOperations, DashParams, PapParams, VwsHandle, VwsParams};
use glifedit::outline::{Contour, Handle, Layer, Point, PointType};
use glifedit::payload::{clipboard_text_for_layer, parse_clipboard};

fn pt(x: i64, y: i64, t: PointType) -> Point {
    Point { x, y, a: Handle::Colocated, b: Handle::Colocated, ptype: t, smooth: false }
}

#[test]
fn tokens_render_as_decimal_with_trailing_spaces() {
    let ts: Vec<i128> = vec![12, -3, 0];
    let bytes = render_tokens(&ts);
    assert_eq!(bytes, b"12 -3 0 ".to_vec());
}

#[test]
fn tokenize_reads_back_rendered_tokens() {
    let ts: Vec<i128> = vec![0, 1, -1, 170141183460469231731687303715884105727, i64::MAX as i128, i64::MIN as i128];
    let bytes = render_tokens(&ts);
    let back = tokenize(&bytes).unwrap();
    assert_eq!(back, ts);
}

#[test]
fn tokenize_rejects_text_without_digits() {
    assert!(tokenize(&b"abc ".to_vec()).is_none());
    assert!(tokenize(&b"- ".to_vec()).is_none());
    assert!(tokenize(&b"12".to_vec()).is_none());
    assert!(tokenize(&b"12  3 ".to_vec()).is_none());
}

#[test]
fn tokenize_rejects_out_of_range_numbers() {
    // one more than the largest token value
    assert!(tokenize(&b"170141183460469231731687303715884105728 ".to_vec()).is_none());
    assert!(tokenize(&b"999999999999999999999999999999999999999999999999 ".to_vec()).is_none());
}

#[test]
fn clipboard_text_starts_with_the_application_tag() {
    let layer = Layer { outline: vec![] };
    let text = clipboard_text_for_layer(&layer);
    assert!(text.starts_with(b"text/vnd.mfek.glifjson\t"));
    assert_eq!(&text[23..], b"0 ");
}

#[test]
fn layer_with_every_operation_round_trips() {
    let layer = Layer {
        outline: vec![
            Contour {
                inner: vec![pt(1, -2, PointType::Move), Point {
                    x: 3,
                    y: 4,
                    a: Handle::At(5, 6),
                    b: Handle::At(-7, 8),
                    ptype: PointType::Curve,
                    smooth: true,
                }],
                operation: None,
            },
            Contour {
                inner: vec![pt(0, 0, PointType::QCurve)],
                operation: Some(ContourOperations::VariableWidthStroke {
                    data: VwsParams { handles: vec![VwsHandle { left: 10, right: -11 }] },
                }),
            },
            Contour {
                inner: vec![pt(9, 9, PointType::OffCurve)],
                operation: Some(ContourOperations::PatternAlongPath {
                    data: PapParams { pattern: vec![pt(1, 1, PointType::Line)], spacing: -4 },
                }),
            },
            Contour {
                inner: vec![],
                operation: Some(ContourOperations::DashAlongPath {
                    data: DashParams { lengths: vec![3, 1, 2] },
                }),
            },
        ],
    };
    let text = clipboard_text_for_layer(&layer);
    let back = parse_clipboard(&text).unwrap();
    assert_eq!(back, layer);
}

#[test]
fn parse_rejects_truncated_payload() {
    let layer = Layer { outline: vec![Contour { inner: vec![pt(1, 2, PointType::Move)], operation: None }] };
    let mut text = clipboard_text_for_layer(&layer);
    text.pop();
    text.pop();
    assert!(parse_clipboard(&text).is_none());
}

#[test]
fn parse_rejects_trailing_garbage() {
    let layer = Layer { outline: vec![] };
    let mut text = clipboard_text_for_layer(&layer);
    text.extend_from_slice(b"7 ");
    assert!(parse_clipboard(&text).is_none());
}
