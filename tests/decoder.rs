use std::collections::VecDeque;

use swf_renderer::geometry::add_vec2;
use swf_renderer::joiner::{extract_continuous, segments_to_path};
use swf_renderer::layer::StyleLayerBuilder;
use swf_renderer::{
    decode_shape, CurvedEdge, DecodeError, PathCommand, Segment, Shape, ShapeDecoder,
    ShapeRecord, ShapeStyles, StraightEdge, StyleChange, SwfShape, Vector2D,
};
use swf_tree::fill_styles::Solid;
use swf_tree::{CapStyle, FillStyle, JoinStyle, LineStyle, StraightSRgba8};

fn v(x: i32, y: i32) -> Vector2D {
    Vector2D { x, y }
}

fn solid(r: u8) -> FillStyle {
    FillStyle::Solid(Solid { color: StraightSRgba8 { r, g: 0, b: 0, a: 255 } })
}

fn stroke(width: u16) -> LineStyle {
    LineStyle {
        width,
        start_cap: CapStyle::Round,
        end_cap: CapStyle::Round,
        join: JoinStyle::Round,
        no_h_scale: false,
        no_v_scale: false,
        no_close: false,
        pixel_hinting: false,
        fill: solid(9),
    }
}

fn styles(fills: usize, lines: usize) -> ShapeStyles {
    ShapeStyles {
        fill: (0..fills).map(|i| solid(i as u8 + 1)).collect(),
        line: (0..lines).map(|i| stroke(i as u16 + 1)).collect(),
    }
}

fn change() -> StyleChange {
    StyleChange { move_to: None, left_fill: None, right_fill: None, line_style: None, new_styles: None }
}

fn select(left: Option<usize>, right: Option<usize>, line: Option<usize>) -> ShapeRecord {
    ShapeRecord::StyleChange(StyleChange { left_fill: left, right_fill: right, line_style: line, ..change() })
}

fn move_to(x: i32, y: i32) -> ShapeRecord {
    ShapeRecord::StyleChange(StyleChange { move_to: Some(v(x, y)), ..change() })
}

fn line(dx: i32, dy: i32) -> ShapeRecord {
    ShapeRecord::StraightEdge(StraightEdge { delta: v(dx, dy) })
}

fn seg(a: (i32, i32), b: (i32, i32)) -> Segment {
    Segment::new(v(a.0, a.1), v(b.0, b.1), None)
}

fn decode(initial_styles: ShapeStyles, records: Vec<ShapeRecord>) -> Result<Shape, DecodeError> {
    decode_shape(SwfShape { initial_styles, records })
}

#[test]
fn reverse_twice_gives_the_segment() {
    let s = Segment::new(v(1, 2), v(3, 4), Some(v(5, -6)));
    let r = s.reverse();
    assert_eq!(r, Segment::new(v(3, 4), v(1, 2), Some(v(5, -6))));
    assert_eq!(r.reverse(), s);
    let straight = seg((0, 0), (7, 7));
    assert_eq!(straight.reverse().reverse(), straight);
}

#[test]
fn zero_selectors_record_nothing() {
    let mut b = StyleLayerBuilder::new(styles(2, 1));
    b.add_segment(seg((0, 0), (1, 0)));
    b.set_left_fill(1);
    b.set_left_fill(0);
    b.add_segment(seg((1, 0), (2, 0)));
    let layer = b.build();
    assert!(layer.fills.iter().all(|s| s.segments.is_empty()));
    assert!(layer.lines.iter().all(|s| s.segments.is_empty()));
}

#[test]
fn zero_selectors_in_decoding_give_no_paths() {
    let shape = decode(styles(1, 1), vec![select(Some(0), Some(0), Some(0)), line(10, 0), line(0, 10)]).unwrap();
    assert!(shape.paths.is_empty());
}

#[test]
fn closed_square_is_one_subpath() {
    let records = vec![select(Some(1), None, None), line(10, 0), line(0, 10), line(-10, 0), line(0, -10)];
    let shape = decode(styles(1, 0), records).unwrap();
    assert_eq!(shape.paths.len(), 1);
    let p = &shape.paths[0];
    assert_eq!(p.fill, Some(solid(1)));
    assert_eq!(p.line, None);
    assert_eq!(
        p.path,
        vec![
            PathCommand::MoveTo(v(0, 0)),
            PathCommand::LineTo(v(10, 0)),
            PathCommand::LineTo(v(10, 10)),
            PathCommand::LineTo(v(0, 10)),
            PathCommand::LineTo(v(0, 0)),
        ]
    );
}

#[test]
fn disjoint_edges_share_one_styled_path() {
    let records = vec![select(Some(1), None, None), line(10, 0), move_to(0, 20), line(10, 0)];
    let shape = decode(styles(1, 0), records).unwrap();
    assert_eq!(shape.paths.len(), 1);
    let path = &shape.paths[0].path;
    let moves = path.iter().filter(|c| matches!(c, PathCommand::MoveTo(_))).count();
    assert_eq!(moves, 2);
    assert_eq!(
        *path,
        vec![
            PathCommand::MoveTo(v(0, 0)),
            PathCommand::LineTo(v(10, 0)),
            PathCommand::MoveTo(v(0, 20)),
            PathCommand::LineTo(v(10, 20)),
        ]
    );
}

#[test]
fn new_styles_start_a_separate_layer() {
    let records = vec![
        select(Some(1), None, None),
        line(10, 0),
        ShapeRecord::StyleChange(StyleChange { new_styles: Some(styles(1, 0)), left_fill: Some(1), ..change() }),
        line(0, 10),
    ];
    let shape = decode(styles(1, 0), records).unwrap();
    assert_eq!(shape.paths.len(), 2);
    assert_eq!(shape.paths[0].fill, Some(solid(1)));
    assert_eq!(shape.paths[1].fill, Some(solid(1)));
    assert_eq!(shape.paths[0].path, vec![PathCommand::MoveTo(v(0, 0)), PathCommand::LineTo(v(10, 0))]);
    assert_eq!(shape.paths[1].path, vec![PathCommand::MoveTo(v(10, 0)), PathCommand::LineTo(v(10, 10))]);
}

#[test]
fn new_styles_reset_the_selectors() {
    let records = vec![
        select(Some(1), None, None),
        ShapeRecord::StyleChange(StyleChange { new_styles: Some(styles(1, 0)), ..change() }),
        line(10, 0),
    ];
    let shape = decode(styles(1, 0), records).unwrap();
    assert!(shape.paths.is_empty());
}

#[test]
fn right_fill_records_the_reversed_segment() {
    let mut b = StyleLayerBuilder::new(styles(2, 0));
    b.set_right_fill(2);
    b.add_segment(seg((0, 0), (10, 0)));
    let layer = b.build();
    assert!(layer.fills[0].segments.is_empty());
    assert_eq!(layer.fills[1].segments, VecDeque::from(vec![Segment::new(v(10, 0), v(0, 0), None)]));
}

#[test]
fn left_and_right_fill_of_one_edge() {
    let mut b = StyleLayerBuilder::new(styles(2, 1));
    b.set_left_fill(1);
    b.set_right_fill(1);
    b.set_line_fill(1);
    b.add_segment(seg((0, 0), (5, 5)));
    let layer = b.build();
    assert_eq!(layer.fills[0].segments, VecDeque::from(vec![seg((0, 0), (5, 5)), seg((5, 5), (0, 0))]));
    assert_eq!(layer.lines[0].segments, VecDeque::from(vec![seg((0, 0), (5, 5))]));
}

#[test]
fn left_fill_past_the_table_is_rejected() {
    let records = vec![line(10, 0), select(Some(5), None, None), line(0, 10)];
    let r = decode(styles(2, 0), records);
    assert!(matches!(r, Err(DecodeError::InvalidStyleIndex)));
}

#[test]
fn right_fill_and_line_past_the_table_are_rejected() {
    let r = decode(styles(2, 1), vec![select(None, Some(3), None)]);
    assert!(matches!(r, Err(DecodeError::InvalidStyleIndex)));
    let r = decode(styles(2, 1), vec![select(None, None, Some(2))]);
    assert!(matches!(r, Err(DecodeError::InvalidStyleIndex)));
    let r = decode(styles(2, 1), vec![select(Some(2), Some(2), Some(1))]);
    assert!(r.is_ok());
}

#[test]
fn selectors_are_checked_against_the_new_table() {
    let bigger = ShapeRecord::StyleChange(StyleChange { new_styles: Some(styles(3, 0)), left_fill: Some(3), ..change() });
    assert!(decode(styles(1, 0), vec![bigger]).is_ok());
    let smaller = ShapeRecord::StyleChange(StyleChange { new_styles: Some(styles(0, 0)), left_fill: Some(1), ..change() });
    assert!(matches!(decode(styles(1, 0), vec![smaller]), Err(DecodeError::InvalidStyleIndex)));
}

#[test]
fn fill_paths_come_before_line_paths() {
    let records = vec![select(None, None, Some(1)), line(3, 0), select(Some(2), None, Some(0)), line(0, 3)];
    let shape = decode(styles(2, 1), records).unwrap();
    assert_eq!(shape.paths.len(), 2);
    assert_eq!(shape.paths[0].fill, Some(solid(2)));
    assert_eq!(shape.paths[0].line, None);
    assert_eq!(shape.paths[0].path, vec![PathCommand::MoveTo(v(3, 0)), PathCommand::LineTo(v(3, 3))]);
    assert_eq!(shape.paths[1].fill, None);
    assert_eq!(shape.paths[1].line, Some(stroke(1)));
    assert_eq!(shape.paths[1].path, vec![PathCommand::MoveTo(v(0, 0)), PathCommand::LineTo(v(3, 0))]);
}

#[test]
fn curved_edge_keeps_its_control_point() {
    let records = vec![
        move_to(5, 5),
        select(Some(1), None, None),
        ShapeRecord::CurvedEdge(CurvedEdge { control_delta: v(10, 0), anchor_delta: v(0, 10) }),
    ];
    let shape = decode(styles(1, 0), records).unwrap();
    assert_eq!(
        shape.paths[0].path,
        vec![PathCommand::MoveTo(v(5, 5)), PathCommand::QuadraticBezierTo(v(15, 5), v(15, 15))]
    );
}

#[test]
fn decoder_steps_move_the_pen() {
    let mut d = ShapeDecoder::new(styles(1, 0));
    assert!(d.apply_style_change(StyleChange { left_fill: Some(1), move_to: Some(v(2, 2)), ..change() }).is_ok());
    d.apply_straight_edge(&StraightEdge { delta: v(1, 0) });
    d.apply_curved_edge(&CurvedEdge { control_delta: v(1, 1), anchor_delta: v(1, -1) });
    assert!(d.apply_style_change(StyleChange { left_fill: Some(2), ..change() }).is_err());
    let shape = d.get_shape();
    assert_eq!(
        shape.paths[0].path,
        vec![
            PathCommand::MoveTo(v(2, 2)),
            PathCommand::LineTo(v(3, 2)),
            PathCommand::QuadraticBezierTo(v(4, 3), v(5, 2)),
        ]
    );
}

#[test]
fn empty_shape_has_no_paths() {
    let shape = decode(styles(0, 0), vec![]).unwrap();
    assert!(shape.paths.is_empty());
}

#[test]
fn coordinates_wrap_on_overflow() {
    assert_eq!(add_vec2(v(i32::MAX, 1), v(1, 2)), v(i32::MIN, 3));
    assert_eq!(add_vec2(v(i32::MIN, 0), v(-1, 0)), v(i32::MAX, 0));
}

#[test]
fn chain_grows_at_both_ends() {
    let open: VecDeque<Segment> = vec![seg((1, 0), (2, 0)), seg((0, 0), (1, 0)), seg((2, 0), (3, 0)), seg((9, 9), (8, 8))].into();
    let (rest, chain) = extract_continuous(open);
    assert_eq!(chain, VecDeque::from(vec![seg((0, 0), (1, 0)), seg((1, 0), (2, 0)), seg((2, 0), (3, 0))]));
    assert_eq!(rest, VecDeque::from(vec![seg((9, 9), (8, 8))]));
}

#[test]
fn one_pass_per_chain_defers_late_connections() {
    let open: VecDeque<Segment> = vec![seg((0, 0), (1, 0)), seg((2, 0), (3, 0)), seg((1, 0), (2, 0))].into();
    let path = segments_to_path(open);
    assert_eq!(
        path,
        vec![
            PathCommand::MoveTo(v(0, 0)),
            PathCommand::LineTo(v(1, 0)),
            PathCommand::LineTo(v(2, 0)),
            PathCommand::MoveTo(v(2, 0)),
            PathCommand::LineTo(v(3, 0)),
        ]
    );
}

#[test]
fn unused_fill_styles_give_no_path() {
    let records = vec![select(Some(2), None, None), line(1, 1)];
    let shape = decode(styles(3, 2), records).unwrap();
    assert_eq!(shape.paths.len(), 1);
    assert_eq!(shape.paths[0].fill, Some(solid(2)));
}

#[test]
fn curve_from_edge_ends_at_the_edge_end() {
    let c = CurvedEdge::from_edge(v(3, 4), v(10, 10));
    assert_eq!(c, CurvedEdge { control_delta: v(3, 4), anchor_delta: v(7, 6) });
    let records = vec![select(Some(1), None, None), ShapeRecord::CurvedEdge(c), line(0, 1)];
    let shape = decode(styles(1, 0), records).unwrap();
    assert_eq!(
        shape.paths[0].path,
        vec![
            PathCommand::MoveTo(v(0, 0)),
            PathCommand::QuadraticBezierTo(v(3, 4), v(10, 10)),
            PathCommand::LineTo(v(10, 11)),
        ]
    );
}

#[test]
fn extraction_keeps_every_segment() {
    let input = vec![seg((5, 5), (6, 6)), seg((0, 0), (1, 1)), seg((6, 6), (7, 7)), seg((4, 4), (5, 5))];
    let (rest, chain) = extract_continuous(input.clone().into());
    assert_eq!(chain, VecDeque::from(vec![seg((4, 4), (5, 5)), seg((5, 5), (6, 6)), seg((6, 6), (7, 7))]));
    assert_eq!(rest, VecDeque::from(vec![seg((0, 0), (1, 1))]));
    assert_eq!(chain.len() + rest.len(), input.len());
}
