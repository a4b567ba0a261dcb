//! The decoder: walks the records of a shape and assembles its styled paths.
use vstd::prelude::*;

use swf_tree::{FillStyle, LineStyle};

use crate::geometry::{add_vec2, vec_add, PathCommand, Segment, Vector2D};
use crate::joiner::{joined_path, segments_to_path};
use crate::layer::{
    fresh_builder, reversed, sets_view, with_segment, BuilderModel, LayerModel,
    SegmentSet, StyleLayer, StyleLayerBuilder,
};
use crate::records::{CurvedEdge, ShapeRecord, ShapeStyles, StraightEdge, StyleChange, SwfShape};

verus! {

/// Why a shape cannot be decoded.
#[derive(Clone, Copy, Debug, PartialEq, Eq, Structural)]
pub enum DecodeError {
    /// A style selector points past the end of the style table in force.
    InvalidStyleIndex,
}

/// One output path, tagged with exactly one of a fill style or a line style.
#[derive(Debug)]
pub struct StyledPath {
    pub path: Vec<PathCommand>,
    pub fill: Option<FillStyle>,
    pub line: Option<LineStyle>,
}

/// A styled path as plain values.
pub struct StyledPathModel {
    pub path: Seq<PathCommand>,
    pub fill: Option<FillStyle>,
    pub line: Option<LineStyle>,
}

impl View for StyledPath {
    type V = StyledPathModel;

    open spec fn view(&self) -> StyledPathModel {
        StyledPathModel { path: self.path@, fill: self.fill, line: self.line }
    }
}

/// A decoded shape: its styled paths in drawing order.
#[derive(Debug)]
pub struct Shape {
    pub paths: Vec<StyledPath>,
}

pub open spec fn paths_view(paths: Seq<StyledPath>) -> Seq<StyledPathModel> {
    paths.map_values(|p: StyledPath| p@)
}

impl View for Shape {
    type V = Seq<StyledPathModel>;

    open spec fn view(&self) -> Seq<StyledPathModel> {
        paths_view(self.paths@)
    }
}

/// The fill paths of a layer: one per non-empty bag, in table order.
pub open spec fn fill_paths(sets: Seq<(FillStyle, Seq<Segment>)>) -> Seq<StyledPathModel>
    decreases sets.len(),
{
    if sets.len() == 0 {
        Seq::empty()
    } else {
        let rest = fill_paths(sets.drop_last());
        let (style, segs) = sets.last();
        if segs.len() > 0 {
            rest.push(StyledPathModel { path: joined_path(segs), fill: Some(style), line: None })
        } else {
            rest
        }
    }
}

/// The line paths of a layer: one per non-empty bag, in table order.
pub open spec fn line_paths(sets: Seq<(LineStyle, Seq<Segment>)>) -> Seq<StyledPathModel>
    decreases sets.len(),
{
    if sets.len() == 0 {
        Seq::empty()
    } else {
        let rest = line_paths(sets.drop_last());
        let (style, segs) = sets.last();
        if segs.len() > 0 {
            rest.push(StyledPathModel { path: joined_path(segs), fill: None, line: Some(style) })
        } else {
            rest
        }
    }
}

/// All paths of a layer: its fill paths, then its line paths.
pub open spec fn layer_paths(layer: LayerModel) -> Seq<StyledPathModel> {
    fill_paths(layer.fills) + line_paths(layer.lines)
}

/// The paths of the layers, layer after layer.
pub open spec fn shape_paths(layers: Seq<LayerModel>) -> Seq<StyledPathModel>
    decreases layers.len(),
{
    if layers.len() == 0 {
        Seq::empty()
    } else {
        shape_paths(layers.drop_last()) + layer_paths(layers.last())
    }
}

/// The state of a decoding: the frozen layers, the current one and the pen.
pub struct DecoderModel {
    pub layers: Seq<LayerModel>,
    pub top: BuilderModel,
    pub pos: Vector2D,
}

pub open spec fn initial_decoder(styles: ShapeStyles) -> DecoderModel {
    DecoderModel {
        layers: Seq::empty(),
        top: fresh_builder(styles.fill@, styles.line@),
        pos: Vector2D { x: 0, y: 0 },
    }
}

/// The layers once decoding ends: the frozen ones, then the current one.
pub open spec fn final_layers(d: DecoderModel) -> Seq<LayerModel> {
    d.layers.push(d.top.layer)
}

pub open spec fn after_straight_edge(d: DecoderModel, e: StraightEdge) -> DecoderModel {
    let end = vec_add(d.pos, e.delta);
    DecoderModel {
        top: with_segment(d.top, Segment { start: d.pos, end, control: None }),
        pos: end,
        ..d
    }
}

pub open spec fn after_curved_edge(d: DecoderModel, e: CurvedEdge) -> DecoderModel {
    let control = vec_add(d.pos, e.control_delta);
    let end = vec_add(control, e.anchor_delta);
    DecoderModel {
        top: with_segment(d.top, Segment { start: d.pos, end, control: Some(control) }),
        pos: end,
        ..d
    }
}

/// An optional selector that fits a table of `n` styles (0 always fits).
pub open spec fn fits(id: Option<usize>, n: nat) -> bool {
    match id {
        Some(i) => i <= n,
        None => true,
    }
}

/// A present selector replaces the current one.
pub open spec fn selected(id: Option<usize>, current: nat) -> nat {
    match id {
        Some(i) => i as nat,
        None => current,
    }
}

/// The decoder once a new style table starts a layer.
pub open spec fn with_new_styles(d: DecoderModel, styles: Option<ShapeStyles>) -> DecoderModel {
    match styles {
        Some(s) => DecoderModel {
            layers: d.layers.push(d.top.layer),
            top: fresh_builder(s.fill@, s.line@),
            pos: d.pos,
        },
        None => d,
    }
}

/// Whether the selectors of a style change fit the style table in force once
/// its new table, if any, applies.
pub open spec fn style_change_valid(d: DecoderModel, c: StyleChange) -> bool {
    let t = with_new_styles(d, c.new_styles).top.layer;
    &&& fits(c.left_fill, t.fills.len())
    &&& fits(c.right_fill, t.fills.len())
    &&& fits(c.line_style, t.lines.len())
}

pub open spec fn after_style_change(d: DecoderModel, c: StyleChange) -> DecoderModel {
    let d1 = with_new_styles(d, c.new_styles);
    DecoderModel {
        layers: d1.layers,
        top: BuilderModel {
            layer: d1.top.layer,
            left_fill: selected(c.left_fill, d1.top.left_fill),
            right_fill: selected(c.right_fill, d1.top.right_fill),
            line_fill: selected(c.line_style, d1.top.line_fill),
        },
        pos: match c.move_to {
            Some(p) => p,
            None => d1.pos,
        },
    }
}

/// One record applied to the decoder; `None` for a style index out of range.
pub open spec fn after_record(d: DecoderModel, r: ShapeRecord) -> Option<DecoderModel> {
    match r {
        ShapeRecord::StraightEdge(e) => Some(after_straight_edge(d, e)),
        ShapeRecord::CurvedEdge(e) => Some(after_curved_edge(d, e)),
        ShapeRecord::StyleChange(c) => if style_change_valid(d, c) {
            Some(after_style_change(d, c))
        } else {
            None
        },
    }
}

/// The records applied in order; `None` once one of them is invalid.
pub open spec fn after_records(d: DecoderModel, records: Seq<ShapeRecord>) -> Option<DecoderModel>
    decreases records.len(),
{
    if records.len() == 0 {
        Some(d)
    } else {
        match after_records(d, records.drop_last()) {
            Some(d1) => after_record(d1, records.last()),
            None => None,
        }
    }
}

/// The decoding of a whole shape, `None` where a style index is out of range.
pub open spec fn decoded(shape: SwfShape) -> Option<Seq<StyledPathModel>> {
    match after_records(initial_decoder(shape.initial_styles), shape.records@) {
        Some(d) => Some(shape_paths(final_layers(d))),
        None => None,
    }
}

/// Walks the records of a shape, one at a time.
pub struct ShapeDecoder {
    layers: Vec<StyleLayer>,
    top_layer: StyleLayerBuilder,
    pos: Vector2D,
}

impl View for ShapeDecoder {
    type V = DecoderModel;

    closed spec fn view(&self) -> DecoderModel {
        DecoderModel {
            layers: self.layers@.map_values(|l: StyleLayer| l@),
            top: self.top_layer@,
            pos: self.pos,
        }
    }
}

impl ShapeDecoder {
    pub closed spec fn wf(&self) -> bool {
        self.top_layer.wf()
    }

    /// A decoder at the origin, with an empty layer for the initial styles.
    pub fn new(styles: ShapeStyles) -> (r: ShapeDecoder)
        ensures
            r@ == initial_decoder(styles),
            r.wf(),
    {
        let top_layer = StyleLayerBuilder::new(styles);
        let r = ShapeDecoder { layers: Vec::new(), top_layer, pos: Vector2D { x: 0, y: 0 } };
        assert(r@.layers =~= Seq::<LayerModel>::empty());
        r
    }

    /// Draws a quadratic curve from the pen and moves the pen to its end.
    pub fn apply_curved_edge(&mut self, record: &CurvedEdge)
        requires
            old(self).wf(),
        ensures
            final(self)@ == after_curved_edge(old(self)@, *record),
            final(self).wf(),
    {
        let control = add_vec2(self.pos, record.control_delta);
        let end = add_vec2(control, record.anchor_delta);
        self.top_layer.add_segment(Segment::new(self.pos, end, Some(control)));
        self.pos = end;
    }

    /// Draws a straight edge from the pen and moves the pen to its end.
    pub fn apply_straight_edge(&mut self, record: &StraightEdge)
        requires
            old(self).wf(),
        ensures
            final(self)@ == after_straight_edge(old(self)@, *record),
            final(self).wf(),
    {
        let end = add_vec2(self.pos, record.delta);
        self.top_layer.add_segment(Segment::new(self.pos, end, None));
        self.pos = end;
    }

    /// Applies a style change. Fails, leaving the decoder as it was, when a
    /// selector points past the style table in force.
    pub fn apply_style_change(&mut self, record: StyleChange) -> (r: Result<(), DecodeError>)
        requires
            old(self).wf(),
        ensures
            final(self).wf(),
            style_change_valid(old(self)@, record) ==> r is Ok && final(self)@
                == after_style_change(old(self)@, record),
            !style_change_valid(old(self)@, record) ==> r == Err::<(), DecodeError>(
                DecodeError::InvalidStyleIndex,
            ) && final(self)@ == old(self)@,
    {
        let (fill_count, line_count) = match &record.new_styles {
            Some(s) => (s.fill.len(), s.line.len()),
            None => (self.top_layer.fill_count(), self.top_layer.line_count()),
        };
        let StyleChange { move_to, left_fill, right_fill, line_style, new_styles } = record;
        if !index_fits(left_fill, fill_count) || !index_fits(right_fill, fill_count)
            || !index_fits(line_style, line_count) {
            return Err(DecodeError::InvalidStyleIndex);
        }
        if let Some(styles) = new_styles {
            self.set_new_styles(styles);
        }
        if let Some(id) = left_fill {
            self.top_layer.set_left_fill(id);
        }
        if let Some(id) = right_fill {
            self.top_layer.set_right_fill(id);
        }
        if let Some(id) = line_style {
            self.top_layer.set_line_fill(id);
        }
        if let Some(p) = move_to {
            self.pos = p;
        }
        Ok(())
    }

    /// Ends decoding: freezes the current layer and assembles the paths of
    /// all layers.
    pub fn get_shape(self) -> (r: Shape)
        requires
            self.wf(),
        ensures
            r@ == shape_paths(final_layers(self@)),
    {
        let ghost all = final_layers(self@);
        let ShapeDecoder { layers, top_layer, pos: _ } = self;
        let mut layers = layers;
        layers.push(top_layer.build());
        assert(layers@.map_values(|l: StyleLayer| l@) =~= all);
        let mut rev = reversed(layers);
        let mut paths: Vec<StyledPath> = Vec::new();
        while rev.len() > 0
            invariant
                rev@.len() <= all.len(),
                rev@.map_values(|l: StyleLayer| l@) == all.skip(all.len() - rev@.len()).reverse(),
                paths_view(paths@) == shape_paths(all.take(all.len() - rev@.len())),
            decreases rev@.len(),
        {
            let ghost k = all.len() - rev@.len();
            let ghost rv = rev@.map_values(|l: StyleLayer| l@);
            assert(rv[rv.len() - 1] == all[k]);
            let layer = rev.pop().unwrap();
            assert(layer@ == all[k]);
            append_layer_paths(&mut paths, layer);
            assert(all.take(k + 1).drop_last() =~= all.take(k));
            assert(rev@.map_values(|l: StyleLayer| l@) =~= rv.drop_last());
            assert(rv.drop_last() =~= all.skip(k + 1).reverse());
        }
        assert(all.take(all.len() as int) =~= all);
        Shape { paths }
    }

    fn set_new_styles(&mut self, styles: ShapeStyles)
        requires
            old(self).wf(),
        ensures
            final(self)@ == with_new_styles(old(self)@, Some(styles)),
            final(self).wf(),
    {
        let mut layer = StyleLayerBuilder::new(styles);
        std::mem::swap(&mut layer, &mut self.top_layer);
        self.layers.push(layer.build());
        assert(self@.layers =~= old(self)@.layers.push(old(self)@.top.layer));
    }
}

/// Whether an optional selector fits a table of `n` styles.
fn index_fits(id: Option<usize>, n: usize) -> (r: bool)
    ensures
        r == fits(id, n as nat),
{
    match id {
        Some(i) => i <= n,
        None => true,
    }
}

/// Appends the paths of one layer: a fill path per non-empty fill bag, then a
/// line path per non-empty line bag.
fn append_layer_paths(paths: &mut Vec<StyledPath>, layer: StyleLayer)
    ensures
        paths_view(final(paths)@) == paths_view(old(paths)@) + layer_paths(layer@),
{
    let ghost fills = layer@.fills;
    let ghost lines = layer@.lines;
    let ghost start = paths_view(paths@);
    let StyleLayer { fills: fill_sets, lines: line_sets } = layer;
    let mut rev = reversed(fill_sets);
    while rev.len() > 0
        invariant
            rev@.len() <= fills.len(),
            sets_view(rev@) == fills.skip(fills.len() - rev@.len()).reverse(),
            paths_view(paths@) == start + fill_paths(fills.take(fills.len() - rev@.len())),
        decreases rev@.len(),
    {
        let ghost k = fills.len() - rev@.len();
        let ghost rv = sets_view(rev@);
        assert(rv[rv.len() - 1] == fills[k]);
        let ghost before = paths_view(paths@);
        let set = rev.pop().unwrap();
        assert(fills.take(k + 1).drop_last() =~= fills.take(k));
        assert(fills.take(k + 1).last() == fills[k]);
        let SegmentSet { style, segments } = set;
        if segments.len() > 0 {
            let path = segments_to_path(segments);
            paths.push(StyledPath { path, fill: Some(style), line: None });
            assert(paths_view(paths@) =~= before.push(
                StyledPathModel { path: path@, fill: Some(style), line: None },
            ));
        }
        assert(sets_view(rev@) =~= rv.drop_last());
        assert(rv.drop_last() =~= fills.skip(k + 1).reverse());
    }
    assert(fills.take(fills.len() as int) =~= fills);
    let ghost mid = paths_view(paths@);
    let mut rev = reversed(line_sets);
    while rev.len() > 0
        invariant
            rev@.len() <= lines.len(),
            sets_view(rev@) == lines.skip(lines.len() - rev@.len()).reverse(),
            paths_view(paths@) == mid + line_paths(lines.take(lines.len() - rev@.len())),
        decreases rev@.len(),
    {
        let ghost k = lines.len() - rev@.len();
        let ghost rv = sets_view(rev@);
        assert(rv[rv.len() - 1] == lines[k]);
        let ghost before = paths_view(paths@);
        let set = rev.pop().unwrap();
        assert(lines.take(k + 1).drop_last() =~= lines.take(k));
        assert(lines.take(k + 1).last() == lines[k]);
        let SegmentSet { style, segments } = set;
        if segments.len() > 0 {
            let path = segments_to_path(segments);
            paths.push(StyledPath { path, fill: None, line: Some(style) });
            assert(paths_view(paths@) =~= before.push(
                StyledPathModel { path: path@, fill: None, line: Some(style) },
            ));
        }
        assert(sets_view(rev@) =~= rv.drop_last());
        assert(rv.drop_last() =~= lines.skip(k + 1).reverse());
    }
    assert(lines.take(lines.len() as int) =~= lines);
}

/// Once a record is invalid, no later record makes the stream valid again.
proof fn lemma_invalid_prefix(d: DecoderModel, records: Seq<ShapeRecord>, j: int)
    requires
        0 <= j <= records.len(),
        after_records(d, records.take(j)) is None,
    ensures
        after_records(d, records) is None,
    decreases records.len(),
{
    if j < records.len() {
        assert(records.drop_last().take(j) =~= records.take(j));
        lemma_invalid_prefix(d, records.drop_last(), j);
    } else {
        assert(records.take(j) =~= records);
    }
}

/// Decodes a shape into its styled paths, or fails on the first style
/// selector that points past the style table in force.
pub fn decode_shape(swf_shape: SwfShape) -> (r: Result<Shape, DecodeError>)
    ensures
        match decoded(swf_shape) {
            Some(paths) => r is Ok && r->Ok_0@ == paths,
            None => r is Err && r->Err_0 == DecodeError::InvalidStyleIndex,
        },
{
    let ghost shape = swf_shape;
    let ghost records = swf_shape.records@;
    let ghost init = initial_decoder(swf_shape.initial_styles);
    let SwfShape { initial_styles, records: record_vec } = swf_shape;
    let mut decoder = ShapeDecoder::new(initial_styles);
    let mut rev = reversed(record_vec);
    assert(records.take(0) =~= Seq::<ShapeRecord>::empty());
    while rev.len() > 0
        invariant
            shape == swf_shape,
            init == initial_decoder(shape.initial_styles),
            records == shape.records@,
            rev@.len() <= records.len(),
            rev@ == records.skip(records.len() - rev@.len()).reverse(),
            after_records(init, records.take(records.len() - rev@.len())) == Some(decoder@),
            decoder.wf(),
        decreases rev@.len(),
    {
        let ghost k = records.len() - rev@.len();
        let ghost rv = rev@;
        let record = rev.pop().unwrap();
        assert(record == records[k]);
        assert(records.take(k + 1).drop_last() =~= records.take(k));
        assert(records.take(k + 1).last() == records[k]);
        assert(rev@ =~= rv.drop_last());
        assert(rv.drop_last() =~= records.skip(k + 1).reverse());
        let ghost before = decoder@;
        assert(after_records(init, records.take(k + 1)) == after_record(before, record));
        match record {
            ShapeRecord::CurvedEdge(e) => {
                decoder.apply_curved_edge(&e);
            },
            ShapeRecord::StraightEdge(e) => {
                decoder.apply_straight_edge(&e);
            },
            ShapeRecord::StyleChange(c) => {
                match decoder.apply_style_change(c) {
                    Ok(()) => {},
                    Err(e) => {
                        proof {
                            assert(after_record(before, record) is None);
                            lemma_invalid_prefix(init, records, k + 1);
                        }
                        return Err(e);
                    },
                }
            },
        }
    }
    assert(records.take(records.len() as int) =~= records);
    Ok(decoder.get_shape())
}

/// A style change that brings a new style table freezes everything drawn so
/// far into a layer of its own, appended after the earlier layers, and starts
/// an empty layer, even where both tables share style indices.
pub proof fn lemma_new_styles_freeze_layer(d: DecoderModel, c: StyleChange)
    requires
        c.new_styles is Some,
        style_change_valid(d, c),
    ensures
        after_style_change(d, c).layers == d.layers.push(d.top.layer),
        after_style_change(d, c).top.layer == fresh_builder(
            c.new_styles->0.fill@,
            c.new_styles->0.line@,
        ).layer,
        shape_paths(after_style_change(d, c).layers) == shape_paths(d.layers) + layer_paths(
            d.top.layer,
        ),
{
    assert(after_style_change(d, c).layers.drop_last() == d.layers);
}

} // verus!
