//! Per-style accumulation of segments between two style-table changes.
use vstd::prelude::*;

use std::collections::VecDeque;

use swf_tree::{FillStyle, LineStyle};

use crate::geometry::Segment;
use crate::records::ShapeStyles;

verus! {

/// The segments contributed to one style, in the order they were drawn.
#[derive(Debug)]
pub struct SegmentSet<S> {
    pub style: S,
    pub segments: VecDeque<Segment>,
}

/// A bag of segments per style, as plain values: `(style, segments)` for
/// each position of a style table.
pub open spec fn sets_view<S>(sets: Seq<SegmentSet<S>>) -> Seq<(S, Seq<Segment>)> {
    sets.map_values(|s: SegmentSet<S>| (s.style, s.segments@))
}

/// One empty bag for each style of a table.
pub open spec fn empty_sets<S>(styles: Seq<S>) -> Seq<(S, Seq<Segment>)> {
    styles.map_values(|s: S| (s, Seq::<Segment>::empty()))
}

/// Appends `seg` to the bag of 1-based index `id`; index 0 selects no bag.
pub open spec fn push_to<S>(sets: Seq<(S, Seq<Segment>)>, id: nat, seg: Segment) -> Seq<
    (S, Seq<Segment>),
> {
    if id == 0 {
        sets
    } else {
        sets.update(id - 1, (sets[id - 1].0, sets[id - 1].1.push(seg)))
    }
}

/// The fill and line bags of one style epoch.
pub struct LayerModel {
    pub fills: Seq<(FillStyle, Seq<Segment>)>,
    pub lines: Seq<(LineStyle, Seq<Segment>)>,
}

/// A layer under construction, with its three current style selectors
/// (1-based, 0 meaning none).
pub struct BuilderModel {
    pub layer: LayerModel,
    pub left_fill: nat,
    pub right_fill: nat,
    pub line_fill: nat,
}

/// The builder that a style table starts: empty bags, no style selected.
pub open spec fn fresh_builder(fill: Seq<FillStyle>, line: Seq<LineStyle>) -> BuilderModel {
    BuilderModel {
        layer: LayerModel { fills: empty_sets(fill), lines: empty_sets(line) },
        left_fill: 0,
        right_fill: 0,
        line_fill: 0,
    }
}

/// Routes one segment: as drawn to the left fill, reversed to the right fill,
/// as drawn to the line style.
pub open spec fn with_segment(b: BuilderModel, seg: Segment) -> BuilderModel {
    BuilderModel {
        layer: LayerModel {
            fills: push_to(push_to(b.layer.fills, b.left_fill, seg), b.right_fill, seg.reversed()),
            lines: push_to(b.layer.lines, b.line_fill, seg),
        },
        ..b
    }
}

/// The frozen segments of one style epoch.
#[derive(Debug)]
pub struct StyleLayer {
    pub fills: Vec<SegmentSet<FillStyle>>,
    pub lines: Vec<SegmentSet<LineStyle>>,
}

impl View for StyleLayer {
    type V = LayerModel;

    open spec fn view(&self) -> LayerModel {
        LayerModel { fills: sets_view(self.fills@), lines: sets_view(self.lines@) }
    }
}

/// Collects the segments of the current style epoch.
#[derive(Debug)]
pub struct StyleLayerBuilder {
    fills: Vec<SegmentSet<FillStyle>>,
    lines: Vec<SegmentSet<LineStyle>>,
    left_fill: usize,
    right_fill: usize,
    line_fill: usize,
}

impl View for StyleLayerBuilder {
    type V = BuilderModel;

    closed spec fn view(&self) -> BuilderModel {
        BuilderModel {
            layer: LayerModel { fills: sets_view(self.fills@), lines: sets_view(self.lines@) },
            left_fill: self.left_fill as nat,
            right_fill: self.right_fill as nat,
            line_fill: self.line_fill as nat,
        }
    }
}

/// The selectors stay within the style tables.
pub open spec fn builder_wf(b: BuilderModel) -> bool {
    &&& b.left_fill <= b.layer.fills.len()
    &&& b.right_fill <= b.layer.fills.len()
    &&& b.line_fill <= b.layer.lines.len()
}

/// The items of `v`, last first.
pub fn reversed<T>(v: Vec<T>) -> (r: Vec<T>)
    ensures
        r@ == v@.reverse(),
{
    let ghost orig = v@;
    let mut v = v;
    let mut r: Vec<T> = Vec::new();
    while v.len() > 0
        invariant
            v@ == orig.take(v@.len() as int),
            r@ == orig.skip(v@.len() as int).reverse(),
            v@.len() <= orig.len(),
        decreases v@.len(),
    {
        let ghost k = v@.len() as int;
        let x = v.pop().unwrap();
        r.push(x);
        assert(v@ =~= orig.take(k - 1));
        assert(r@ =~= orig.skip(k - 1).reverse());
    }
    assert(orig.skip(0) =~= orig);
    r
}

/// One empty bag per style, in table order.
fn empty_bags<S>(styles: Vec<S>) -> (r: Vec<SegmentSet<S>>)
    ensures
        sets_view(r@) == empty_sets(styles@),
{
    let ghost orig = styles@;
    let mut rev = reversed(styles);
    let mut sets: Vec<SegmentSet<S>> = Vec::new();
    while rev.len() > 0
        invariant
            rev@.len() <= orig.len(),
            rev@ == orig.skip(orig.len() - rev@.len()).reverse(),
            sets_view(sets@) == empty_sets(orig.take(orig.len() - rev@.len())),
        decreases rev@.len(),
    {
        let ghost k = orig.len() - rev@.len();
        let style = rev.pop().unwrap();
        assert(style == orig[k]);
        let ghost before = sets@;
        let bag: VecDeque<Segment> = VecDeque::new();
        assert(bag@ == Seq::<Segment>::empty());
        sets.push(SegmentSet { style, segments: bag });
        assert(sets@ == before.push(SegmentSet { style, segments: bag }));
        assert(sets_view(sets@) =~= sets_view(before).push((style, Seq::<Segment>::empty())));
        assert(rev@ =~= orig.skip(k + 1).reverse());
        assert(sets_view(sets@) =~= empty_sets(orig.take(k + 1)));
    }
    assert(orig.take(orig.len() as int) =~= orig);
    sets
}

impl StyleLayerBuilder {
    pub closed spec fn wf(&self) -> bool {
        builder_wf(self@)
    }

    pub fn new(styles: ShapeStyles) -> (r: StyleLayerBuilder)
        ensures
            r@ == fresh_builder(styles.fill@, styles.line@),
            r.wf(),
    {
        let ShapeStyles { fill, line } = styles;
        let fills = empty_bags(fill);
        let lines = empty_bags(line);
        StyleLayerBuilder { fills, lines, left_fill: 0, right_fill: 0, line_fill: 0 }
    }

    pub fn fill_count(&self) -> (r: usize)
        ensures
            r == self@.layer.fills.len(),
    {
        self.fills.len()
    }

    pub fn line_count(&self) -> (r: usize)
        ensures
            r == self@.layer.lines.len(),
    {
        self.lines.len()
    }

    pub fn add_segment(&mut self, segment: Segment)
        requires
            old(self).wf(),
        ensures
            final(self)@ == with_segment(old(self)@, segment),
            final(self).wf(),
    {
        if self.left_fill != 0 {
            self.fills[self.left_fill - 1].segments.push_back(segment);
        }
        if self.right_fill != 0 {
            self.fills[self.right_fill - 1].segments.push_back(segment.reverse());
        }
        if self.line_fill != 0 {
            self.lines[self.line_fill - 1].segments.push_back(segment);
        }
        assert(self@.layer.fills =~= with_segment(old(self)@, segment).layer.fills);
        assert(self@.layer.lines =~= with_segment(old(self)@, segment).layer.lines);
    }

    pub fn build(self) -> (r: StyleLayer)
        ensures
            r@ == self@.layer,
    {
        StyleLayer { fills: self.fills, lines: self.lines }
    }

    pub fn set_left_fill(&mut self, id: usize)
        requires
            old(self).wf(),
            id <= old(self)@.layer.fills.len(),
        ensures
            final(self)@ == (BuilderModel { left_fill: id as nat, ..old(self)@ }),
            final(self).wf(),
    {
        self.left_fill = id;
    }

    pub fn set_right_fill(&mut self, id: usize)
        requires
            old(self).wf(),
            id <= old(self)@.layer.fills.len(),
        ensures
            final(self)@ == (BuilderModel { right_fill: id as nat, ..old(self)@ }),
            final(self).wf(),
    {
        self.right_fill = id;
    }

    pub fn set_line_fill(&mut self, id: usize)
        requires
            old(self).wf(),
            id <= old(self)@.layer.lines.len(),
        ensures
            final(self)@ == (BuilderModel { line_fill: id as nat, ..old(self)@ }),
            final(self).wf(),
    {
        self.line_fill = id;
    }
}

/// A style selector of 0 sends a segment to no bag: each bag grows only by
/// the selectors that name it, so with both fill selectors at 0 no fill bag
/// changes, and with the line selector at 0 no line bag changes.
pub proof fn lemma_unselected_bags_unchanged(b: BuilderModel, seg: Segment)
    requires
        builder_wf(b),
    ensures
        forall|k: int|
            0 <= k < b.layer.fills.len() && b.left_fill != k + 1 && b.right_fill != k + 1
                ==> #[trigger] with_segment(b, seg).layer.fills[k] == b.layer.fills[k],
        forall|k: int|
            0 <= k < b.layer.lines.len() && b.line_fill != k + 1
                ==> #[trigger] with_segment(b, seg).layer.lines[k] == b.layer.lines[k],
        b.left_fill == 0 && b.right_fill == 0 ==> with_segment(b, seg).layer.fills
            == b.layer.fills,
        b.line_fill == 0 ==> with_segment(b, seg).layer.lines == b.layer.lines,
{
}

} // verus!
