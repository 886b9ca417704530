//! The layout: its configuration, its linear program and its split.

use vstd::prelude::*;
use crate::cache::{lookup, started, stored, touched, CacheView, LayoutCache};
use crate::compile::{
    area_relations, area_relations_within, configure_area, configure_constraints,
    configure_fill_constraints, configure_flex_constraints, configure_uniform_constraints,
    configure_variable_constraints, elements_within, fill_relations, fill_relations_within,
    flex_relations, flex_relations_within, joined_within, size_relations, size_relations_within,
    uniform_relations, uniform_relations_within, variable_relations, variable_relations_within,
};
use crate::constraint::{Constraint, Flex};
use crate::geometry::{Direction, Margin, Rect};
use crate::pairing::{index_tuples, tuples_of};
use crate::relation::{all_within, Element, Relation};
use crate::solver::{solve, SolveError};

verus! {

/// A set of constraints that splits an area along one axis.
///
/// A layout holds the direction of the split, one constraint per segment,
/// the margin kept free around the segments, the policy for the length that
/// is left over, and the spacing between neighbouring segments.
#[derive(Debug, Clone, PartialEq, Eq, Hash)]
pub struct Layout {
    pub direction: Direction,
    pub constraints: Vec<Constraint>,
    pub margin: Margin,
    pub flex: Flex,
    pub spacing: u16,
}

/// A layout as a mathematical value.
pub struct LayoutView {
    pub direction: Direction,
    pub constraints: Seq<Constraint>,
    pub margin: Margin,
    pub flex: Flex,
    pub spacing: u16,
}

impl View for Layout {
    type V = LayoutView;

    open spec fn view(&self) -> LayoutView {
        LayoutView {
            direction: self.direction,
            constraints: self.constraints@,
            margin: self.margin,
            flex: self.flex,
            spacing: self.spacing,
        }
    }
}

/// The elements whose ends are the given pairs of variables.
pub open spec fn elements_of(pairs: Seq<(usize, usize)>) -> Seq<Element> {
    Seq::new(pairs.len(), |i: int| Element { start: pairs[i].0, end: pairs[i].1 })
}

/// The rectangle of one element: along `direction` it runs from the position
/// of the element's start to the position of its end, and is empty where the
/// end lies before the start; across, it is as `area` is.
pub open spec fn element_rect(
    positions: Seq<u16>,
    element: Element,
    area: Rect,
    direction: Direction,
) -> Rect {
    let start = positions[element.start as int];
    let end = positions[element.end as int];
    let size = if end >= start {
        (end - start) as u16
    } else {
        0u16
    };
    match direction {
        Direction::Horizontal => Rect { x: start, y: area.y, width: size, height: area.height },
        Direction::Vertical => Rect { x: area.x, y: start, width: area.width, height: size },
    }
}

/// The rectangles of the elements, in order.
pub open spec fn rects_of(
    positions: Seq<u16>,
    elements: Seq<Element>,
    area: Rect,
    direction: Direction,
) -> Seq<Rect> {
    Seq::new(elements.len(), |i: int| element_rect(positions, elements[i], area, direction))
}

impl LayoutView {
    /// The number of variables of the split: two for each segment, and the
    /// two ends of the area.
    pub open spec fn variable_count(self) -> nat {
        2 * self.constraints.len() + 2
    }

    /// The spacers, one more than there are constraints: the first between
    /// variables `0` and `1`, the next between `2` and `3`, and so on.
    pub open spec fn spacers(self) -> Seq<Element> {
        Seq::new(
            self.constraints.len() + 1,
            |i: int| Element { start: (2 * i) as usize, end: (2 * i + 1) as usize },
        )
    }

    /// The segments, one for each constraint: the first between variables
    /// `1` and `2`, the next between `3` and `4`, and so on. Each segment
    /// begins where the spacer before it ends, and ends where the spacer
    /// after it begins.
    pub open spec fn segments(self) -> Seq<Element> {
        Seq::new(
            self.constraints.len(),
            |i: int| Element { start: (2 * i + 1) as usize, end: (2 * i + 2) as usize },
        )
    }

    /// The whole axis, from the first variable to the last.
    pub open spec fn area_element(self) -> Element {
        Element { start: 0, end: (self.variable_count() - 1) as usize }
    }

    /// The area within the margin.
    pub open spec fn inner(self, area: Rect) -> Rect {
        area.spec_inner(self.margin)
    }

    /// The linear program of the split of `area`, in the order in which the
    /// solver receives it: the area, the variables, the spacers, the
    /// constraints, the proportions, the tie-break.
    pub open spec fn relations(self, area: Rect) -> Seq<Relation> {
        area_relations(
            self.area_element(),
            self.inner(area).axis_start(self.direction),
            self.inner(area).axis_end(self.direction),
        ) + variable_relations(self.variable_count() as usize, self.area_element())
            + flex_relations(self.area_element(), self.spacers(), self.flex, self.spacing)
            + size_relations(self.area_element(), self.segments(), self.constraints, self.flex)
            + fill_relations(self.segments(), self.constraints, self.flex)
            + uniform_relations(self.segments(), self.flex)
    }

    /// The rectangles of the segments once the variables are at `positions`.
    pub open spec fn segment_rects(self, area: Rect, positions: Seq<u16>) -> Seq<Rect> {
        rects_of(positions, self.segments(), self.inner(area), self.direction)
    }

    /// The rectangles of the spacers once the variables are at `positions`.
    pub open spec fn spacer_rects(self, area: Rect, positions: Seq<u16>) -> Seq<Rect> {
        rects_of(positions, self.spacers(), self.inner(area), self.direction)
    }

    /// Whether `segments` and `spacers` are the rectangles of one
    /// assignment of positions to the variables.
    pub open spec fn splits(self, area: Rect, segments: Seq<Rect>, spacers: Seq<Rect>) -> bool {
        exists|positions: Seq<u16>|
            #![trigger self.segment_rects(area, positions)]
            positions.len() == self.variable_count() && segments == self.segment_rects(
                area,
                positions,
            ) && spacers == self.spacer_rects(area, positions)
    }
}

/// Whether, across `direction`, each of the rectangles begins where `area`
/// begins and is as long as `area` is.
pub open spec fn spans(rects: Seq<Rect>, area: Rect, direction: Direction) -> bool {
    forall|i: int|
        0 <= i < rects.len() ==> (#[trigger] rects[i]).cross_start(direction) == area.cross_start(
            direction,
        ) && rects[i].cross_length(direction) == area.cross_length(direction)
}

/// A result of segments and spacers as a mathematical value.
pub open spec fn split_view(result: Result<(Vec<Rect>, Vec<Rect>), SolveError>) -> Result<
    (Seq<Rect>, Seq<Rect>),
    SolveError,
> {
    match result {
        Ok(split) => Ok((split.0@, split.1@)),
        Err(error) => Err(error),
    }
}

/// A result of segments, together with `spacers`, as a mathematical value.
pub open spec fn with_spacers(result: Result<Vec<Rect>, SolveError>, spacers: Seq<Rect>) -> Result<
    (Seq<Rect>, Seq<Rect>),
    SolveError,
> {
    match result {
        Ok(segments) => Ok((segments@, spacers)),
        Err(error) => Err(error),
    }
}

/// What a split through a cache returns, and what it leaves in the cache.
///
/// Where the cache holds a split for the area and the layout, that split is
/// returned, and its entry becomes the one used most recently. Where it
/// holds none, the area is split afresh: on success the new split is
/// returned and stored, and on failure the cache holds what it held. In
/// every case the cache is set up afterwards.
pub open spec fn split_outcome(
    layout: LayoutView,
    area: Rect,
    before: Option<CacheView>,
    after: Option<CacheView>,
    result: Result<(Seq<Rect>, Seq<Rect>), SolveError>,
) -> bool {
    let start = started(before);
    let key = (area, layout);
    match lookup(start.entries, key) {
        Some(hit) => result == Ok::<(Seq<Rect>, Seq<Rect>), SolveError>(hit) && after == Some(
            CacheView { entries: touched(start.entries, key), capacity: start.capacity },
        ),
        None => match result {
            Ok(split) => layout.splits(area, split.0, split.1) && after == Some(
                CacheView {
                    entries: stored(start.entries, key, split, start.capacity),
                    capacity: start.capacity,
                },
            ),
            Err(_) => after == Some(start),
        },
    }
}

/// What a split through a cache returns when only the segments are asked
/// for: the segments of what `split_outcome` describes.
pub open spec fn segments_outcome(
    layout: LayoutView,
    area: Rect,
    before: Option<CacheView>,
    after: Option<CacheView>,
    result: Result<Vec<Rect>, SolveError>,
) -> bool {
    exists|spacers: Seq<Rect>|
        split_outcome(layout, area, before, after, #[trigger] with_spacers(result, spacers))
}

/// The elements whose ends are the given pairs of variables.
fn elements_from(pairs: &Vec<(usize, usize)>) -> (elements: Vec<Element>)
    ensures
        elements@ == elements_of(pairs@),
{
    let mut elements: Vec<Element> = Vec::new();
    let mut i: usize = 0;
    while i < pairs.len()
        invariant
            i <= pairs.len(),
            elements@ == elements_of(pairs@).subrange(0, i as int),
        decreases pairs.len() - i,
    {
        elements.push(Element::from(pairs[i]));
        assert(elements@ =~= elements_of(pairs@).subrange(0, i + 1));
        i += 1;
    }
    assert(elements_of(pairs@).subrange(0, pairs.len() as int) =~= elements_of(pairs@));
    elements
}

/// Turns the positions of the variables into one rectangle per element.
pub fn changes_to_rects(
    positions: &Vec<u16>,
    elements: &Vec<Element>,
    area: Rect,
    direction: Direction,
) -> (rects: Vec<Rect>)
    requires
        elements_within(elements@, positions.len() as nat),
    ensures
        rects@ == rects_of(positions@, elements@, area, direction),
{
    let ghost all = rects_of(positions@, elements@, area, direction);
    let mut rects: Vec<Rect> = Vec::new();
    let mut i: usize = 0;
    while i < elements.len()
        invariant
            i <= elements.len(),
            elements_within(elements@, positions.len() as nat),
            all == rects_of(positions@, elements@, area, direction),
            rects@ == all.subrange(0, i as int),
        decreases elements.len() - i,
    {
        let element = elements[i];
        assert(elements@[i as int].within(positions.len() as nat));
        let start: u16 = positions[element.start];
        let end: u16 = positions[element.end];
        let size: u16 = end.saturating_sub(start);
        let rect = match direction {
            Direction::Horizontal => Rect { x: start, y: area.y, width: size, height: area.height },
            Direction::Vertical => Rect { x: area.x, y: start, width: area.width, height: size },
        };
        rects.push(rect);
        assert(rects@ =~= all.subrange(0, i + 1));
        i += 1;
    }
    assert(all.subrange(0, elements.len() as int) =~= all);
    rects
}

impl Layout {
    /// The number of splits that a cache keeps unless it is told otherwise.
    pub const DEFAULT_CACHE_SIZE: usize = 500;

    /// The largest number of splits that a cache can be set up for: the
    /// table for them is reserved at once and has to fit into memory.
    pub const MAX_CACHE_SIZE: usize = usize::MAX / 128;

    /// A layout along `direction` with the given constraints, no margin, no
    /// spacing, and the segments at the start.
    pub fn new(direction: Direction, constraints: Vec<Constraint>) -> (layout: Layout)
        ensures
            layout@ == (LayoutView {
                direction,
                constraints: constraints@,
                margin: Margin { horizontal: 0, vertical: 0 },
                flex: Flex::Start,
                spacing: 0,
            }),
    {
        Layout {
            direction,
            constraints,
            margin: Margin { horizontal: 0, vertical: 0 },
            flex: Flex::Start,
            spacing: 0,
        }
    }

    /// A layout from top to bottom with the given constraints.
    pub fn vertical(constraints: Vec<Constraint>) -> (layout: Layout)
        ensures
            layout@ == (LayoutView {
                direction: Direction::Vertical,
                constraints: constraints@,
                margin: Margin { horizontal: 0, vertical: 0 },
                flex: Flex::Start,
                spacing: 0,
            }),
    {
        Layout::new(Direction::Vertical, constraints)
    }

    /// A layout from left to right with the given constraints.
    pub fn horizontal(constraints: Vec<Constraint>) -> (layout: Layout)
        ensures
            layout@ == (LayoutView {
                direction: Direction::Horizontal,
                constraints: constraints@,
                margin: Margin { horizontal: 0, vertical: 0 },
                flex: Flex::Start,
                spacing: 0,
            }),
    {
        Layout::new(Direction::Horizontal, constraints)
    }

    /// The same layout along `direction`.
    #[must_use]
    pub fn direction(self, direction: Direction) -> (layout: Layout)
        ensures
            layout@ == (LayoutView { direction, ..self@ }),
    {
        let mut layout = self;
        layout.direction = direction;
        layout
    }

    /// The same layout with other constraints.
    #[must_use]
    pub fn constraints(self, constraints: Vec<Constraint>) -> (layout: Layout)
        ensures
            layout@ == (LayoutView { constraints: constraints@, ..self@ }),
    {
        let mut layout = self;
        layout.constraints = constraints;
        layout
    }

    /// The same layout with `margin` cells kept free on all four sides.
    #[must_use]
    pub fn margin(self, margin: u16) -> (layout: Layout)
        ensures
            layout@ == (LayoutView {
                margin: Margin { horizontal: margin, vertical: margin },
                ..self@
            }),
    {
        let mut layout = self;
        layout.margin = Margin { horizontal: margin, vertical: margin };
        layout
    }

    /// The same layout with `horizontal` cells kept free on the left and on
    /// the right.
    #[must_use]
    pub fn horizontal_margin(self, horizontal: u16) -> (layout: Layout)
        ensures
            layout@ == (LayoutView {
                margin: Margin { horizontal, vertical: self.margin.vertical },
                ..self@
            }),
    {
        let mut layout = self;
        layout.margin = Margin { horizontal, vertical: layout.margin.vertical };
        layout
    }

    /// The same layout with `vertical` cells kept free at the top and at
    /// the bottom.
    #[must_use]
    pub fn vertical_margin(self, vertical: u16) -> (layout: Layout)
        ensures
            layout@ == (LayoutView {
                margin: Margin { horizontal: self.margin.horizontal, vertical },
                ..self@
            }),
    {
        let mut layout = self;
        layout.margin = Margin { horizontal: layout.margin.horizontal, vertical };
        layout
    }

    /// The same layout with another policy for the length left over.
    pub fn flex(self, flex: Flex) -> (layout: Layout)
        ensures
            layout@ == (LayoutView { flex, ..self@ }),
    {
        let mut layout = self;
        layout.flex = flex;
        layout
    }

    /// The same layout with `spacing` cells between neighbouring segments.
    /// `SpaceAround` and `SpaceBetween` take no notice of it.
    pub fn spacing(self, spacing: u16) -> (layout: Layout)
        ensures
            layout@ == (LayoutView { spacing, ..self@ }),
    {
        let mut layout = self;
        layout.spacing = spacing;
        layout
    }

    /// The linear program of the split of `area`.
    pub fn relations(&self, area: Rect) -> (relations: Vec<Relation>)
        requires
            2 * self.constraints.len() + 2 <= usize::MAX,
        ensures
            relations@ == self@.relations(area),
            all_within(relations@, self@.variable_count()),
    {
        let inner_area = area.inner(self.margin);
        let (area_start, area_end) = match self.direction {
            Direction::Horizontal => (inner_area.x, inner_area.right()),
            Direction::Vertical => (inner_area.y, inner_area.bottom()),
        };
        let variable_count: usize = self.constraints.len() * 2 + 2;
        let spacers = elements_from(&index_tuples(0, variable_count));
        let segments = elements_from(&index_tuples(1, variable_count));
        assert(spacers@ =~= self@.spacers());
        assert(segments@ =~= self@.segments());
        let area_size = Element::new(0, variable_count - 1);
        let mut relations: Vec<Relation> = Vec::new();
        configure_area(&mut relations, area_size, area_start, area_end);
        configure_variable_constraints(&mut relations, variable_count, area_size);
        configure_flex_constraints(&mut relations, area_size, &spacers, self.flex, self.spacing);
        configure_constraints(&mut relations, area_size, &segments, &self.constraints, self.flex);
        configure_fill_constraints(&mut relations, &segments, &self.constraints, self.flex);
        configure_uniform_constraints(&mut relations, &segments, self.flex);
        proof {
            assert(relations@ =~= self@.relations(area));
            relations_within(self@, area);
        }
        relations
    }

    /// The segments and the spacers of `area` once the variables are at
    /// `positions`.
    pub fn rects(&self, area: Rect, positions: &Vec<u16>) -> (split: (Vec<Rect>, Vec<Rect>))
        requires
            positions.len() == self@.variable_count(),
        ensures
            split.0@ == self@.segment_rects(area, positions@),
            split.1@ == self@.spacer_rects(area, positions@),
    {
        let inner_area = area.inner(self.margin);
        let variable_count: usize = positions.len();
        let spacers = elements_from(&index_tuples(0, variable_count));
        let segments = elements_from(&index_tuples(1, variable_count));
        assert(spacers@ =~= self@.spacers());
        assert(segments@ =~= self@.segments());
        proof {
            elements_are_within(self@);
        }
        let segment_rects = changes_to_rects(positions, &segments, inner_area, self.direction);
        let spacer_rects = changes_to_rects(positions, &spacers, inner_area, self.direction);
        (segment_rects, spacer_rects)
    }

    /// Splits `area` without looking into any cache: compiles the layout
    /// into its linear program, has it solved, and turns the positions into
    /// rectangles.
    ///
    /// Fails only where the solver refuses one of the relations.
    pub fn try_split(&self, area: Rect) -> (result: Result<(Vec<Rect>, Vec<Rect>), SolveError>)
        requires
            2 * self.constraints.len() + 2 <= usize::MAX,
        ensures
            result matches Ok(split) ==> {
                &&& self@.splits(area, split.0@, split.1@)
                &&& split.0.len() == self.constraints.len()
                &&& split.1.len() == self.constraints.len() + 1
                &&& spans(split.0@, self@.inner(area), self.direction)
                &&& spans(split.1@, self@.inner(area), self.direction)
            },
    {
        let relations = self.relations(area);
        let variable_count: usize = self.constraints.len() * 2 + 2;
        match solve(variable_count, &relations) {
            Ok(positions) => {
                let split = self.rects(area, &positions);
                proof {
                    assert(split.0@ == self@.segment_rects(area, positions@));
                    splits_are_shaped(self@, area, split.0@, split.1@);
                }
                Ok(split)
            },
            Err(error) => Err(error),
        }
    }

    /// Sets `cache` up for `cache_size` splits unless it is set up already,
    /// and says whether it did. A cache that is set up keeps its size.
    pub fn init_cache(cache: &mut LayoutCache, cache_size: usize) -> (set: bool)
        requires
            0 < cache_size <= Layout::MAX_CACHE_SIZE,
            old(cache).wf(),
        ensures
            final(cache).wf(),
            set == (old(cache)@ is None),
            set ==> final(cache)@ == Some(
                CacheView { entries: Seq::empty(), capacity: cache_size as nat },
            ),
            !set ==> final(cache)@ == old(cache)@,
    {
        cache.init(cache_size)
    }

    /// Splits `area` into the segments of the layout, one per constraint.
    ///
    /// The split is looked up in `cache` and made afresh only where the
    /// cache does not hold it: see `split_with_spacers`.
    pub fn split(&self, area: Rect, cache: &mut LayoutCache) -> (result: Result<
        Vec<Rect>,
        SolveError,
    >)
        requires
            old(cache).wf(),
            2 * self.constraints.len() + 2 <= usize::MAX,
        ensures
            final(cache).wf(),
            segments_outcome(self@, area, old(cache)@, final(cache)@, result),
            result matches Ok(segments) ==> {
                &&& segments.len() == self.constraints.len()
                &&& spans(segments@, self@.inner(area), self.direction)
            },
    {
        match self.split_with_spacers(area, cache) {
            Ok(split) => {
                let ghost spacers = split.1@;
                let segments = split.0;
                assert(with_spacers(Ok(segments), spacers) == split_view(Ok(split)));
                Ok(segments)
            },
            Err(error) => {
                assert(with_spacers(Err(error), Seq::empty()) == split_view(Err(error)));
                Err(error)
            },
        }
    }

    /// Splits `area` into the segments of the layout, one per constraint,
    /// and the spacers before, between and after them.
    ///
    /// Where `cache` holds a split for `area` and this layout, that split is
    /// returned. Otherwise the area is split afresh and the split is stored
    /// before it is returned; this fails only where the solver refuses one
    /// of the layout's relations, and the cache then holds what it held.
    pub fn split_with_spacers(&self, area: Rect, cache: &mut LayoutCache) -> (result: Result<
        (Vec<Rect>, Vec<Rect>),
        SolveError,
    >)
        requires
            old(cache).wf(),
            2 * self.constraints.len() + 2 <= usize::MAX,
        ensures
            final(cache).wf(),
            split_outcome(self@, area, old(cache)@, final(cache)@, split_view(result)),
            result matches Ok(split) ==> {
                &&& self@.splits(area, split.0@, split.1@)
                &&& split.0.len() == self.constraints.len()
                &&& split.1.len() == self.constraints.len() + 1
                &&& spans(split.0@, self@.inner(area), self.direction)
                &&& spans(split.1@, self@.inner(area), self.direction)
            },
    {
        let ghost start = started(old(cache)@);
        match cache.get(area, self) {
            Some(hit) => {
                proof {
                    splits_are_shaped(self@, area, hit.0@, hit.1@);
                }
                Ok(hit)
            },
            None => {
                assert(touched(start.entries, (area, self@)) == start.entries);
                match self.try_split(area) {
                    Ok(split) => {
                        cache.put(area, self, &split.0, &split.1);
                        Ok(split)
                    },
                    Err(error) => Err(error),
                }
            },
        }
    }
}

impl Default for Layout {
    /// The layout without constraints, from top to bottom.
    fn default() -> (layout: Layout)
        ensures
            layout@ == (LayoutView {
                direction: Direction::Vertical,
                constraints: Seq::empty(),
                margin: Margin { horizontal: 0, vertical: 0 },
                flex: Flex::Start,
                spacing: 0,
            }),
    {
        Layout::new(Direction::Vertical, Vec::new())
    }
}

/// There are as many segments as constraints and one spacer more, and the
/// ends of each are variables of the split.
pub proof fn elements_are_within(layout: LayoutView)
    requires
        layout.variable_count() <= usize::MAX,
    ensures
        layout.segments().len() == layout.constraints.len(),
        layout.spacers().len() == layout.constraints.len() + 1,
        elements_within(layout.segments(), layout.variable_count()),
        elements_within(layout.spacers(), layout.variable_count()),
        forall|i: int|
            0 <= i < layout.segments().len() ==> #[trigger] layout.segments()[i] == (Element {
                start: (2 * i + 1) as usize,
                end: (2 * i + 2) as usize,
            }),
        forall|i: int|
            0 <= i < layout.spacers().len() ==> #[trigger] layout.spacers()[i] == (Element {
                start: (2 * i) as usize,
                end: (2 * i + 1) as usize,
            }),
{
}

/// A split has one segment for each constraint and one spacer more, and
/// across the direction of the split each of them is as the area within the
/// margin is.
pub proof fn splits_are_shaped(
    layout: LayoutView,
    area: Rect,
    segments: Seq<Rect>,
    spacers: Seq<Rect>,
)
    requires
        layout.variable_count() <= usize::MAX,
        layout.splits(area, segments, spacers),
    ensures
        segments.len() == layout.constraints.len(),
        spacers.len() == segments.len() + 1,
        spans(segments, layout.inner(area), layout.direction),
        spans(spacers, layout.inner(area), layout.direction),
{
    elements_are_within(layout);
}

/// The linear program of a split speaks only of the variables of the split.
pub proof fn relations_within(layout: LayoutView, area: Rect)
    requires
        layout.variable_count() <= usize::MAX,
    ensures
        all_within(layout.relations(area), layout.variable_count()),
{
    let count = layout.variable_count();
    let whole = layout.area_element();
    let inner = layout.inner(area);
    elements_are_within(layout);
    let first = area_relations(
        whole,
        inner.axis_start(layout.direction),
        inner.axis_end(layout.direction),
    );
    let second = variable_relations(count as usize, whole);
    let third = flex_relations(whole, layout.spacers(), layout.flex, layout.spacing);
    let fourth = size_relations(whole, layout.segments(), layout.constraints, layout.flex);
    let fifth = fill_relations(layout.segments(), layout.constraints, layout.flex);
    let sixth = uniform_relations(layout.segments(), layout.flex);
    area_relations_within(
        whole,
        inner.axis_start(layout.direction),
        inner.axis_end(layout.direction),
        count,
    );
    variable_relations_within(count as usize, whole, count);
    flex_relations_within(whole, layout.spacers(), layout.flex, layout.spacing, count);
    size_relations_within(
        whole,
        layout.segments(),
        layout.constraints,
        layout.flex,
        layout.constraints.len(),
        count,
    );
    fill_relations_within(layout.segments(), layout.constraints, layout.flex, count);
    uniform_relations_within(layout.segments(), layout.flex, count);
    joined_within(first, second, count);
    joined_within(first + second, third, count);
    joined_within(first + second + third, fourth, count);
    joined_within(first + second + third + fourth, fifth, count);
    joined_within(first + second + third + fourth + fifth, sixth, count);
}

} // verus!
