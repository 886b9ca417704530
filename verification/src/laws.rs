//! What holds of every split.

use vstd::prelude::*;
use crate::cache::{lookup, started, stored_keeps, touched_keeps, CacheView};
use crate::compile::{
    area_relations, fill_relations, flex_relations, grows, size_relations, uniform_relations,
    variable_relations, weight,
};
use crate::constraint::Constraint;
use crate::geometry::{total_length, Rect};
use crate::layout::{
    elements_are_within, segments_outcome, split_outcome, with_spacers, LayoutView,
};
use crate::meaning::{
    constraint_relations_size_the_segment, constraints_are_asked_for,
    fill_relations_share_in_proportion, flex_relations_shape_the_spacers, meets_both,
    required_relations_order_the_variables,
};
use crate::relation::{meets, Placement};
use crate::rounding::{
    equal_sizes_round_within_a_cell, nearest_cell, nearest_cell_is_monotonic,
    nearest_cell_of_a_cell, nearest_cell_shifts, proportional_sizes_round_within_a_cell, rounds,
};
use crate::solver::SolveError;
use crate::strengths::Strength;

verus! {

/// Whether no position lies before an earlier one.
pub open spec fn ascending(positions: Seq<u16>) -> bool {
    forall|i: int, j: int| 0 <= i <= j < positions.len() ==> positions[i] <= positions[j]
}

/// At positions in ascending order, each spacer ends where the segment
/// after it begins, each segment ends where the spacer after it begins, and
/// so each segment ends before the next one begins.
pub proof fn segments_follow_each_other(layout: LayoutView, area: Rect, positions: Seq<u16>)
    requires
        layout.variable_count() <= usize::MAX,
        positions.len() == layout.variable_count(),
        ascending(positions),
    ensures
        ({
            let segments = layout.segment_rects(area, positions);
            let spacers = layout.spacer_rects(area, positions);
            let direction = layout.direction;
            &&& forall|i: int|
                0 <= i && i + 1 < segments.len() ==> (#[trigger] segments[i]).axis_reach(direction)
                    <= segments[i + 1].axis_start(direction)
            &&& forall|i: int|
                0 <= i < segments.len() ==> (#[trigger] spacers[i]).axis_reach(direction)
                    == segments[i].axis_start(direction)
            &&& forall|i: int|
                0 <= i < segments.len() ==> (#[trigger] segments[i]).axis_reach(direction)
                    == spacers[i + 1].axis_start(direction)
        }),
{
    elements_are_within(layout);
    let segments = layout.segment_rects(area, positions);
    let spacers = layout.spacer_rects(area, positions);
    let direction = layout.direction;
    assert forall|i: int| 0 <= i < segments.len() implies (#[trigger] spacers[i]).axis_reach(
        direction,
    ) == segments[i].axis_start(direction) by {
        assert(layout.spacers()[i].start == 2 * i);
        assert(positions[2 * i] <= positions[2 * i + 1]);
    }
    assert forall|i: int| 0 <= i < segments.len() implies (#[trigger] segments[i]).axis_reach(
        direction,
    ) == spacers[i + 1].axis_start(direction) by {
        assert(layout.segments()[i].start == 2 * i + 1);
        assert(layout.spacers()[i + 1].start == 2 * i + 2);
        assert(positions[2 * i + 1] <= positions[2 * i + 2]);
    }
    assert forall|i: int| 0 <= i && i + 1 < segments.len() implies (
    #[trigger] segments[i]).axis_reach(direction) <= segments[i + 1].axis_start(direction) by {
        assert(layout.segments()[i].start == 2 * i + 1);
        assert(layout.segments()[i + 1].start == 2 * i + 3);
        assert(positions[2 * i + 1] <= positions[2 * i + 2]);
        assert(positions[2 * i + 2] <= positions[2 * i + 3]);
    }
}

/// At positions in ascending order from the start of the area within the
/// margin to its end, the first segment begins at or after the start of
/// that area and the last segment ends at or before its end.
pub proof fn segments_stay_within_the_area(layout: LayoutView, area: Rect, positions: Seq<u16>)
    requires
        layout.variable_count() <= usize::MAX,
        layout.constraints.len() > 0,
        positions.len() == layout.variable_count(),
        ascending(positions),
        positions[0] == layout.inner(area).axis_start(layout.direction),
        positions[positions.len() - 1] == layout.inner(area).axis_end(layout.direction),
    ensures
        ({
            let segments = layout.segment_rects(area, positions);
            let inner = layout.inner(area);
            let direction = layout.direction;
            &&& segments[0].axis_start(direction) >= inner.axis_start(direction)
            &&& segments[segments.len() - 1].axis_reach(direction) <= inner.axis_end(direction)
        }),
{
    elements_are_within(layout);
    let last = layout.constraints.len() - 1;
    assert(layout.segments()[0].start == 1);
    assert(layout.segments()[last].end == 2 * last + 2);
    assert(positions[0] <= positions[1]);
    assert(positions[2 * last + 1] <= positions[2 * last + 2]);
    assert(positions[2 * last + 2] <= positions[positions.len() - 1]);
}

/// A placement that meets the linear program of a split meets each of its
/// six parts.
pub proof fn program_parts(
    layout: LayoutView,
    area: Rect,
    placement: Placement,
    strength: Strength,
)
    requires
        meets(layout.relations(area), placement, strength),
    ensures
        meets(
            area_relations(
                layout.area_element(),
                layout.inner(area).axis_start(layout.direction),
                layout.inner(area).axis_end(layout.direction),
            ),
            placement,
            strength,
        ),
        meets(
            variable_relations(layout.variable_count() as usize, layout.area_element()),
            placement,
            strength,
        ),
        meets(
            flex_relations(layout.area_element(), layout.spacers(), layout.flex, layout.spacing),
            placement,
            strength,
        ),
        meets(
            size_relations(
                layout.area_element(),
                layout.segments(),
                layout.constraints,
                layout.flex,
            ),
            placement,
            strength,
        ),
        meets(
            fill_relations(layout.segments(), layout.constraints, layout.flex),
            placement,
            strength,
        ),
        meets(uniform_relations(layout.segments(), layout.flex), placement, strength),
{
    let whole = layout.area_element();
    let inner = layout.inner(area);
    let first = area_relations(
        whole,
        inner.axis_start(layout.direction),
        inner.axis_end(layout.direction),
    );
    let second = variable_relations(layout.variable_count() as usize, whole);
    let third = flex_relations(whole, layout.spacers(), layout.flex, layout.spacing);
    let fourth = size_relations(whole, layout.segments(), layout.constraints, layout.flex);
    let fifth = fill_relations(layout.segments(), layout.constraints, layout.flex);
    let sixth = uniform_relations(layout.segments(), layout.flex);
    meets_both(first + second + third + fourth + fifth, sixth, placement, strength);
    meets_both(first + second + third + fourth, fifth, placement, strength);
    meets_both(first + second + third, fourth, placement, strength);
    meets_both(first + second, third, placement, strength);
    meets_both(first, second, placement, strength);
}

/// The required relations of a split keep the variables in ascending
/// order, the first at the start of the area within the margin and the last
/// at its end.
pub proof fn required_relations_keep_the_order(layout: LayoutView, area: Rect, placement: Placement)
    requires
        layout.variable_count() <= usize::MAX,
        placement.positions.len() == layout.variable_count(),
        meets(layout.relations(area), placement, Strength::Required),
    ensures
        placement.positions[0] == layout.inner(area).axis_start(layout.direction)
            * placement.unit,
        placement.positions[placement.positions.len() - 1] == layout.inner(area).axis_end(
            layout.direction,
        ) * placement.unit,
        forall|i: int, j: int|
            0 <= i <= j < placement.positions.len() ==> placement.positions[i]
                <= placement.positions[j],
{
    program_parts(layout, area, placement, Strength::Required);
    required_relations_order_the_variables(
        layout.variable_count() as usize,
        layout.area_element(),
        layout.inner(area).axis_start(layout.direction),
        layout.inner(area).axis_end(layout.direction),
        placement,
    );
}

/// What each constraint of a layout asks of its segment: see
/// `constraint_relations_size_the_segment`. In particular, where every
/// relation as strong as that of a length holds, every `Length` has its
/// length exactly, every `Min` at least its minimum and every `Max` at most
/// its maximum.
pub proof fn constraints_size_their_segments(
    layout: LayoutView,
    area: Rect,
    at: int,
    placement: Placement,
    strength: Strength,
)
    requires
        layout.variable_count() <= usize::MAX,
        0 <= at < layout.constraints.len(),
        meets(layout.relations(area), placement, strength),
    ensures
        match layout.constraints[at] {
            Constraint::Length(length) => Strength::LengthSizeEq.spec_hundredths()
                >= strength.spec_hundredths() ==> placement.size(layout.segments()[at]) == length
                * placement.unit,
            Constraint::Min(min) => {
                &&& Strength::MinSizeGe.spec_hundredths() >= strength.spec_hundredths()
                    ==> placement.size(layout.segments()[at]) >= min * placement.unit
                &&& Strength::MinSizeEq.spec_hundredths() >= strength.spec_hundredths()
                    && layout.flex is Legacy ==> placement.size(layout.segments()[at]) == min
                    * placement.unit
                &&& Strength::FillGrow.spec_hundredths() >= strength.spec_hundredths() && !(
                layout.flex is Legacy) ==> placement.size(layout.segments()[at]) == placement.size(
                    layout.area_element(),
                )
            },
            Constraint::Max(max) => {
                &&& Strength::MaxSizeLe.spec_hundredths() >= strength.spec_hundredths()
                    ==> placement.size(layout.segments()[at]) <= max * placement.unit
                &&& Strength::MaxSizeEq.spec_hundredths() >= strength.spec_hundredths()
                    ==> placement.size(layout.segments()[at]) == max * placement.unit
            },
            Constraint::Percentage(percent) => Strength::PercentageSizeEq.spec_hundredths()
                >= strength.spec_hundredths() ==> placement.size(layout.segments()[at]) * 100
                == placement.size(layout.area_element()) * percent,
            Constraint::Ratio(numerator, denominator) => Strength::RatioSizeEq.spec_hundredths()
                >= strength.spec_hundredths() ==> placement.size(layout.segments()[at]) * (
            if denominator == 0 {
                1int
            } else {
                denominator as int
            }) == placement.size(layout.area_element()) * numerator,
            Constraint::Fill(_) => Strength::FillGrow.spec_hundredths()
                >= strength.spec_hundredths() ==> placement.size(layout.segments()[at])
                == placement.size(layout.area_element()),
        },
{
    program_parts(layout, area, placement, strength);
    elements_are_within(layout);
    constraints_are_asked_for(
        layout.area_element(),
        layout.segments(),
        layout.constraints,
        layout.flex,
        layout.constraints.len(),
        at,
        placement,
        strength,
    );
    constraint_relations_size_the_segment(
        layout.constraints[at],
        layout.segments()[at],
        layout.area_element(),
        layout.flex,
        placement,
        strength,
    );
}

/// What the flex of a layout asks of the spacers, where every relation as
/// strong as the equality of spacers holds: under `Start`, `Center` and
/// `End`, and under `Legacy`, the spacers between the segments are as wide
/// as the spacing; under `Start` there is no space before the first
/// segment, under `End` none after the last, under `Legacy` and
/// `SpaceBetween` neither; under `Center` there is as much space before the
/// first segment as after the last; under `SpaceAround` all spacers are
/// equally wide, and under `SpaceBetween` all spacers between segments are.
pub proof fn flex_shapes_the_spacers(layout: LayoutView, area: Rect, placement: Placement)
    requires
        layout.variable_count() <= usize::MAX,
        meets(layout.relations(area), placement, Strength::SpacerSizeEq),
    ensures
        layout.flex is Legacy || layout.flex is Start || layout.flex is Center || layout.flex
            is End ==> forall|i: int|
            1 <= i < layout.constraints.len() ==> placement.size(#[trigger] layout.spacers()[i])
                == layout.spacing * placement.unit,
        layout.flex is Legacy || layout.flex is Start || layout.flex is SpaceBetween
            ==> placement.size(layout.spacers()[0]) == 0,
        layout.flex is Legacy || layout.flex is End || layout.flex is SpaceBetween
            ==> placement.size(layout.spacers()[layout.constraints.len() as int]) == 0,
        layout.flex is Center ==> placement.size(layout.spacers()[0]) == placement.size(
            layout.spacers()[layout.constraints.len() as int],
        ),
        layout.flex is SpaceAround ==> forall|i: int, j: int|
            0 <= i <= layout.constraints.len() && 0 <= j <= layout.constraints.len()
                ==> placement.size(#[trigger] layout.spacers()[i]) == placement.size(
                #[trigger] layout.spacers()[j],
            ),
        layout.flex is SpaceBetween ==> forall|i: int, j: int|
            1 <= i < layout.constraints.len() && 1 <= j < layout.constraints.len()
                ==> placement.size(#[trigger] layout.spacers()[i]) == placement.size(
                #[trigger] layout.spacers()[j],
            ),
{
    program_parts(layout, area, placement, Strength::SpacerSizeEq);
    elements_are_within(layout);
    flex_relations_shape_the_spacers(
        layout.area_element(),
        layout.spacers(),
        layout.flex,
        layout.spacing,
        placement,
    );
}

/// Where every relation as strong as the growth of a shared remainder
/// holds, the sizes of every two growing segments of a layout are to each
/// other as their weights: two fills of weights `a` and `b`, neither zero,
/// have sizes in the ratio `a : b`.
pub proof fn growing_segments_share_in_proportion(
    layout: LayoutView,
    area: Rect,
    left: int,
    right: int,
    placement: Placement,
)
    requires
        layout.variable_count() <= usize::MAX,
        0 <= left < right < layout.constraints.len(),
        grows(layout.constraints[left], layout.flex),
        grows(layout.constraints[right], layout.flex),
        meets(layout.relations(area), placement, Strength::Grow),
    ensures
        placement.size(layout.segments()[left]) * weight(layout.constraints[right]).0 * weight(
            layout.constraints[left],
        ).1 == placement.size(layout.segments()[right]) * weight(layout.constraints[left]).0
            * weight(layout.constraints[right]).1,
        forall|a: u16, b: u16|
            layout.constraints[left] == Constraint::Fill(a) && layout.constraints[right]
                == Constraint::Fill(b) && a > 0 && b > 0 ==> placement.size(
                layout.segments()[left],
            ) * b == placement.size(layout.segments()[right]) * a,
{
    program_parts(layout, area, placement, Strength::Grow);
    elements_are_within(layout);
    fill_relations_share_in_proportion(
        layout.segments(),
        layout.constraints,
        layout.flex,
        left,
        right,
        placement,
    );
    let wide = placement.size(layout.segments()[left]);
    let other = placement.size(layout.segments()[right]);
    if let Constraint::Fill(a) = layout.constraints[left] {
        if let Constraint::Fill(b) = layout.constraints[right] {
            if a > 0 && b > 0 {
                assert(wide * b * 1 == wide * b) by (nonlinear_arith);
                assert(other * a * 1 == other * a) by (nonlinear_arith);
            }
        }
    }
}

/// The sizes of the first `count` segments and of the spacers before and
/// between them add up to the distance from the first variable to the start
/// of the segment that follows.
proof fn sizes_add_up_to(layout: LayoutView, placement: Placement, count: int)
    requires
        layout.variable_count() <= usize::MAX,
        placement.positions.len() == layout.variable_count(),
        0 <= count <= layout.constraints.len(),
    ensures
        placement.total(layout.spacers().subrange(0, count + 1)) + placement.total(
            layout.segments().subrange(0, count),
        ) == placement.positions[2 * count + 1] - placement.positions[0],
    decreases count,
{
    elements_are_within(layout);
    let spacers = layout.spacers().subrange(0, count + 1);
    let segments = layout.segments().subrange(0, count);
    assert(spacers.last() == layout.spacers()[count]);
    if count == 0 {
        assert(spacers.drop_last().len() == 0);
        assert(placement.total(spacers.drop_last()) == 0);
    } else {
        sizes_add_up_to(layout, placement, count - 1);
        assert(spacers.drop_last() == layout.spacers().subrange(0, count));
        assert(segments.drop_last() == layout.segments().subrange(0, count - 1));
        assert(segments.last() == layout.segments()[count - 1]);
    }
}

/// The sizes of all segments and all spacers add up to the distance from
/// the first variable to the last.
pub proof fn sizes_add_up(layout: LayoutView, placement: Placement)
    requires
        layout.variable_count() <= usize::MAX,
        placement.positions.len() == layout.variable_count(),
    ensures
        placement.total(layout.spacers()) + placement.total(layout.segments())
            == placement.positions[placement.positions.len() - 1] - placement.positions[0],
{
    elements_are_within(layout);
    sizes_add_up_to(layout, placement, layout.constraints.len() as int);
    assert(layout.spacers().subrange(0, layout.constraints.len() as int + 1) == layout.spacers());
    assert(layout.segments().subrange(0, layout.constraints.len() as int) == layout.segments());
}

/// Spacers of one width each, after a first one, add up to the first and
/// as many times that width as there are others.
proof fn spaced_spacers_add_up_to(
    layout: LayoutView,
    placement: Placement,
    width: int,
    count: int,
)
    requires
        layout.variable_count() <= usize::MAX,
        0 <= count < layout.constraints.len(),
        forall|i: int|
            1 <= i < layout.constraints.len() ==> placement.size(#[trigger] layout.spacers()[i])
                == width,
    ensures
        placement.total(layout.spacers().subrange(0, count + 1)) == placement.size(
            layout.spacers()[0],
        ) + count * width,
    decreases count,
{
    elements_are_within(layout);
    let spacers = layout.spacers().subrange(0, count + 1);
    assert(spacers.last() == layout.spacers()[count]);
    if count == 0 {
        assert(spacers.drop_last().len() == 0);
        assert(placement.total(spacers.drop_last()) == 0);
    } else {
        spaced_spacers_add_up_to(layout, placement, width, count - 1);
        assert(spacers.drop_last() == layout.spacers().subrange(0, count));
        assert((count - 1) * width + width == count * width) by (nonlinear_arith);
    }
}

/// Where the length that the segments and the spacing leave over goes, at
/// a placement at which every relation as strong as the equality of spacers
/// holds. What is left over is the length of the area within the margin
/// less the sizes of the segments and less the spacing between each segment
/// and the next. Under `Start` all of it follows the last segment, under
/// `End` all of it precedes the first, under `Center` one half precedes
/// the first segment and the other follows the last, and under `Legacy`
/// nothing is left over: the segments take it all.
pub proof fn left_over_goes_where_the_flex_says(
    layout: LayoutView,
    area: Rect,
    placement: Placement,
)
    requires
        layout.variable_count() <= usize::MAX,
        layout.constraints.len() > 0,
        placement.positions.len() == layout.variable_count(),
        meets(layout.relations(area), placement, Strength::SpacerSizeEq),
    ensures
        ({
            let length = (layout.inner(area).axis_end(layout.direction) - layout.inner(
                area,
            ).axis_start(layout.direction)) * placement.unit;
            let left_over = length - placement.total(layout.segments()) - (
            layout.constraints.len() - 1) * (layout.spacing * placement.unit);
            let before = placement.size(layout.spacers()[0]);
            let after = placement.size(layout.spacers()[layout.constraints.len() as int]);
            &&& layout.flex is Start ==> before == 0 && after == left_over
            &&& layout.flex is End ==> before == left_over && after == 0
            &&& layout.flex is Center ==> before == after && before + after == left_over
            &&& layout.flex is Legacy ==> before == 0 && after == 0 && left_over == 0
        }),
{
    elements_are_within(layout);
    let count = layout.constraints.len() as int;
    let width = layout.spacing * placement.unit;
    assert(meets(layout.relations(area), placement, Strength::Required));
    required_relations_keep_the_order(layout, area, placement);
    flex_shapes_the_spacers(layout, area, placement);
    sizes_add_up(layout, placement);
    let start = layout.inner(area).axis_start(layout.direction);
    let end = layout.inner(area).axis_end(layout.direction);
    assert((end - start) * placement.unit == end * placement.unit - start * placement.unit)
        by (nonlinear_arith);
    if layout.flex is Start || layout.flex is End || layout.flex is Center || layout.flex
        is Legacy {
        spaced_spacers_add_up_to(layout, placement, width, count - 1);
        let spacers = layout.spacers();
        assert(spacers.drop_last() == spacers.subrange(0, count));
        assert(spacers.last() == spacers[count]);
        assert(placement.total(spacers) == placement.total(spacers.drop_last()) + placement.size(
            spacers.last(),
        ));
    }
}

/// Where the solver is at a placement at which the required relations
/// hold, the positions in whole cells are in ascending order from the start
/// of the area within the margin to its end, and each segment and each
/// spacer reaches from the cell nearest to its start to the cell nearest to
/// its end.
pub proof fn required_relations_round_in_order(
    layout: LayoutView,
    area: Rect,
    placement: Placement,
    positions: Seq<u16>,
)
    requires
        layout.variable_count() <= usize::MAX,
        placement.positions.len() == layout.variable_count(),
        meets(layout.relations(area), placement, Strength::Required),
        rounds(placement, positions),
    ensures
        ascending(positions),
        positions[0] == layout.inner(area).axis_start(layout.direction),
        positions[positions.len() - 1] == layout.inner(area).axis_end(layout.direction),
        forall|i: int|
            0 <= i < layout.constraints.len() ==> (#[trigger] layout.segment_rects(
                area,
                positions,
            )[i]).axis_length(layout.direction) == nearest_cell(
                placement.positions[2 * i + 2],
                placement.unit,
            ) - nearest_cell(placement.positions[2 * i + 1], placement.unit),
        forall|i: int|
            0 <= i <= layout.constraints.len() ==> (#[trigger] layout.spacer_rects(
                area,
                positions,
            )[i]).axis_length(layout.direction) == nearest_cell(
                placement.positions[2 * i + 1],
                placement.unit,
            ) - nearest_cell(placement.positions[2 * i], placement.unit),
{
    elements_are_within(layout);
    required_relations_keep_the_order(layout, area, placement);
    let unit = placement.unit;
    nearest_cell_of_a_cell(layout.inner(area).axis_start(layout.direction) as int, unit);
    nearest_cell_of_a_cell(layout.inner(area).axis_end(layout.direction) as int, unit);
    assert forall|i: int, j: int| 0 <= i <= j < positions.len() implies positions[i]
        <= positions[j] by {
        nearest_cell_is_monotonic(placement.positions[i], placement.positions[j], unit);
    }
    assert forall|i: int| 0 <= i < layout.constraints.len() implies (
    #[trigger] layout.segment_rects(area, positions)[i]).axis_length(layout.direction)
        == nearest_cell(placement.positions[2 * i + 2], placement.unit) - nearest_cell(
        placement.positions[2 * i + 1],
        placement.unit,
    ) by {
        assert(layout.segments()[i].start == 2 * i + 1);
        assert(positions[2 * i + 1] <= positions[2 * i + 2]);
    }
    assert forall|i: int| 0 <= i <= layout.constraints.len() implies (
    #[trigger] layout.spacer_rects(area, positions)[i]).axis_length(layout.direction)
        == nearest_cell(placement.positions[2 * i + 1], placement.unit) - nearest_cell(
        placement.positions[2 * i],
        placement.unit,
    ) by {
        assert(layout.spacers()[i].start == 2 * i);
        assert(positions[2 * i] <= positions[2 * i + 1]);
    }
}

/// Where the solver is at a placement at which the required relations
/// hold, the first segment begins at or after the start of the area within
/// the margin, each segment ends where the next spacer begins and before
/// the next segment begins, and the last segment ends at or before the end
/// of that area.
pub proof fn a_solved_split_is_in_order(
    layout: LayoutView,
    area: Rect,
    placement: Placement,
    positions: Seq<u16>,
)
    requires
        layout.variable_count() <= usize::MAX,
        layout.constraints.len() > 0,
        placement.positions.len() == layout.variable_count(),
        meets(layout.relations(area), placement, Strength::Required),
        rounds(placement, positions),
    ensures
        ({
            let segments = layout.segment_rects(area, positions);
            let spacers = layout.spacer_rects(area, positions);
            let inner = layout.inner(area);
            let direction = layout.direction;
            &&& segments[0].axis_start(direction) >= inner.axis_start(direction)
            &&& segments[segments.len() - 1].axis_reach(direction) <= inner.axis_end(direction)
            &&& forall|i: int|
                0 <= i && i + 1 < segments.len() ==> (#[trigger] segments[i]).axis_reach(direction)
                    <= segments[i + 1].axis_start(direction)
            &&& forall|i: int|
                0 <= i < segments.len() ==> (#[trigger] segments[i]).axis_reach(direction)
                    == spacers[i + 1].axis_start(direction)
        }),
{
    required_relations_round_in_order(layout, area, placement, positions);
    segments_follow_each_other(layout, area, positions);
    segments_stay_within_the_area(layout, area, positions);
}

/// At positions in ascending order, the first `count` segments and the
/// spacers before and between them are together as long as the way from
/// the first variable to the start of the segment that follows.
proof fn lengths_add_up_to(layout: LayoutView, area: Rect, positions: Seq<u16>, count: int)
    requires
        layout.variable_count() <= usize::MAX,
        positions.len() == layout.variable_count(),
        ascending(positions),
        0 <= count <= layout.constraints.len(),
    ensures
        total_length(layout.spacer_rects(area, positions).subrange(0, count + 1), layout.direction)
            + total_length(
            layout.segment_rects(area, positions).subrange(0, count),
            layout.direction,
        ) == positions[2 * count + 1] - positions[0],
    decreases count,
{
    elements_are_within(layout);
    let spacers = layout.spacer_rects(area, positions).subrange(0, count + 1);
    let segments = layout.segment_rects(area, positions).subrange(0, count);
    assert(spacers.last() == layout.spacer_rects(area, positions)[count]);
    assert(layout.spacers()[count].start == 2 * count);
    assert(positions[2 * count] <= positions[2 * count + 1]);
    if count == 0 {
        assert(spacers.drop_last().len() == 0);
        assert(total_length(spacers.drop_last(), layout.direction) == 0);
    } else {
        lengths_add_up_to(layout, area, positions, count - 1);
        assert(spacers.drop_last() == layout.spacer_rects(area, positions).subrange(0, count));
        assert(segments.drop_last() == layout.segment_rects(area, positions).subrange(
            0,
            count - 1,
        ));
        assert(segments.last() == layout.segment_rects(area, positions)[count - 1]);
        assert(layout.segments()[count - 1].start == 2 * count - 1);
        assert(positions[2 * count - 1] <= positions[2 * count]);
    }
}

/// Where the solver is at a placement at which the required relations
/// hold, the segments and the spacers are together exactly as long as the
/// area within the margin.
pub proof fn a_solved_split_covers_the_area(
    layout: LayoutView,
    area: Rect,
    placement: Placement,
    positions: Seq<u16>,
)
    requires
        layout.variable_count() <= usize::MAX,
        placement.positions.len() == layout.variable_count(),
        meets(layout.relations(area), placement, Strength::Required),
        rounds(placement, positions),
    ensures
        total_length(layout.segment_rects(area, positions), layout.direction) + total_length(
            layout.spacer_rects(area, positions),
            layout.direction,
        ) == layout.inner(area).axis_end(layout.direction) - layout.inner(area).axis_start(
            layout.direction,
        ),
{
    elements_are_within(layout);
    required_relations_round_in_order(layout, area, placement, positions);
    let count = layout.constraints.len() as int;
    lengths_add_up_to(layout, area, positions, count);
    assert(layout.spacer_rects(area, positions).subrange(0, count + 1) == layout.spacer_rects(
        area,
        positions,
    ));
    assert(layout.segment_rects(area, positions).subrange(0, count) == layout.segment_rects(
        area,
        positions,
    ));
}

/// Where the solver is at a placement at which every relation as strong as
/// that of a length holds, every `Length` is exactly as many cells long as
/// it asks for.
pub proof fn lengths_are_met_exactly(
    layout: LayoutView,
    area: Rect,
    placement: Placement,
    positions: Seq<u16>,
    at: int,
    length: u16,
)
    requires
        layout.variable_count() <= usize::MAX,
        placement.positions.len() == layout.variable_count(),
        meets(layout.relations(area), placement, Strength::LengthSizeEq),
        rounds(placement, positions),
        0 <= at < layout.constraints.len(),
        layout.constraints[at] == Constraint::Length(length),
    ensures
        layout.segment_rects(area, positions)[at].axis_length(layout.direction) == length,
{
    elements_are_within(layout);
    assert(meets(layout.relations(area), placement, Strength::Required));
    required_relations_round_in_order(layout, area, placement, positions);
    constraints_size_their_segments(layout, area, at, placement, Strength::LengthSizeEq);
    assert(layout.segments()[at].start == 2 * at + 1);
    nearest_cell_shifts(placement.positions[2 * at + 1], length as int, placement.unit);
}

/// Where the solver is at a placement at which every relation as strong as
/// the equality of spacers holds: under `SpaceAround` every two spacers are
/// equally long or one cell apart; under `SpaceBetween` the first and the
/// last spacer are empty and every two spacers between them are equally
/// long or one cell apart; under `Start` and `Legacy` the first spacer is
/// empty, under `End` and `Legacy` the last; under `Center` the first and
/// the last spacer are equally long or one cell apart; and under `Start`,
/// `End`, `Center` and `Legacy` each spacer between two segments is as many
/// cells long as the spacing asks for.
pub proof fn a_solved_split_is_spaced_as_the_flex_says(
    layout: LayoutView,
    area: Rect,
    placement: Placement,
    positions: Seq<u16>,
)
    requires
        layout.variable_count() <= usize::MAX,
        placement.positions.len() == layout.variable_count(),
        meets(layout.relations(area), placement, Strength::SpacerSizeEq),
        rounds(placement, positions),
    ensures
        ({
            let spacers = layout.spacer_rects(area, positions);
            let count = layout.constraints.len() as int;
            let direction = layout.direction;
            &&& layout.flex is SpaceAround ==> forall|i: int, j: int|
                0 <= i <= count && 0 <= j <= count ==> -1 <= (#[trigger] spacers[i]).axis_length(
                    direction,
                ) - (#[trigger] spacers[j]).axis_length(direction) <= 1
            &&& layout.flex is SpaceBetween ==> forall|i: int, j: int|
                1 <= i < count && 1 <= j < count ==> -1 <= (#[trigger] spacers[i]).axis_length(
                    direction,
                ) - (#[trigger] spacers[j]).axis_length(direction) <= 1
            &&& layout.flex is SpaceBetween || layout.flex is Start || layout.flex is Legacy
                ==> spacers[0].axis_length(direction) == 0
            &&& layout.flex is SpaceBetween || layout.flex is End || layout.flex is Legacy
                ==> spacers[count].axis_length(direction) == 0
            &&& layout.flex is Center ==> -1 <= spacers[0].axis_length(direction)
                - spacers[count].axis_length(direction) <= 1
            &&& layout.flex is Start || layout.flex is End || layout.flex is Center || layout.flex
                is Legacy ==> forall|i: int|
                1 <= i < count ==> (#[trigger] spacers[i]).axis_length(direction)
                    == layout.spacing
        }),
{
    elements_are_within(layout);
    assert(meets(layout.relations(area), placement, Strength::Required));
    required_relations_round_in_order(layout, area, placement, positions);
    required_relations_keep_the_order(layout, area, placement);
    flex_shapes_the_spacers(layout, area, placement);
    let spacers = layout.spacer_rects(area, positions);
    let count = layout.constraints.len() as int;
    let unit = placement.unit;
    let exact = layout.spacers();
    assert forall|i: int| 0 <= i <= count implies placement.size(#[trigger] exact[i])
        == placement.positions[2 * i + 1] - placement.positions[2 * i] && placement.size(exact[i])
        >= 0 by {
        assert(exact[i].start == 2 * i);
    }
    assert forall|i: int, j: int|
        0 <= i <= count && 0 <= j <= count && placement.size(exact[i]) == placement.size(
            exact[j],
        ) implies -1 <= (#[trigger] spacers[i]).axis_length(layout.direction) - (
    #[trigger] spacers[j]).axis_length(layout.direction) <= 1 by {
        assert(exact[i].start == 2 * i);
        assert(exact[j].start == 2 * j);
        equal_sizes_round_within_a_cell(
            placement.positions[2 * i],
            placement.positions[2 * j],
            placement.size(exact[i]),
            unit,
        );
    }
    assert forall|i: int| 0 <= i <= count && placement.size(exact[i]) == 0 implies (
    #[trigger] spacers[i]).axis_length(layout.direction) == 0 by {
        assert(exact[i].start == 2 * i);
    }
    assert forall|i: int|
        0 <= i <= count && placement.size(exact[i]) == layout.spacing * unit implies (
    #[trigger] spacers[i]).axis_length(layout.direction) == layout.spacing by {
        assert(exact[i].start == 2 * i);
        nearest_cell_shifts(placement.positions[2 * i], layout.spacing as int, unit);
    }
    if layout.flex is Start || layout.flex is End || layout.flex is Center || layout.flex
        is Legacy {
        assert forall|i: int| 1 <= i < count implies (#[trigger] spacers[i]).axis_length(
            layout.direction,
        ) == layout.spacing by {
            assert(placement.size(layout.spacers()[i]) == layout.spacing * unit);
        }
    }
}

/// Where the solver is at a placement at which every relation as strong as
/// the growth of a shared remainder holds, two fills of weights `a` and
/// `b`, neither zero, are to each other as `a` to `b`, up to one cell each.
pub proof fn fills_share_in_proportion_to_their_weights(
    layout: LayoutView,
    area: Rect,
    placement: Placement,
    positions: Seq<u16>,
    left: int,
    right: int,
    a: u16,
    b: u16,
)
    requires
        layout.variable_count() <= usize::MAX,
        placement.positions.len() == layout.variable_count(),
        meets(layout.relations(area), placement, Strength::Grow),
        rounds(placement, positions),
        0 <= left < right < layout.constraints.len(),
        layout.constraints[left] == Constraint::Fill(a),
        layout.constraints[right] == Constraint::Fill(b),
        a > 0,
        b > 0,
    ensures
        -(a + b) < layout.segment_rects(area, positions)[left].axis_length(layout.direction) * b
            - layout.segment_rects(area, positions)[right].axis_length(layout.direction) * a < a
            + b,
{
    elements_are_within(layout);
    assert(meets(layout.relations(area), placement, Strength::Required));
    required_relations_round_in_order(layout, area, placement, positions);
    required_relations_keep_the_order(layout, area, placement);
    growing_segments_share_in_proportion(layout, area, left, right, placement);
    assert(layout.segments()[left].start == 2 * left + 1);
    assert(layout.segments()[right].start == 2 * right + 1);
    proportional_sizes_round_within_a_cell(
        placement.positions[2 * left + 1],
        placement.size(layout.segments()[left]),
        placement.positions[2 * right + 1],
        placement.size(layout.segments()[right]),
        a as int,
        b as int,
        placement.unit,
    );
}

/// After a split through a cache, the cache holds that split for the area
/// and the layout.
pub proof fn split_is_remembered(
    layout: LayoutView,
    area: Rect,
    before: Option<CacheView>,
    after: Option<CacheView>,
    split: (Seq<Rect>, Seq<Rect>),
)
    requires
        before matches Some(cache) ==> cache.well_formed(),
        split_outcome(layout, area, before, after, Ok(split)),
    ensures
        after matches Some(cache) && cache.well_formed() && lookup(cache.entries, (area, layout))
            == Some(split),
{
    let start = started(before);
    let key = (area, layout);
    match lookup(start.entries, key) {
        Some(hit) => {
            touched_keeps(start, key, key);
        },
        None => {
            stored_keeps(start, key, split, key);
        },
    }
}

/// Asking twice for the segments and spacers of the same area with the same
/// layout returns the same segments and spacers, whatever the cache held
/// before the first call.
pub proof fn repeated_split_returns_the_same(
    layout: LayoutView,
    area: Rect,
    first: Option<CacheView>,
    second: Option<CacheView>,
    third: Option<CacheView>,
    split: (Seq<Rect>, Seq<Rect>),
    again: Result<(Seq<Rect>, Seq<Rect>), SolveError>,
)
    requires
        first matches Some(cache) ==> cache.well_formed(),
        split_outcome(layout, area, first, second, Ok(split)),
        split_outcome(layout, area, second, third, again),
    ensures
        again == Ok::<(Seq<Rect>, Seq<Rect>), SolveError>(split),
{
    split_is_remembered(layout, area, first, second, split);
}

/// After the segments and spacers of an area were asked for, asking for its
/// segments alone returns those same segments.
pub proof fn split_returns_the_segments_of_split_with_spacers(
    layout: LayoutView,
    area: Rect,
    first: Option<CacheView>,
    second: Option<CacheView>,
    third: Option<CacheView>,
    split: (Seq<Rect>, Seq<Rect>),
    segments: Result<Vec<Rect>, SolveError>,
)
    requires
        first matches Some(cache) ==> cache.well_formed(),
        split_outcome(layout, area, first, second, Ok(split)),
        segments_outcome(layout, area, second, third, segments),
    ensures
        segments matches Ok(segments) && segments@ == split.0,
{
    split_is_remembered(layout, area, first, second, split);
}

/// After the segments of an area were asked for, asking for its segments
/// and spacers returns those same segments.
pub proof fn split_with_spacers_returns_the_segments_of_split(
    layout: LayoutView,
    area: Rect,
    first: Option<CacheView>,
    second: Option<CacheView>,
    third: Option<CacheView>,
    segments: Vec<Rect>,
    split: Result<(Seq<Rect>, Seq<Rect>), SolveError>,
)
    requires
        first matches Some(cache) ==> cache.well_formed(),
        segments_outcome(layout, area, first, second, Ok(segments)),
        split_outcome(layout, area, second, third, split),
    ensures
        split matches Ok(split) && split.0 == segments@,
{
    let spacers = choose|spacers: Seq<Rect>|
        split_outcome(layout, area, first, second, #[trigger] with_spacers(Ok(segments), spacers));
    split_is_remembered(layout, area, first, second, (segments@, spacers));
}

} // verus!
