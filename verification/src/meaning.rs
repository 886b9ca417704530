//! What the relations of a layout ask for.
//!
//! The solver violates a relation only in favour of a stronger one. The
//! lemmas here say what follows for a placement of the variables at which
//! every relation of some strength or above holds.

use vstd::prelude::*;
use crate::compile::{
    area_relations, bound_relations, constraint_relations, end_relations, fill_relations, flex_relations,
    growing, growing_is_bounded, grows, matched, middle_count, order_relations, paired,
    proportions,
    size_relations_upto, sized_run, spaced, variable_relations, weight,
};
use crate::constraint::{Constraint, Flex};
use crate::pairing::{combinations_from, combinations_of, pairs_led_by};
use crate::relation::{meets, Element, Operand, Placement, Relation};
use crate::strengths::Strength;

verus! {

/// A placement that meets two lists joined meets each of them.
pub proof fn meets_both(
    first: Seq<Relation>,
    second: Seq<Relation>,
    placement: Placement,
    strength: Strength,
)
    requires
        meets(first + second, placement, strength),
    ensures
        meets(first, placement, strength),
        meets(second, placement, strength),
{
    assert forall|i: int|
        0 <= i < first.len() && (#[trigger] first[i]).strength.spec_hundredths()
            >= strength.spec_hundredths() implies first[i].holds(placement) by {
        assert((first + second)[i] == first[i]);
    }
    assert forall|i: int|
        0 <= i < second.len() && (#[trigger] second[i]).strength.spec_hundredths()
            >= strength.spec_hundredths() implies second[i].holds(placement) by {
        assert((first + second)[i + first.len()] == second[i]);
    }
}

/// Where the required relations on the area and on the variables hold, the
/// two ends of the area are where the area is, and no variable lies before
/// an earlier one.
pub proof fn required_relations_order_the_variables(
    count: usize,
    area: Element,
    area_start: u16,
    area_end: u16,
    placement: Placement,
)
    requires
        placement.positions.len() == count,
        area.within(count as nat),
        meets(area_relations(area, area_start, area_end), placement, Strength::Required),
        meets(variable_relations(count, area), placement, Strength::Required),
    ensures
        placement.positions[area.start as int] == area_start * placement.unit,
        placement.positions[area.end as int] == area_end * placement.unit,
        forall|i: int, j: int|
            0 <= i <= j < count ==> placement.positions[i] <= placement.positions[j],
        forall|i: int|
            0 <= i < count ==> placement.positions[area.start as int]
                <= #[trigger] placement.positions[i] <= placement.positions[area.end as int],
{
    let pins = area_relations(area, area_start, area_end);
    assert(pins[0].holds(placement));
    assert(pins[1].holds(placement));
    let bounds = bound_relations(count, area);
    let order = order_relations(count);
    meets_both(bounds, order, placement, Strength::Required);
    assert forall|i: int| 0 <= i < count implies placement.positions[area.start as int]
        <= #[trigger] placement.positions[i] <= placement.positions[area.end as int] by {
        assert(bounds[2 * i].holds(placement));
        assert(bounds[2 * i + 1].holds(placement));
    }
    assert forall|i: int| 0 <= i && i + 1 < count implies placement.positions[i]
        <= #[trigger] placement.positions[i + 1] by {
        assert(order[i].holds(placement));
    }
    assert forall|i: int, j: int| 0 <= i <= j < count implies placement.positions[i]
        <= placement.positions[j] by {
        ascends(placement.positions, i, j);
    }
}

/// Positions of which none lies before its predecessor are in ascending
/// order.
proof fn ascends(positions: Seq<int>, i: int, j: int)
    requires
        forall|k: int| 0 <= k && k + 1 < positions.len() ==> positions[k] <= #[trigger] positions[k + 1],
        0 <= i <= j < positions.len(),
    ensures
        positions[i] <= positions[j],
    decreases j - i,
{
    if i < j {
        ascends(positions, i, j - 1);
        assert(positions[j - 1] <= positions[j - 1 + 1]);
    }
}

/// The pairs that lead with the first position come first among all pairs.
pub proof fn combinations_begin_with_the_first(count: usize, other: int)
    requires
        1 <= other < count,
    ensures
        other - 1 < combinations_of(count).len(),
        combinations_of(count)[other - 1] == (0usize, other as usize),
{
    let head = pairs_led_by(0, count);
    assert(head[other - 1] == (0usize, other as usize));
    assert(combinations_from(0, count) == head + combinations_from(1, count));
}

/// Every pair of positions in order is among the combinations.
pub proof fn combinations_hold_every_pair(from: usize, count: usize, left: int, right: int)
    requires
        from <= left < right < count,
    ensures
        exists|k: int|
            0 <= k < combinations_from(from, count).len() && #[trigger] combinations_from(
                from,
                count,
            )[k] == (left as usize, right as usize),
    decreases count - from,
{
    let head = pairs_led_by(from, count);
    let tail = combinations_from((from + 1) as usize, count);
    assert(combinations_from(from, count) == head + tail);
    if left == from {
        assert(head[right - from - 1] == (left as usize, right as usize));
        assert((head + tail)[right - from - 1] == head[right - from - 1]);
    } else {
        combinations_hold_every_pair((from + 1) as usize, count, left, right);
        let k = choose|k: int|
            0 <= k < tail.len() && #[trigger] tail[k] == (left as usize, right as usize);
        assert((head + tail)[head.len() + k] == tail[k]);
    }
}

/// What the relations on the spacers ask for: where every relation as
/// strong as the equality of spacers holds,
/// - under `Legacy`, `Start`, `Center` and `End` each spacer between the
///   first and the last is `spacing` cells wide;
/// - under `Legacy`, `Start` and `SpaceBetween` the first spacer is empty,
///   and under `Legacy`, `End` and `SpaceBetween` the last one is;
/// - under `Center` the first spacer is as wide as the last;
/// - under `SpaceAround` all spacers are equally wide, and under
///   `SpaceBetween` all spacers between the first and the last are.
pub proof fn flex_relations_shape_the_spacers(
    area: Element,
    spacers: Seq<Element>,
    flex: Flex,
    spacing: u16,
    placement: Placement,
)
    requires
        0 < spacers.len() <= usize::MAX,
        meets(flex_relations(area, spacers, flex, spacing), placement, Strength::SpacerSizeEq),
    ensures
        flex is Legacy || flex is Start || flex is Center || flex is End ==> forall|i: int|
            1 <= i < spacers.len() - 1 ==> placement.size(#[trigger] spacers[i]) == spacing
                * placement.unit,
        flex is Legacy || flex is Start || flex is SpaceBetween ==> placement.size(spacers[0]) == 0,
        flex is Legacy || flex is End || flex is SpaceBetween ==> placement.size(
            spacers[spacers.len() - 1],
        ) == 0,
        flex is Center ==> placement.size(spacers[0]) == placement.size(
            spacers[spacers.len() - 1],
        ),
        flex is SpaceAround ==> forall|i: int, j: int|
            0 <= i < spacers.len() && 0 <= j < spacers.len() ==> placement.size(
                #[trigger] spacers[i],
            ) == placement.size(#[trigger] spacers[j]),
        flex is SpaceBetween ==> forall|i: int, j: int|
            1 <= i < spacers.len() - 1 && 1 <= j < spacers.len() - 1 ==> placement.size(
                #[trigger] spacers[i],
            ) == placement.size(#[trigger] spacers[j]),
{
    let strength = Strength::SpacerSizeEq;
    let count = spacers.len() as usize;
    let ends = end_relations(area, spacers, flex);
    assert(Operand::Value(0).dividend(placement) == 0) by {
        vstd::arithmetic::mul::lemma_mul_basics(placement.unit);
    }
    let grown = sized_run(
        spacers,
        0,
        spacers.len() as int,
        Operand::Size(area),
        Strength::SpaceGrow,
    );
    match flex {
        Flex::SpaceAround => {
            let pairs = combinations_of(count);
            let equal = paired(spacers, 0, pairs, strength);
            meets_both(equal + grown, ends, placement, strength);
            meets_both(equal, grown, placement, strength);
            assert forall|i: int| 1 <= i < spacers.len() implies placement.size(spacers[0])
                == placement.size(#[trigger] spacers[i]) by {
                combinations_begin_with_the_first(count, i);
                assert(equal[i - 1].holds(placement));
            }
        },
        Flex::SpaceBetween => {
            let middle = middle_count(spacers.len());
            let pairs = combinations_of(middle);
            let equal = paired(spacers, 1, pairs, strength);
            meets_both(equal + grown, ends, placement, strength);
            meets_both(equal, grown, placement, strength);
            assert forall|i: int| 2 <= i < spacers.len() - 1 implies placement.size(spacers[1])
                == placement.size(#[trigger] spacers[i]) by {
                combinations_begin_with_the_first(middle, i - 1);
                assert(equal[i - 2].holds(placement));
            }
            assert(ends[0].holds(placement));
            assert(ends[1].holds(placement));
        },
        _ => {
            let run = spaced(spacers, spacing);
            meets_both(run, ends, placement, strength);
            assert forall|i: int| 1 <= i < spacers.len() - 1 implies placement.size(
                #[trigger] spacers[i],
            ) == spacing * placement.unit by {
                assert(run[i - 1].holds(placement));
            }
            match flex {
                Flex::Legacy => {
                    assert(ends[0].holds(placement));
                    assert(ends[1].holds(placement));
                },
                Flex::Start => {
                    assert(ends[0].holds(placement));
                },
                Flex::End => {
                    assert(ends[0].holds(placement));
                },
                _ => {
                    assert(ends[2].holds(placement));
                },
            }
        },
    }
}

/// A placement that meets the relations of the constraints meets the
/// relations of each constraint that has a segment.
pub proof fn constraints_are_asked_for(
    area: Element,
    segments: Seq<Element>,
    constraints: Seq<Constraint>,
    flex: Flex,
    upto: nat,
    at: int,
    placement: Placement,
    strength: Strength,
)
    requires
        0 <= at < upto,
        meets(size_relations_upto(area, segments, constraints, flex, upto), placement, strength),
    ensures
        meets(constraint_relations(constraints[at], segments[at], area, flex), placement, strength),
    decreases upto,
{
    meets_both(
        size_relations_upto(area, segments, constraints, flex, (upto - 1) as nat),
        constraint_relations(constraints[upto - 1], segments[upto - 1], area, flex),
        placement,
        strength,
    );
    if at < upto - 1 {
        constraints_are_asked_for(
            area,
            segments,
            constraints,
            flex,
            (upto - 1) as nat,
            at,
            placement,
            strength,
        );
    }
}

/// What a constraint asks of its segment: where every relation as strong as
/// the one named holds,
/// - a `Length` has its length, at the strength of lengths;
/// - a `Min` has at least its minimum and a `Max` at most its maximum, at
///   the strength of bounds;
/// - a `Percentage` has its hundredths of the area, at the strength of
///   percentages;
/// - a `Ratio` has its fraction of the area, at the strength of ratios;
/// - a `Max` has its maximum, and under `Legacy` a `Min` its minimum, at
///   the strength of preferred sizes;
/// - a `Fill`, and a `Min` unless under `Legacy`, has the size of the area,
///   at the strength of a fill's growth.
pub proof fn constraint_relations_size_the_segment(
    constraint: Constraint,
    element: Element,
    area: Element,
    flex: Flex,
    placement: Placement,
    strength: Strength,
)
    requires
        meets(constraint_relations(constraint, element, area, flex), placement, strength),
    ensures
        match constraint {
            Constraint::Length(length) => Strength::LengthSizeEq.spec_hundredths()
                >= strength.spec_hundredths() ==> placement.size(element) == length
                * placement.unit,
            Constraint::Min(min) => {
                &&& Strength::MinSizeGe.spec_hundredths() >= strength.spec_hundredths()
                    ==> placement.size(element) >= min * placement.unit
                &&& Strength::MinSizeEq.spec_hundredths() >= strength.spec_hundredths()
                    && flex is Legacy ==> placement.size(element) == min * placement.unit
                &&& Strength::FillGrow.spec_hundredths() >= strength.spec_hundredths() && !(flex
                    is Legacy) ==> placement.size(element) == placement.size(area)
            },
            Constraint::Max(max) => {
                &&& Strength::MaxSizeLe.spec_hundredths() >= strength.spec_hundredths()
                    ==> placement.size(element) <= max * placement.unit
                &&& Strength::MaxSizeEq.spec_hundredths() >= strength.spec_hundredths()
                    ==> placement.size(element) == max * placement.unit
            },
            Constraint::Percentage(percent) => Strength::PercentageSizeEq.spec_hundredths()
                >= strength.spec_hundredths() ==> placement.size(element) * 100 == placement.size(
                area,
            ) * percent,
            Constraint::Ratio(numerator, denominator) => Strength::RatioSizeEq.spec_hundredths()
                >= strength.spec_hundredths() ==> placement.size(element) * (if denominator == 0 {
                1int
            } else {
                denominator as int
            }) == placement.size(area) * numerator,
            Constraint::Fill(_) => Strength::FillGrow.spec_hundredths()
                >= strength.spec_hundredths() ==> placement.size(element) == placement.size(area),
        },
{
    let relations = constraint_relations(constraint, element, area, flex);
    match constraint {
        Constraint::Length(_) => {
            if Strength::LengthSizeEq.spec_hundredths() >= strength.spec_hundredths() {
                assert(relations[0].holds(placement));
            }
        },
        Constraint::Min(_) => {
            if Strength::MinSizeGe.spec_hundredths() >= strength.spec_hundredths() {
                assert(relations[0].holds(placement));
            }
            if relations[1].strength.spec_hundredths() >= strength.spec_hundredths() {
                assert(relations[1].holds(placement));
            }
        },
        Constraint::Max(_) => {
            if Strength::MaxSizeLe.spec_hundredths() >= strength.spec_hundredths() {
                assert(relations[0].holds(placement));
            }
            if Strength::MaxSizeEq.spec_hundredths() >= strength.spec_hundredths() {
                assert(relations[1].holds(placement));
            }
        },
        Constraint::Percentage(_) => {
            if Strength::PercentageSizeEq.spec_hundredths() >= strength.spec_hundredths() {
                assert(relations[0].holds(placement));
            }
        },
        Constraint::Ratio(_, _) => {
            if Strength::RatioSizeEq.spec_hundredths() >= strength.spec_hundredths() {
                assert(relations[0].holds(placement));
            }
        },
        Constraint::Fill(_) => {
            if Strength::FillGrow.spec_hundredths() >= strength.spec_hundredths() {
                assert(relations[0].holds(placement));
            }
        },
    }
}

/// Positions that grow are found among the growing positions, in order.
pub proof fn growing_holds_every_growing_position(
    constraints: Seq<Constraint>,
    flex: Flex,
    count: nat,
    left: int,
    right: int,
)
    requires
        0 <= left < right < count <= usize::MAX,
        count <= constraints.len(),
        grows(constraints[left], flex),
        grows(constraints[right], flex),
    ensures
        exists|a: int, b: int|
            0 <= a < b < growing(constraints, flex, count).len() && #[trigger] growing(
                constraints,
                flex,
                count,
            )[a] == left && #[trigger] growing(constraints, flex, count)[b] == right,
    decreases count,
{
    let all = growing(constraints, flex, count);
    let rest = growing(constraints, flex, (count - 1) as nat);
    if right == count - 1 {
        growing_holds_a_growing_position(constraints, flex, (count - 1) as nat, left);
        let a = choose|a: int| 0 <= a < rest.len() && rest[a] == left;
        assert(all == rest.push(right as usize));
        assert(all[a] == left);
        assert(all[rest.len() as int] == right);
    } else {
        growing_holds_every_growing_position(constraints, flex, (count - 1) as nat, left, right);
        let (a, b) = choose|a: int, b: int|
            0 <= a < b < rest.len() && #[trigger] rest[a] == left && #[trigger] rest[b] == right;
        if grows(constraints[count - 1], flex) {
            assert(all == rest.push((count - 1) as usize));
        }
        assert(all[a] == left);
        assert(all[b] == right);
    }
}

/// A position that grows is found among the growing positions.
proof fn growing_holds_a_growing_position(
    constraints: Seq<Constraint>,
    flex: Flex,
    count: nat,
    at: int,
)
    requires
        0 <= at < count <= usize::MAX,
        count <= constraints.len(),
        grows(constraints[at], flex),
    ensures
        exists|a: int|
            0 <= a < growing(constraints, flex, count).len() && #[trigger] growing(
                constraints,
                flex,
                count,
            )[a] == at,
    decreases count,
{
    let all = growing(constraints, flex, count);
    let rest = growing(constraints, flex, (count - 1) as nat);
    if at == count - 1 {
        assert(all == rest.push(at as usize));
        assert(all[rest.len() as int] == at);
    } else {
        growing_holds_a_growing_position(constraints, flex, (count - 1) as nat, at);
        let a = choose|a: int| 0 <= a < rest.len() && rest[a] == at;
        if grows(constraints[count - 1], flex) {
            assert(all == rest.push((count - 1) as usize));
        }
        assert(all[a] == at);
    }
}

/// What the proportions ask for: where every relation as strong as the
/// growth of a shared remainder holds, the sizes of every two growing
/// segments are to each other as their weights.
pub proof fn fill_relations_share_in_proportion(
    segments: Seq<Element>,
    constraints: Seq<Constraint>,
    flex: Flex,
    left: int,
    right: int,
    placement: Placement,
)
    requires
        segments.len() <= usize::MAX,
        0 <= left < right < matched(segments, constraints),
        grows(constraints[left], flex),
        grows(constraints[right], flex),
        meets(fill_relations(segments, constraints, flex), placement, Strength::Grow),
    ensures
        placement.size(segments[left]) * weight(constraints[right]).0 * weight(
            constraints[left],
        ).1 == placement.size(segments[right]) * weight(constraints[left]).0 * weight(
            constraints[right],
        ).1,
{
    let limit = matched(segments, constraints);
    let chosen = growing(constraints, flex, limit);
    growing_holds_every_growing_position(constraints, flex, limit, left, right);
    let (a, b) = choose|a: int, b: int|
        0 <= a < b < chosen.len() && #[trigger] chosen[a] == left && #[trigger] chosen[b] == right;
    if chosen.len() > 0 {
        growing_is_bounded(constraints, flex, limit, 0);
    }
    let pairs = combinations_of(chosen.len() as usize);
    combinations_hold_every_pair(0, chosen.len() as usize, a, b);
    let k = choose|k: int| 0 <= k < pairs.len() && #[trigger] pairs[k] == (a as usize, b as usize);
    let all = proportions(segments, constraints, chosen, pairs);
    assert(all[k].holds(placement));
}

} // verus!
