//! From a layout to its linear program.
//!
//! Each function here appends the relations of one rule to a list, in the
//! order in which the solver is to receive them, and states exactly which
//! relations those are.

use vstd::prelude::*;
use crate::constraint::{Constraint, Flex};
use crate::pairing::{
    combinations_are_ordered, combinations_of, index_combinations, index_windows, windows_of,
};
use crate::relation::{all_within, Element, Operand, Operator, Relation};
use crate::strengths::Strength;

verus! {

/// `variable == cells`, required.
pub open spec fn pinned(variable: usize, cells: u16) -> Relation {
    Relation {
        left: Operand::Variable(variable),
        operator: Operator::Equal,
        right: Operand::Value(cells),
        strength: Strength::Required,
    }
}

/// `left operator right` between two variables, required.
pub open spec fn ordered(left: usize, operator: Operator, right: usize) -> Relation {
    Relation {
        left: Operand::Variable(left),
        operator,
        right: Operand::Variable(right),
        strength: Strength::Required,
    }
}

/// The two ends of the area are where the area is.
pub open spec fn area_relations(area: Element, area_start: u16, area_end: u16) -> Seq<Relation> {
    seq![pinned(area.start, area_start), pinned(area.end, area_end)]
}

/// Every variable lies within the area: for each variable in turn, that
/// it is not before the start of the area and not after its end.
pub open spec fn bound_relations(count: usize, area: Element) -> Seq<Relation> {
    Seq::new(
        (2 * count) as nat,
        |k: int|
            if k % 2 == 0 {
                ordered((k / 2) as usize, Operator::GreaterOrEqual, area.start)
            } else {
                ordered((k / 2) as usize, Operator::LessOrEqual, area.end)
            },
    )
}

/// The variables are in ascending order: for each variable but the last,
/// that it is not after its successor.
pub open spec fn order_relations(count: usize) -> Seq<Relation> {
    if count == 0 {
        Seq::empty()
    } else {
        Seq::new(
            (count - 1) as nat,
            |k: int| ordered(k as usize, Operator::LessOrEqual, (k + 1) as usize),
        )
    }
}

/// Every variable lies within the area, and the variables are in ascending
/// order.
pub open spec fn variable_relations(count: usize, area: Element) -> Seq<Relation> {
    bound_relations(count, area) + order_relations(count)
}

/// For each element at a position from `from` up to `to`, in order, that
/// its size is `size`, at `strength`.
pub open spec fn sized_run(
    elements: Seq<Element>,
    from: int,
    to: int,
    size: Operand,
    strength: Strength,
) -> Seq<Relation> {
    if to <= from {
        Seq::empty()
    } else {
        Seq::new((to - from) as nat, |i: int| elements[from + i].spec_has_size(size, strength))
    }
}

/// For each pair of positions, counted from `base`, that the element at the
/// first has the size of the element at the second, at `strength`.
pub open spec fn paired(
    elements: Seq<Element>,
    base: int,
    pairs: Seq<(usize, usize)>,
    strength: Strength,
) -> Seq<Relation> {
    Seq::new(
        pairs.len(),
        |k: int|
            elements[base + pairs[k].0].spec_has_size(
                Operand::Size(elements[base + pairs[k].1]),
                strength,
            ),
    )
}

/// The number of spacers between the first and the last.
pub open spec fn middle_count(spacers: nat) -> usize {
    if spacers >= 2 {
        (spacers - 2) as usize
    } else {
        0
    }
}

/// Each spacer between the first and the last is `spacing` cells wide.
pub open spec fn spaced(spacers: Seq<Element>, spacing: u16) -> Seq<Relation> {
    sized_run(spacers, 1, spacers.len() - 1, Operand::Value(spacing), Strength::SpacerSizeEq)
}

/// What holds of the first and the last spacer under `flex`; nothing
/// where there is no spacer.
pub open spec fn end_relations(area: Element, spacers: Seq<Element>, flex: Flex) -> Seq<Relation> {
    let first = spacers[0];
    let last = spacers[spacers.len() - 1];
    let whole = Operand::Size(area);
    if spacers.len() == 0 {
        Seq::empty()
    } else {
        match flex {
            Flex::Legacy => seq![first.spec_is_empty(), last.spec_is_empty()],
            Flex::SpaceAround => Seq::empty(),
            Flex::SpaceBetween => seq![first.spec_is_empty(), last.spec_is_empty()],
            Flex::Start => seq![first.spec_is_empty(), last.spec_has_size(whole, Strength::Grow)],
            Flex::Center => seq![
                first.spec_has_size(whole, Strength::Grow),
                last.spec_has_size(whole, Strength::Grow),
                first.spec_has_size(Operand::Size(last), Strength::SpacerSizeEq),
            ],
            Flex::End => seq![last.spec_is_empty(), first.spec_has_size(whole, Strength::Grow)],
        }
    }
}

/// The relations that `flex` and `spacing` put on the spacers.
///
/// Under `Legacy`, `Start`, `Center` and `End` the spacers in the middle are
/// `spacing` cells wide. Under `SpaceAround` every two spacers are of equal
/// size; under `SpaceBetween` every two spacers in the middle are; under
/// both, every spacer then grows towards the size of the area and `spacing`
/// plays no part. The relations on the first and the last spacer come last.
pub open spec fn flex_relations(
    area: Element,
    spacers: Seq<Element>,
    flex: Flex,
    spacing: u16,
) -> Seq<Relation> {
    let grown = sized_run(
        spacers,
        0,
        spacers.len() as int,
        Operand::Size(area),
        Strength::SpaceGrow,
    );
    let spread = match flex {
        Flex::SpaceAround => paired(
            spacers,
            0,
            combinations_of(spacers.len() as usize),
            Strength::SpacerSizeEq,
        ) + grown,
        Flex::SpaceBetween => paired(
            spacers,
            1,
            combinations_of(middle_count(spacers.len())),
            Strength::SpacerSizeEq,
        ) + grown,
        _ => spaced(spacers, spacing),
    };
    spread + end_relations(area, spacers, flex)
}

/// The relations that one constraint puts on its segment.
pub open spec fn constraint_relations(
    constraint: Constraint,
    element: Element,
    area: Element,
    flex: Flex,
) -> Seq<Relation> {
    match constraint {
        Constraint::Max(max) => seq![
            element.spec_has_max_size(max, Strength::MaxSizeLe),
            element.spec_has_int_size(max, Strength::MaxSizeEq),
        ],
        Constraint::Min(min) => seq![
            element.spec_has_min_size(min, Strength::MinSizeGe),
            if flex.spec_is_legacy() {
                element.spec_has_int_size(min, Strength::MinSizeEq)
            } else {
                element.spec_has_size(Operand::Size(area), Strength::FillGrow)
            },
        ],
        Constraint::Length(length) => seq![
            element.spec_has_int_size(length, Strength::LengthSizeEq),
        ],
        Constraint::Percentage(percent) => seq![
            element.spec_has_size(
                Operand::Scaled { element: area, numerator: percent as u32, denominator: 100 },
                Strength::PercentageSizeEq,
            ),
        ],
        Constraint::Ratio(numerator, denominator) => seq![
            element.spec_has_size(
                Operand::Scaled {
                    element: area,
                    numerator,
                    denominator: if denominator == 0 {
                        1
                    } else {
                        denominator
                    },
                },
                Strength::RatioSizeEq,
            ),
        ],
        Constraint::Fill(_) => seq![
            element.spec_has_size(Operand::Size(area), Strength::FillGrow),
        ],
    }
}

/// The relations of the first `count` constraints on their segments, in
/// order.
pub open spec fn size_relations_upto(
    area: Element,
    segments: Seq<Element>,
    constraints: Seq<Constraint>,
    flex: Flex,
    count: nat,
) -> Seq<Relation>
    decreases count,
{
    if count == 0 {
        Seq::empty()
    } else {
        size_relations_upto(area, segments, constraints, flex, (count - 1) as nat)
            + constraint_relations(constraints[count - 1], segments[count - 1], area, flex)
    }
}

/// The number of constraints that have a segment.
pub open spec fn matched(segments: Seq<Element>, constraints: Seq<Constraint>) -> nat {
    if constraints.len() <= segments.len() {
        constraints.len()
    } else {
        segments.len()
    }
}

/// The relations of each constraint on the segment at its position.
pub open spec fn size_relations(
    area: Element,
    segments: Seq<Element>,
    constraints: Seq<Constraint>,
    flex: Flex,
) -> Seq<Relation> {
    size_relations_upto(area, segments, constraints, flex, matched(segments, constraints))
}

/// Whether a segment under `constraint` takes a share of the space that is
/// left over: a `Fill` always, a `Min` unless the layout is `Legacy`.
pub open spec fn grows(constraint: Constraint, flex: Flex) -> bool {
    constraint.spec_is_fill() || (!flex.spec_is_legacy() && constraint.spec_is_min())
}

/// The positions among the first `count` whose constraint grows, in order.
pub open spec fn growing(constraints: Seq<Constraint>, flex: Flex, count: nat) -> Seq<usize>
    decreases count,
{
    if count == 0 {
        Seq::empty()
    } else if grows(constraints[count - 1], flex) {
        growing(constraints, flex, (count - 1) as nat).push((count - 1) as usize)
    } else {
        growing(constraints, flex, (count - 1) as nat)
    }
}

/// The weight of a growing segment as a fraction: the weight of a `Fill`,
/// a millionth where that weight is zero, and one for a `Min`.
pub open spec fn weight(constraint: Constraint) -> (u32, u32) {
    match constraint {
        Constraint::Fill(scale) => if scale == 0 {
            (1u32, 1_000_000u32)
        } else {
            (scale as u32, 1u32)
        },
        _ => (1u32, 1u32),
    }
}

/// The sizes of two growing segments are to each other as their weights:
/// the size of the left one times the weight of the right one equals the
/// size of the right one times the weight of the left one.
pub open spec fn proportional(
    left_constraint: Constraint,
    left: Element,
    right_constraint: Constraint,
    right: Element,
) -> Relation {
    Relation {
        left: Operand::Scaled {
            element: left,
            numerator: weight(right_constraint).0,
            denominator: weight(right_constraint).1,
        },
        operator: Operator::Equal,
        right: Operand::Scaled {
            element: right,
            numerator: weight(left_constraint).0,
            denominator: weight(left_constraint).1,
        },
        strength: Strength::Grow,
    }
}

/// For each pair of positions in `chosen`, that the segments there are in
/// proportion.
pub open spec fn proportions(
    segments: Seq<Element>,
    constraints: Seq<Constraint>,
    chosen: Seq<usize>,
    pairs: Seq<(usize, usize)>,
) -> Seq<Relation> {
    Seq::new(
        pairs.len(),
        |k: int|
            proportional(
                constraints[chosen[pairs[k].0 as int] as int],
                segments[chosen[pairs[k].0 as int] as int],
                constraints[chosen[pairs[k].1 as int] as int],
                segments[chosen[pairs[k].1 as int] as int],
            ),
    )
}

/// Every two growing segments are in proportion to their weights.
pub open spec fn fill_relations(
    segments: Seq<Element>,
    constraints: Seq<Constraint>,
    flex: Flex,
) -> Seq<Relation> {
    let chosen = growing(constraints, flex, matched(segments, constraints));
    proportions(segments, constraints, chosen, combinations_of(chosen.len() as usize))
}

/// Unless the layout is `Legacy`, each segment has the size of the next,
/// at the weakest strength of all.
pub open spec fn uniform_relations(segments: Seq<Element>, flex: Flex) -> Seq<Relation> {
    if flex.spec_is_legacy() {
        Seq::empty()
    } else {
        paired(segments, 0, windows_of(segments.len() as usize), Strength::SegmentSizeEq)
    }
}

/// Appends, for the elements from `from` up to `to`, that each has the size
/// `size`.
fn push_sized_run(
    relations: &mut Vec<Relation>,
    elements: &Vec<Element>,
    from: usize,
    to: usize,
    size: Operand,
    strength: Strength,
)
    requires
        to <= elements.len(),
    ensures
        final(relations)@ == old(relations)@ + sized_run(
            elements@,
            from as int,
            to as int,
            size,
            strength,
        ),
{
    let ghost before = relations@;
    let ghost run = sized_run(elements@, from as int, to as int, size, strength);
    if to <= from {
        assert(relations@ =~= before + run);
        return ;
    }
    let mut i: usize = from;
    while i < to
        invariant
            from <= i <= to <= elements.len(),
            run == sized_run(elements@, from as int, to as int, size, strength),
            relations@ == before + run.subrange(0, i - from),
        decreases to - i,
    {
        relations.push(elements[i].has_size(size, strength));
        assert(relations@ =~= before + run.subrange(0, i + 1 - from));
        i += 1;
    }
    assert(run.subrange(0, to - from) =~= run);
}

/// Appends, for each pair of positions counted from `base`, that the element
/// at the first has the size of the element at the second.
fn push_paired(
    relations: &mut Vec<Relation>,
    elements: &Vec<Element>,
    base: usize,
    pairs: &Vec<(usize, usize)>,
    strength: Strength,
)
    requires
        forall|k: int|
            0 <= k < pairs.len() ==> base + (#[trigger] pairs[k]).0 < elements.len() && base
                + pairs[k].1 < elements.len(),
    ensures
        final(relations)@ == old(relations)@ + paired(elements@, base as int, pairs@, strength),
{
    let ghost before = relations@;
    let ghost all = paired(elements@, base as int, pairs@, strength);
    let mut k: usize = 0;
    while k < pairs.len()
        invariant
            k <= pairs.len(),
            forall|j: int|
                0 <= j < pairs.len() ==> base + (#[trigger] pairs[j]).0 < elements.len() && base
                    + pairs[j].1 < elements.len(),
            all == paired(elements@, base as int, pairs@, strength),
            relations@ == before + all.subrange(0, k as int),
        decreases pairs.len() - k,
    {
        let pair = pairs[k];
        let left = elements[base + pair.0];
        let right = elements[base + pair.1];
        relations.push(left.has_size(right.size(), strength));
        assert(relations@ =~= before + all.subrange(0, k + 1));
        k += 1;
    }
    assert(all.subrange(0, pairs.len() as int) =~= all);
}

/// Pins the two ends of the area.
pub fn configure_area(
    relations: &mut Vec<Relation>,
    area: Element,
    area_start: u16,
    area_end: u16,
)
    ensures
        final(relations)@ == old(relations)@ + area_relations(area, area_start, area_end),
{
    let ghost before = relations@;
    relations.push(
        Relation {
            left: Operand::Variable(area.start),
            operator: Operator::Equal,
            right: Operand::Value(area_start),
            strength: Strength::Required,
        },
    );
    relations.push(
        Relation {
            left: Operand::Variable(area.end),
            operator: Operator::Equal,
            right: Operand::Value(area_end),
            strength: Strength::Required,
        },
    );
    assert(relations@ =~= before + area_relations(area, area_start, area_end));
}

/// Keeps the first `count` variables within the area and in ascending order.
pub fn configure_variable_constraints(relations: &mut Vec<Relation>, count: usize, area: Element)
    ensures
        final(relations)@ == old(relations)@ + variable_relations(count, area),
{
    let ghost before = relations@;
    let ghost bounds = bound_relations(count, area);
    let mut variable: usize = 0;
    while variable < count
        invariant
            variable <= count,
            bounds == bound_relations(count, area),
            relations@ == before + bounds.subrange(0, 2 * variable),
        decreases count - variable,
    {
        relations.push(
            Relation {
                left: Operand::Variable(variable),
                operator: Operator::GreaterOrEqual,
                right: Operand::Variable(area.start),
                strength: Strength::Required,
            },
        );
        relations.push(
            Relation {
                left: Operand::Variable(variable),
                operator: Operator::LessOrEqual,
                right: Operand::Variable(area.end),
                strength: Strength::Required,
            },
        );
        assert(relations@ =~= before + bounds.subrange(0, 2 * (variable + 1)));
        variable += 1;
    }
    assert(bounds.subrange(0, 2 * count) =~= bounds);
    let ghost bounded = relations@;
    let pairs = index_windows(count);
    let ghost order = order_relations(count);
    let mut k: usize = 0;
    while k < pairs.len()
        invariant
            k <= pairs.len(),
            pairs@ == windows_of(count),
            order == order_relations(count),
            relations@ == bounded + order.subrange(0, k as int),
        decreases pairs.len() - k,
    {
        let pair = pairs[k];
        relations.push(
            Relation {
                left: Operand::Variable(pair.0),
                operator: Operator::LessOrEqual,
                right: Operand::Variable(pair.1),
                strength: Strength::Required,
            },
        );
        assert(relations@ =~= bounded + order.subrange(0, k + 1));
        k += 1;
    }
    assert(order.subrange(0, pairs.len() as int) =~= order);
    assert(relations@ =~= before + variable_relations(count, area));
}

/// Puts the relations of `flex` and `spacing` on the spacers.
pub fn configure_flex_constraints(
    relations: &mut Vec<Relation>,
    area: Element,
    spacers: &Vec<Element>,
    flex: Flex,
    spacing: u16,
)
    ensures
        final(relations)@ == old(relations)@ + flex_relations(area, spacers@, flex, spacing),
{
    let ghost before = relations@;
    let count = spacers.len();
    match flex {
        Flex::SpaceAround => {
            let pairs = index_combinations(count);
            assert forall|k: int| 0 <= k < pairs.len() implies 0 + (#[trigger] pairs[k]).0
                < spacers.len() && 0 + pairs[k].1 < spacers.len() by {
                combinations_are_ordered(0, count, k);
            }
            push_paired(relations, spacers, 0, &pairs, Strength::SpacerSizeEq);
            push_sized_run(relations, spacers, 0, count, area.size(), Strength::SpaceGrow);
        },
        Flex::SpaceBetween => {
            let middle: usize = if count >= 2 {
                count - 2
            } else {
                0
            };
            let pairs = index_combinations(middle);
            assert forall|k: int| 0 <= k < pairs.len() implies 1 + (#[trigger] pairs[k]).0
                < spacers.len() && 1 + pairs[k].1 < spacers.len() by {
                combinations_are_ordered(0, middle, k);
            }
            push_paired(relations, spacers, 1, &pairs, Strength::SpacerSizeEq);
            push_sized_run(relations, spacers, 0, count, area.size(), Strength::SpaceGrow);
        },
        _ => {
            let to: usize = if count >= 1 {
                count - 1
            } else {
                0
            };
            push_sized_run(
                relations,
                spacers,
                1,
                to,
                Operand::Value(spacing),
                Strength::SpacerSizeEq,
            );
            assert(sized_run(
                spacers@,
                1,
                to as int,
                Operand::Value(spacing),
                Strength::SpacerSizeEq,
            ) =~= spaced(spacers@, spacing));
        },
    }
    let ghost spread = relations@;
    if count > 0 {
        let first = spacers[0];
        let last = spacers[count - 1];
        match flex {
            Flex::Legacy => {
                relations.push(first.is_empty());
                relations.push(last.is_empty());
            },
            Flex::SpaceAround => {},
            Flex::SpaceBetween => {
                relations.push(first.is_empty());
                relations.push(last.is_empty());
            },
            Flex::Start => {
                relations.push(first.is_empty());
                relations.push(last.has_size(area.size(), Strength::Grow));
            },
            Flex::Center => {
                relations.push(first.has_size(area.size(), Strength::Grow));
                relations.push(last.has_size(area.size(), Strength::Grow));
                relations.push(first.has_size(last.size(), Strength::SpacerSizeEq));
            },
            Flex::End => {
                relations.push(last.is_empty());
                relations.push(first.has_size(area.size(), Strength::Grow));
            },
        }
    }
    assert(relations@ =~= spread + end_relations(area, spacers@, flex));
    assert(relations@ =~= before + flex_relations(area, spacers@, flex, spacing));
}

/// Puts the relations of each constraint on the segment at its position.
pub fn configure_constraints(
    relations: &mut Vec<Relation>,
    area: Element,
    segments: &Vec<Element>,
    constraints: &Vec<Constraint>,
    flex: Flex,
)
    ensures
        final(relations)@ == old(relations)@ + size_relations(
            area,
            segments@,
            constraints@,
            flex,
        ),
{
    let ghost before = relations@;
    let count: usize = if constraints.len() <= segments.len() {
        constraints.len()
    } else {
        segments.len()
    };
    let mut i: usize = 0;
    while i < count
        invariant
            i <= count,
            count == matched(segments@, constraints@),
            relations@ == before + size_relations_upto(
                area,
                segments@,
                constraints@,
                flex,
                i as nat,
            ),
        decreases count - i,
    {
        let ghost sofar = relations@;
        let element = segments[i];
        match constraints[i] {
            Constraint::Max(max) => {
                relations.push(element.has_max_size(max, Strength::MaxSizeLe));
                relations.push(element.has_int_size(max, Strength::MaxSizeEq));
            },
            Constraint::Min(min) => {
                relations.push(element.has_min_size(min, Strength::MinSizeGe));
                if flex.is_legacy() {
                    relations.push(element.has_int_size(min, Strength::MinSizeEq));
                } else {
                    relations.push(element.has_size(area.size(), Strength::FillGrow));
                }
            },
            Constraint::Length(length) => {
                relations.push(element.has_int_size(length, Strength::LengthSizeEq));
            },
            Constraint::Percentage(percent) => {
                let size = Operand::Scaled {
                    element: area,
                    numerator: percent as u32,
                    denominator: 100,
                };
                relations.push(element.has_size(size, Strength::PercentageSizeEq));
            },
            Constraint::Ratio(numerator, denominator) => {
                let size = Operand::Scaled {
                    element: area,
                    numerator,
                    denominator: if denominator == 0 {
                        1
                    } else {
                        denominator
                    },
                };
                relations.push(element.has_size(size, Strength::RatioSizeEq));
            },
            Constraint::Fill(_) => {
                relations.push(element.has_size(area.size(), Strength::FillGrow));
            },
        }
        assert(relations@ =~= sofar + constraint_relations(
            constraints@[i as int],
            segments@[i as int],
            area,
            flex,
        ));
        assert(relations@ =~= before + size_relations_upto(
            area,
            segments@,
            constraints@,
            flex,
            (i + 1) as nat,
        ));
        i += 1;
    }
}

/// The weight of a growing segment, numerator and denominator.
fn weight_of(constraint: Constraint) -> (fraction: (u32, u32))
    ensures
        fraction == weight(constraint),
        fraction.1 > 0,
{
    match constraint {
        Constraint::Fill(scale) => if scale == 0 {
            (1, 1_000_000)
        } else {
            (scale as u32, 1)
        },
        _ => (1, 1),
    }
}

/// Every position in `growing` is below the count it was made for.
pub proof fn growing_is_bounded(constraints: Seq<Constraint>, flex: Flex, count: nat, k: int)
    requires
        0 <= k < growing(constraints, flex, count).len(),
    ensures
        growing(constraints, flex, count)[k] < count,
        growing(constraints, flex, count).len() <= count,
    decreases count,
{
    if count > 0 {
        let rest = growing(constraints, flex, (count - 1) as nat);
        if k < rest.len() {
            growing_is_bounded(constraints, flex, (count - 1) as nat, k);
        } else if rest.len() > 0 {
            growing_is_bounded(constraints, flex, (count - 1) as nat, 0);
        }
    }
}

/// Makes every two growing segments proportional to their weights, so that
/// they share the space that is left over.
pub fn configure_fill_constraints(
    relations: &mut Vec<Relation>,
    segments: &Vec<Element>,
    constraints: &Vec<Constraint>,
    flex: Flex,
)
    ensures
        final(relations)@ == old(relations)@ + fill_relations(segments@, constraints@, flex),
{
    let ghost before = relations@;
    let count: usize = if constraints.len() <= segments.len() {
        constraints.len()
    } else {
        segments.len()
    };
    let mut chosen: Vec<usize> = Vec::new();
    let mut i: usize = 0;
    while i < count
        invariant
            i <= count,
            count == matched(segments@, constraints@),
            chosen@ == growing(constraints@, flex, i as nat),
        decreases count - i,
    {
        let constraint = constraints[i];
        if constraint.is_fill() || (!flex.is_legacy() && constraint.is_min()) {
            chosen.push(i);
        }
        i += 1;
    }
    assert forall|j: int| 0 <= j < chosen.len() implies (#[trigger] chosen[j]) < count by {
        growing_is_bounded(constraints@, flex, count as nat, j);
    }
    let pairs = index_combinations(chosen.len());
    let ghost all = proportions(segments@, constraints@, chosen@, pairs@);
    let mut k: usize = 0;
    while k < pairs.len()
        invariant
            k <= pairs.len(),
            count <= segments.len(),
            count <= constraints.len(),
            pairs@ == combinations_of(chosen.len()),
            forall|j: int| 0 <= j < chosen.len() ==> (#[trigger] chosen[j]) < count,
            all == proportions(segments@, constraints@, chosen@, pairs@),
            relations@ == before + all.subrange(0, k as int),
        decreases pairs.len() - k,
    {
        proof {
            combinations_are_ordered(0, chosen.len(), k as int);
        }
        let pair = pairs[k];
        let left = chosen[pair.0];
        let right = chosen[pair.1];
        let left_weight = weight_of(constraints[left]);
        let right_weight = weight_of(constraints[right]);
        relations.push(
            Relation {
                left: Operand::Scaled {
                    element: segments[left],
                    numerator: right_weight.0,
                    denominator: right_weight.1,
                },
                operator: Operator::Equal,
                right: Operand::Scaled {
                    element: segments[right],
                    numerator: left_weight.0,
                    denominator: left_weight.1,
                },
                strength: Strength::Grow,
            },
        );
        assert(relations@ =~= before + all.subrange(0, k + 1));
        k += 1;
    }
    assert(all.subrange(0, pairs.len() as int) =~= all);
}

/// Unless the layout is `Legacy`, asks each segment to be as large as the
/// next, which settles what the other relations leave open.
pub fn configure_uniform_constraints(
    relations: &mut Vec<Relation>,
    segments: &Vec<Element>,
    flex: Flex,
)
    ensures
        final(relations)@ == old(relations)@ + uniform_relations(segments@, flex),
{
    if !flex.is_legacy() {
        let pairs = index_windows(segments.len());
        push_paired(relations, segments, 0, &pairs, Strength::SegmentSizeEq);
    } else {
        assert(relations@ =~= old(relations)@ + uniform_relations(segments@, flex));
    }
}

/// Whether both ends of every element are among the first `count`
/// variables.
pub open spec fn elements_within(elements: Seq<Element>, count: nat) -> bool {
    forall|i: int| 0 <= i < elements.len() ==> (#[trigger] elements[i]).within(count)
}

/// Two lists that speak only of the first `count` variables do so when
/// joined.
pub proof fn joined_within(first: Seq<Relation>, second: Seq<Relation>, count: nat)
    requires
        all_within(first, count),
        all_within(second, count),
    ensures
        all_within(first + second, count),
{
    assert forall|i: int| 0 <= i < (first + second).len() implies (#[trigger] (first
        + second)[i]).within(count) by {
        if i < first.len() {
            assert((first + second)[i] == first[i]);
        } else {
            assert((first + second)[i] == second[i - first.len()]);
        }
    }
}

/// The relations on the area speak only of its two ends.
pub proof fn area_relations_within(area: Element, area_start: u16, area_end: u16, count: nat)
    requires
        area.within(count),
    ensures
        all_within(area_relations(area, area_start, area_end), count),
{
}

/// The relations on the variables speak only of those variables and of the
/// ends of the area.
pub proof fn variable_relations_within(variables: usize, area: Element, count: nat)
    requires
        variables <= count,
        area.within(count),
    ensures
        all_within(variable_relations(variables, area), count),
{
    let bounds = bound_relations(variables, area);
    let order = order_relations(variables);
    assert(all_within(bounds, count));
    assert(all_within(order, count));
    joined_within(bounds, order, count);
}

/// A run of sizes speaks only of the variables of its elements and of the
/// size they are given.
pub proof fn sized_run_within(
    elements: Seq<Element>,
    from: int,
    to: int,
    size: Operand,
    strength: Strength,
    count: nat,
)
    requires
        0 <= from,
        to <= elements.len(),
        elements_within(elements, count),
        size.within(count),
    ensures
        all_within(sized_run(elements, from, to, size, strength), count),
{
    let run = sized_run(elements, from, to, size, strength);
    assert forall|i: int| 0 <= i < run.len() implies (#[trigger] run[i]).within(count) by {
        assert(elements[from + i].within(count));
    }
}

/// Sizes set equal in pairs speak only of the variables of those elements.
pub proof fn paired_within(
    elements: Seq<Element>,
    base: int,
    pairs: Seq<(usize, usize)>,
    strength: Strength,
    count: nat,
)
    requires
        0 <= base,
        elements_within(elements, count),
        forall|k: int|
            0 <= k < pairs.len() ==> base + (#[trigger] pairs[k]).0 < elements.len() && base
                + pairs[k].1 < elements.len(),
    ensures
        all_within(paired(elements, base, pairs, strength), count),
{
    let all = paired(elements, base, pairs, strength);
    assert forall|k: int| 0 <= k < all.len() implies (#[trigger] all[k]).within(count) by {
        assert(base + pairs[k].0 < elements.len());
        assert(elements[base + pairs[k].0].within(count));
        assert(elements[base + pairs[k].1].within(count));
    }
}

/// The relations on the spacers speak only of the variables of the spacers
/// and of the area.
pub proof fn flex_relations_within(
    area: Element,
    spacers: Seq<Element>,
    flex: Flex,
    spacing: u16,
    count: nat,
)
    requires
        area.within(count),
        elements_within(spacers, count),
        spacers.len() <= usize::MAX,
    ensures
        all_within(flex_relations(area, spacers, flex, spacing), count),
{
    let length = spacers.len() as usize;
    let grown = sized_run(
        spacers,
        0,
        spacers.len() as int,
        Operand::Size(area),
        Strength::SpaceGrow,
    );
    sized_run_within(spacers, 0, spacers.len() as int, Operand::Size(area), Strength::SpaceGrow, count);
    let ends = end_relations(area, spacers, flex);
    if spacers.len() > 0 {
        assert(spacers[0].within(count));
        assert(spacers[spacers.len() - 1].within(count));
    }
    assert(all_within(ends, count));
    match flex {
        Flex::SpaceAround => {
            let pairs = combinations_of(length);
            assert forall|k: int| 0 <= k < pairs.len() implies 0 + (#[trigger] pairs[k]).0
                < spacers.len() && 0 + pairs[k].1 < spacers.len() by {
                combinations_are_ordered(0, length, k);
            }
            paired_within(spacers, 0, pairs, Strength::SpacerSizeEq, count);
            joined_within(paired(spacers, 0, pairs, Strength::SpacerSizeEq), grown, count);
            joined_within(paired(spacers, 0, pairs, Strength::SpacerSizeEq) + grown, ends, count);
        },
        Flex::SpaceBetween => {
            let middle = middle_count(spacers.len());
            let pairs = combinations_of(middle);
            assert forall|k: int| 0 <= k < pairs.len() implies 1 + (#[trigger] pairs[k]).0
                < spacers.len() && 1 + pairs[k].1 < spacers.len() by {
                combinations_are_ordered(0, middle, k);
            }
            paired_within(spacers, 1, pairs, Strength::SpacerSizeEq, count);
            joined_within(paired(spacers, 1, pairs, Strength::SpacerSizeEq), grown, count);
            joined_within(paired(spacers, 1, pairs, Strength::SpacerSizeEq) + grown, ends, count);
        },
        _ => {
            if spacers.len() >= 1 {
                sized_run_within(
                    spacers,
                    1,
                    spacers.len() - 1,
                    Operand::Value(spacing),
                    Strength::SpacerSizeEq,
                    count,
                );
            }
            joined_within(spaced(spacers, spacing), ends, count);
        },
    }
}

/// The relations of the constraints speak only of the variables of their
/// segments and of the area.
pub proof fn size_relations_within(
    area: Element,
    segments: Seq<Element>,
    constraints: Seq<Constraint>,
    flex: Flex,
    upto: nat,
    count: nat,
)
    requires
        area.within(count),
        elements_within(segments, count),
        upto <= matched(segments, constraints),
    ensures
        all_within(size_relations_upto(area, segments, constraints, flex, upto), count),
    decreases upto,
{
    if upto > 0 {
        size_relations_within(area, segments, constraints, flex, (upto - 1) as nat, count);
        assert(segments[upto - 1].within(count));
        joined_within(
            size_relations_upto(area, segments, constraints, flex, (upto - 1) as nat),
            constraint_relations(constraints[upto - 1], segments[upto - 1], area, flex),
            count,
        );
    }
}

/// The proportions of the growing segments speak only of the variables of
/// the segments.
pub proof fn fill_relations_within(
    segments: Seq<Element>,
    constraints: Seq<Constraint>,
    flex: Flex,
    count: nat,
)
    requires
        elements_within(segments, count),
        segments.len() <= usize::MAX,
    ensures
        all_within(fill_relations(segments, constraints, flex), count),
{
    let limit = matched(segments, constraints);
    let chosen = growing(constraints, flex, limit);
    if chosen.len() > 0 {
        growing_is_bounded(constraints, flex, limit, 0);
    }
    let pairs = combinations_of(chosen.len() as usize);
    let all = proportions(segments, constraints, chosen, pairs);
    assert forall|k: int| 0 <= k < all.len() implies (#[trigger] all[k]).within(count) by {
        combinations_are_ordered(0, chosen.len() as usize, k);
        growing_is_bounded(constraints, flex, limit, pairs[k].0 as int);
        growing_is_bounded(constraints, flex, limit, pairs[k].1 as int);
        assert(segments[chosen[pairs[k].0 as int] as int].within(count));
        assert(segments[chosen[pairs[k].1 as int] as int].within(count));
    }
}

/// The tie-break between neighbouring segments speaks only of the
/// variables of the segments.
pub proof fn uniform_relations_within(segments: Seq<Element>, flex: Flex, count: nat)
    requires
        elements_within(segments, count),
        segments.len() <= usize::MAX,
    ensures
        all_within(uniform_relations(segments, flex), count),
{
    if !flex.spec_is_legacy() {
        paired_within(
            segments,
            0,
            windows_of(segments.len() as usize),
            Strength::SegmentSizeEq,
            count,
        );
    }
}

} // verus!
