//! The linear program of a split, as plain data.
//!
//! The solver works on variables, one per boundary along the axis. Here a
//! variable is its index in the list of boundaries, an [`Element`] is the
//! interval between two of them, and a [`Relation`] is one weighted linear
//! relation between two [`Operand`]s.

use vstd::prelude::*;
use vstd::std_specs::convert::FromSpecImpl;
use crate::strengths::Strength;

verus! {

/// How the two sides of a relation compare.
#[derive(Debug, Clone, Copy, PartialEq, Eq, Structural, Hash)]
pub enum Operator {
    LessOrEqual,
    Equal,
    GreaterOrEqual,
}

/// An interval along the axis: the variables of its two ends.
#[derive(Debug, Clone, Copy, PartialEq, Eq, Structural, Hash)]
pub struct Element {
    pub start: usize,
    pub end: usize,
}

/// One side of a relation.
#[derive(Debug, Clone, Copy, PartialEq, Eq, Structural, Hash)]
pub enum Operand {
    /// A number of cells.
    Value(u16),
    /// The position of a variable.
    Variable(usize),
    /// The size of an element, `end - start`.
    Size(Element),
    /// The size of an element times `numerator / denominator`.
    Scaled { element: Element, numerator: u32, denominator: u32 },
}

/// A weighted linear relation, `left operator right`.
#[derive(Debug, Clone, Copy, PartialEq, Eq, Structural, Hash)]
pub struct Relation {
    pub left: Operand,
    pub operator: Operator,
    pub right: Operand,
    pub strength: Strength,
}

impl Operand {
    /// Whether the operand speaks only of the first `count` variables, and
    /// scales by a fraction that exists.
    pub open spec fn within(self, count: nat) -> bool {
        match self {
            Operand::Value(_) => true,
            Operand::Variable(variable) => variable < count,
            Operand::Size(element) => element.within(count),
            Operand::Scaled { element, numerator, denominator } => element.within(count)
                && denominator > 0,
        }
    }
}

impl Relation {
    /// Whether both sides speak only of the first `count` variables.
    pub open spec fn within(self, count: nat) -> bool {
        self.left.within(count) && self.right.within(count)
    }
}

/// Where the variables are, in fractions of a cell: variable `i` is at
/// `positions[i] / unit` cells.
pub struct Placement {
    pub positions: Seq<int>,
    pub unit: int,
}

impl Placement {
    /// The size of `element`, in fractions of a cell.
    pub open spec fn size(self, element: Element) -> int {
        self.positions[element.end as int] - self.positions[element.start as int]
    }

    /// The sizes of `elements`, added up.
    pub open spec fn total(self, elements: Seq<Element>) -> int
        decreases elements.len(),
    {
        if elements.len() == 0 {
            0
        } else {
            self.total(elements.drop_last()) + self.size(elements.last())
        }
    }
}

impl Operand {
    /// The operand at `placement`, in fractions of a cell, is its dividend
    /// over its divisor: the divisor of a scaled size is the denominator of
    /// its scale, and every other divisor is one.
    pub open spec fn dividend(self, placement: Placement) -> int {
        match self {
            Operand::Value(cells) => cells * placement.unit,
            Operand::Variable(variable) => placement.positions[variable as int],
            Operand::Size(element) => placement.size(element),
            Operand::Scaled { element, numerator, denominator } => placement.size(element)
                * numerator,
        }
    }

    /// `value` times the divisor of the operand.
    pub open spec fn times_divisor(self, value: int) -> int {
        match self {
            Operand::Scaled { element, numerator, denominator } => value * denominator,
            _ => value,
        }
    }
}

impl Relation {
    /// Whether the relation holds exactly where the variables are at
    /// `placement`: whether the left side compares to the right side as the
    /// operator says. The two sides are compared as fractions, each
    /// dividend times the divisor of the other side.
    pub open spec fn holds(self, placement: Placement) -> bool {
        let left = self.right.times_divisor(self.left.dividend(placement));
        let right = self.left.times_divisor(self.right.dividend(placement));
        match self.operator {
            Operator::LessOrEqual => left <= right,
            Operator::Equal => left == right,
            Operator::GreaterOrEqual => left >= right,
        }
    }
}

/// Whether every relation that is at least as strong as `strength` holds
/// at `placement`.
pub open spec fn meets(relations: Seq<Relation>, placement: Placement, strength: Strength) -> bool {
    forall|i: int|
        0 <= i < relations.len() && (#[trigger] relations[i]).strength.spec_hundredths()
            >= strength.spec_hundredths() ==> relations[i].holds(placement)
}

/// Whether every relation speaks only of the first `count` variables.
pub open spec fn all_within(relations: Seq<Relation>, count: nat) -> bool {
    forall|i: int| 0 <= i < relations.len() ==> (#[trigger] relations[i]).within(count)
}

impl Element {
    /// Whether both ends are among the first `count` variables.
    pub open spec fn within(self, count: nat) -> bool {
        self.start < count && self.end < count
    }

    /// `size <= cells` at `strength`.
    pub open spec fn spec_has_max_size(&self, cells: u16, strength: Strength) -> Relation {
        Relation {
            left: Operand::Size(*self),
            operator: Operator::LessOrEqual,
            right: Operand::Value(cells),
            strength,
        }
    }

    /// `size >= cells` at `strength`.
    pub open spec fn spec_has_min_size(&self, cells: u16, strength: Strength) -> Relation {
        Relation {
            left: Operand::Size(*self),
            operator: Operator::GreaterOrEqual,
            right: Operand::Value(cells),
            strength,
        }
    }

    /// `size == cells` at `strength`.
    pub open spec fn spec_has_int_size(&self, cells: u16, strength: Strength) -> Relation {
        self.spec_has_size(Operand::Value(cells), strength)
    }

    /// `size == size_of` at `strength`.
    pub open spec fn spec_has_size(&self, size: Operand, strength: Strength) -> Relation {
        Relation { left: Operand::Size(*self), operator: Operator::Equal, right: size, strength }
    }

    /// `size == 0`, one step below required.
    pub open spec fn spec_is_empty(&self) -> Relation {
        self.spec_has_int_size(0, Strength::SpacerSizeEq)
    }

    pub fn new(start: usize, end: usize) -> (element: Element)
        ensures
            element == (Element { start, end }),
    {
        Element { start, end }
    }

    /// The size of the element as an operand.
    pub fn size(&self) -> (size: Operand)
        ensures
            size == Operand::Size(*self),
    {
        Operand::Size(*self)
    }

    #[verifier::when_used_as_spec(spec_has_max_size)]
    pub fn has_max_size(&self, cells: u16, strength: Strength) -> (relation: Relation)
        ensures
            relation == self.spec_has_max_size(cells, strength),
    {
        Relation {
            left: self.size(),
            operator: Operator::LessOrEqual,
            right: Operand::Value(cells),
            strength,
        }
    }

    #[verifier::when_used_as_spec(spec_has_min_size)]
    pub fn has_min_size(&self, cells: u16, strength: Strength) -> (relation: Relation)
        ensures
            relation == self.spec_has_min_size(cells, strength),
    {
        Relation {
            left: self.size(),
            operator: Operator::GreaterOrEqual,
            right: Operand::Value(cells),
            strength,
        }
    }

    #[verifier::when_used_as_spec(spec_has_int_size)]
    pub fn has_int_size(&self, cells: u16, strength: Strength) -> (relation: Relation)
        ensures
            relation == self.spec_has_int_size(cells, strength),
    {
        self.has_size(Operand::Value(cells), strength)
    }

    #[verifier::when_used_as_spec(spec_has_size)]
    pub fn has_size(&self, size: Operand, strength: Strength) -> (relation: Relation)
        ensures
            relation == self.spec_has_size(size, strength),
    {
        Relation { left: self.size(), operator: Operator::Equal, right: size, strength }
    }

    #[verifier::when_used_as_spec(spec_is_empty)]
    pub fn is_empty(&self) -> (relation: Relation)
        ensures
            relation == self.spec_is_empty(),
    {
        self.has_int_size(0, Strength::SpacerSizeEq)
    }
}

impl From<Element> for Operand {
    /// An element stands for its own size.
    fn from(element: Element) -> (size: Operand) {
        Operand::Size(element)
    }
}

impl FromSpecImpl<Element> for Operand {
    open spec fn obeys_from_spec() -> bool {
        true
    }

    open spec fn from_spec(element: Element) -> Operand {
        Operand::Size(element)
    }
}

impl From<&Element> for Operand {
    /// An element stands for its own size.
    fn from(element: &Element) -> (size: Operand) {
        Operand::Size(*element)
    }
}

impl FromSpecImpl<&Element> for Operand {
    open spec fn obeys_from_spec() -> bool {
        true
    }

    open spec fn from_spec(element: &Element) -> Operand {
        Operand::Size(*element)
    }
}

impl From<(usize, usize)> for Element {
    /// The element from the first variable of the pair to the second.
    fn from(ends: (usize, usize)) -> (element: Element) {
        Element { start: ends.0, end: ends.1 }
    }
}

impl FromSpecImpl<(usize, usize)> for Element {
    open spec fn obeys_from_spec() -> bool {
        true
    }

    open spec fn from_spec(ends: (usize, usize)) -> Element {
        Element { start: ends.0, end: ends.1 }
    }
}

} // verus!
