//! The sizing rules of a layout and the policies for left-over space.

use vstd::prelude::*;
use vstd::std_specs::convert::FromSpecImpl;

verus! {

/// How large a segment wants to be.
#[derive(Debug, Clone, Copy, PartialEq, Eq, Structural, Hash)]
pub enum Constraint {
    /// At least this many cells.
    Min(u16),
    /// At most this many cells, and as close to it as the rest allows.
    Max(u16),
    /// Exactly this many cells.
    Length(u16),
    /// This many hundredths of the area.
    Percentage(u16),
    /// The fraction `numerator / denominator` of the area. A denominator of
    /// zero counts as one.
    Ratio(u32, u32),
    /// A share of what the other segments leave, in proportion to the weight.
    Fill(u16),
}

impl Constraint {
    pub open spec fn spec_is_min(&self) -> bool {
        *self is Min
    }

    pub open spec fn spec_is_fill(&self) -> bool {
        *self is Fill
    }

    #[verifier::when_used_as_spec(spec_is_min)]
    pub fn is_min(&self) -> (is_min: bool)
        ensures
            is_min == self.spec_is_min(),
    {
        match self {
            Constraint::Min(_) => true,
            _ => false,
        }
    }

    #[verifier::when_used_as_spec(spec_is_fill)]
    pub fn is_fill(&self) -> (is_fill: bool)
        ensures
            is_fill == self.spec_is_fill(),
    {
        match self {
            Constraint::Fill(_) => true,
            _ => false,
        }
    }
}

impl From<u16> for Constraint {
    /// A bare number of cells is a `Length`.
    fn from(length: u16) -> (constraint: Constraint) {
        Constraint::Length(length)
    }
}

impl FromSpecImpl<u16> for Constraint {
    open spec fn obeys_from_spec() -> bool {
        true
    }

    open spec fn from_spec(length: u16) -> Constraint {
        Constraint::Length(length)
    }
}

impl From<&Constraint> for Constraint {
    fn from(constraint: &Constraint) -> (copy: Constraint) {
        *constraint
    }
}

impl FromSpecImpl<&Constraint> for Constraint {
    open spec fn obeys_from_spec() -> bool {
        true
    }

    open spec fn from_spec(constraint: &Constraint) -> Constraint {
        *constraint
    }
}

/// How the length that the segments leave over is handed out.
#[derive(Debug, Clone, Copy, PartialEq, Eq, Structural, Hash)]
pub enum Flex {
    /// The last segment takes what is left over.
    Legacy,
    /// The segments sit at the start; what is left over follows them.
    Start,
    /// The segments sit at the end; what is left over precedes them.
    End,
    /// The segments sit in the middle, with equal space on both sides.
    Center,
    /// Equal space between the segments and none at either end.
    SpaceBetween,
    /// Equal space between the segments and at both ends.
    SpaceAround,
}

impl Flex {
    pub open spec fn spec_is_legacy(&self) -> bool {
        *self is Legacy
    }

    #[verifier::when_used_as_spec(spec_is_legacy)]
    pub fn is_legacy(&self) -> (is_legacy: bool)
        ensures
            is_legacy == self.spec_is_legacy(),
    {
        match self {
            Flex::Legacy => true,
            _ => false,
        }
    }
}

impl Default for Flex {
    fn default() -> (flex: Flex)
        ensures
            flex == Flex::Start,
    {
        Flex::Start
    }
}

} // verus!
