//! The priorities of the layout's rules.
//!
//! The solver ranks relations by strength: where two relations cannot both
//! hold, the stronger one wins. The solver names four anchors, each a
//! thousand times the next: required (1 001 001 000), strong (1 000 000),
//! medium (1 000) and weak (1). The strengths of the layout's rules are
//! placed between those anchors.

use vstd::prelude::*;

verus! {

/// The strength of a relation.
#[derive(Debug, Clone, Copy, PartialEq, Eq, Structural, Hash)]
pub enum Strength {
    /// The solver's strongest strength: such a relation is never violated.
    Required,
    /// Spacers of equal size, and empty spacers: one below required.
    SpacerSizeEq,
    /// The lower bound of a `Min`: ten times strong.
    MinSizeGe,
    /// The upper bound of a `Max`: ten times strong.
    MaxSizeLe,
    /// The size of a `Length`: a tenth of strong.
    LengthSizeEq,
    /// The size of a `Percentage`: ten times medium.
    PercentageSizeEq,
    /// The size of a `Ratio`: medium.
    RatioSizeEq,
    /// The preferred size of a `Max`: a tenth of medium.
    MaxSizeEq,
    /// The preferred size of a `Min`: a tenth of medium.
    MinSizeEq,
    /// The growth of a `Fill`: ten times weak.
    FillGrow,
    /// The growth of what shares left-over space: weak.
    Grow,
    /// The growth of a spacer: a tenth of weak.
    SpaceGrow,
    /// Neighbouring segments of equal size: a hundredth of weak.
    SegmentSizeEq,
}

impl Strength {
    /// The strength is `numerator() / denominator()`.
    pub open spec fn spec_numerator(self) -> u32 {
        match self {
            Strength::Required => 1_001_001_000,
            Strength::SpacerSizeEq => 1_001_000_999,
            Strength::MinSizeGe => 10_000_000,
            Strength::MaxSizeLe => 10_000_000,
            Strength::LengthSizeEq => 100_000,
            Strength::PercentageSizeEq => 10_000,
            Strength::RatioSizeEq => 1_000,
            Strength::MaxSizeEq => 100,
            Strength::MinSizeEq => 100,
            Strength::FillGrow => 10,
            Strength::Grow => 1,
            Strength::SpaceGrow => 1,
            Strength::SegmentSizeEq => 1,
        }
    }

    pub open spec fn spec_denominator(self) -> u32 {
        match self {
            Strength::SpaceGrow => 10,
            Strength::SegmentSizeEq => 100,
            _ => 1,
        }
    }

    /// The strength in hundredths, a whole number for every strength.
    pub open spec fn spec_hundredths(self) -> u64 {
        match self {
            Strength::Required => 100_100_100_000,
            Strength::SpacerSizeEq => 100_100_099_900,
            Strength::MinSizeGe => 1_000_000_000,
            Strength::MaxSizeLe => 1_000_000_000,
            Strength::LengthSizeEq => 10_000_000,
            Strength::PercentageSizeEq => 1_000_000,
            Strength::RatioSizeEq => 100_000,
            Strength::MaxSizeEq => 10_000,
            Strength::MinSizeEq => 10_000,
            Strength::FillGrow => 1_000,
            Strength::Grow => 100,
            Strength::SpaceGrow => 10,
            Strength::SegmentSizeEq => 1,
        }
    }

    /// Whether `self` is strictly stronger than `other`.
    pub open spec fn outranks(self, other: Strength) -> bool {
        self.spec_hundredths() > other.spec_hundredths()
    }

    #[verifier::when_used_as_spec(spec_numerator)]
    pub fn numerator(self) -> (numerator: u32)
        ensures
            numerator == self.spec_numerator(),
    {
        match self {
            Strength::Required => 1_001_001_000,
            Strength::SpacerSizeEq => 1_001_000_999,
            Strength::MinSizeGe => 10_000_000,
            Strength::MaxSizeLe => 10_000_000,
            Strength::LengthSizeEq => 100_000,
            Strength::PercentageSizeEq => 10_000,
            Strength::RatioSizeEq => 1_000,
            Strength::MaxSizeEq => 100,
            Strength::MinSizeEq => 100,
            Strength::FillGrow => 10,
            Strength::Grow => 1,
            Strength::SpaceGrow => 1,
            Strength::SegmentSizeEq => 1,
        }
    }

    #[verifier::when_used_as_spec(spec_denominator)]
    pub fn denominator(self) -> (denominator: u32)
        ensures
            denominator == self.spec_denominator(),
            denominator > 0,
    {
        match self {
            Strength::SpaceGrow => 10,
            Strength::SegmentSizeEq => 100,
            _ => 1,
        }
    }

    #[verifier::when_used_as_spec(spec_hundredths)]
    pub fn hundredths(self) -> (hundredths: u64)
        ensures
            hundredths == self.spec_hundredths(),
    {
        match self {
            Strength::Required => 100_100_100_000,
            Strength::SpacerSizeEq => 100_100_099_900,
            Strength::MinSizeGe => 1_000_000_000,
            Strength::MaxSizeLe => 1_000_000_000,
            Strength::LengthSizeEq => 10_000_000,
            Strength::PercentageSizeEq => 1_000_000,
            Strength::RatioSizeEq => 100_000,
            Strength::MaxSizeEq => 10_000,
            Strength::MinSizeEq => 10_000,
            Strength::FillGrow => 1_000,
            Strength::Grow => 100,
            Strength::SpaceGrow => 10,
            Strength::SegmentSizeEq => 1,
        }
    }
}

/// `hundredths()` is a hundred times `numerator() / denominator()`.
pub proof fn hundredths_of_fraction(strength: Strength)
    ensures
        strength.spec_numerator() * 100 == strength.spec_hundredths() * strength.spec_denominator(),
{
    match strength {
        Strength::SpaceGrow => {
            assert(1 * 100 == 10 * 10);
        },
        Strength::SegmentSizeEq => {
            assert(1 * 100 == 1 * 100);
        },
        _ => {
            assert(strength.spec_denominator() == 1);
        },
    }
}

/// The order that the layout's rules rely on: an empty or equal spacer
/// outranks every bound, a bound every preferred size, a length a
/// percentage, a percentage a ratio, a ratio the preferred size of a bound,
/// and growth comes last, a fill before a shared remainder before a spacer.
pub open spec fn strengths_descend() -> bool {
    &&& Strength::SpacerSizeEq.outranks(Strength::MaxSizeLe)
    &&& Strength::MaxSizeLe.outranks(Strength::MaxSizeEq)
    &&& Strength::MinSizeGe.spec_hundredths() == Strength::MaxSizeLe.spec_hundredths()
    &&& Strength::MaxSizeLe.outranks(Strength::LengthSizeEq)
    &&& Strength::LengthSizeEq.outranks(Strength::PercentageSizeEq)
    &&& Strength::PercentageSizeEq.outranks(Strength::RatioSizeEq)
    &&& Strength::RatioSizeEq.outranks(Strength::MaxSizeEq)
    &&& Strength::MinSizeGe.outranks(Strength::FillGrow)
    &&& Strength::FillGrow.outranks(Strength::Grow)
    &&& Strength::Grow.outranks(Strength::SpaceGrow)
}

/// Checks the order of the strengths.
pub fn is_valid() -> (valid: bool)
    ensures
        valid == strengths_descend(),
{
    Strength::SpacerSizeEq.hundredths() > Strength::MaxSizeLe.hundredths()
        && Strength::MaxSizeLe.hundredths() > Strength::MaxSizeEq.hundredths()
        && Strength::MinSizeGe.hundredths() == Strength::MaxSizeLe.hundredths()
        && Strength::MaxSizeLe.hundredths() > Strength::LengthSizeEq.hundredths()
        && Strength::LengthSizeEq.hundredths() > Strength::PercentageSizeEq.hundredths()
        && Strength::PercentageSizeEq.hundredths() > Strength::RatioSizeEq.hundredths()
        && Strength::RatioSizeEq.hundredths() > Strength::MaxSizeEq.hundredths()
        && Strength::MinSizeGe.hundredths() > Strength::FillGrow.hundredths()
        && Strength::FillGrow.hundredths() > Strength::Grow.hundredths()
        && Strength::Grow.hundredths() > Strength::SpaceGrow.hundredths()
}

/// The strengths are in the order that the layout's rules rely on, the
/// required strength is above them all, and the tie-break between
/// neighbouring segments is below them all.
pub proof fn strengths_are_ordered()
    ensures
        strengths_descend(),
        Strength::Required.outranks(Strength::SpacerSizeEq),
        Strength::SpaceGrow.outranks(Strength::SegmentSizeEq),
        forall|strength: Strength|
            strength != Strength::Required ==> Strength::Required.outranks(strength),
{
}

} // verus!
