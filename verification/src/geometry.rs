//! Rectangles of terminal cells, margins and the axis of a split.

use vstd::prelude::*;

verus! {

/// The axis along which an area is split.
#[derive(Debug, Clone, Copy, PartialEq, Eq, Structural, Hash)]
pub enum Direction {
    Horizontal,
    Vertical,
}

impl Default for Direction {
    fn default() -> (direction: Direction)
        ensures
            direction == Direction::Vertical,
    {
        Direction::Vertical
    }
}

/// Space kept free inside the four sides of an area.
#[derive(Debug, Clone, Copy, PartialEq, Eq, Structural, Hash)]
pub struct Margin {
    pub horizontal: u16,
    pub vertical: u16,
}

impl Margin {
    pub fn new(horizontal: u16, vertical: u16) -> (margin: Margin)
        ensures
            margin == (Margin { horizontal, vertical }),
    {
        Margin { horizontal, vertical }
    }
}

impl Default for Margin {
    fn default() -> (margin: Margin)
        ensures
            margin == (Margin { horizontal: 0, vertical: 0 }),
    {
        Margin { horizontal: 0, vertical: 0 }
    }
}

/// An axis-aligned rectangle of cells.
#[derive(Debug, Clone, Copy, PartialEq, Eq, Structural, Hash)]
pub struct Rect {
    pub x: u16,
    pub y: u16,
    pub width: u16,
    pub height: u16,
}

/// The sum of two cell counts, held at the largest coordinate.
pub open spec fn saturating_sum(a: u16, b: u16) -> u16 {
    if a + b > u16::MAX {
        u16::MAX
    } else {
        (a + b) as u16
    }
}

impl Rect {
    /// The column just past the right edge.
    pub open spec fn spec_right(self) -> u16 {
        saturating_sum(self.x, self.width)
    }

    /// The row just past the bottom edge.
    pub open spec fn spec_bottom(self) -> u16 {
        saturating_sum(self.y, self.height)
    }

    /// What is left of the rectangle once `margin` is taken off each side:
    /// the empty rectangle at the origin where the margins do not fit.
    pub open spec fn spec_inner(self, margin: Margin) -> Rect {
        if self.width < 2 * margin.horizontal || self.height < 2 * margin.vertical {
            Rect { x: 0, y: 0, width: 0, height: 0 }
        } else {
            Rect {
                x: saturating_sum(self.x, margin.horizontal),
                y: saturating_sum(self.y, margin.vertical),
                width: (self.width - 2 * margin.horizontal) as u16,
                height: (self.height - 2 * margin.vertical) as u16,
            }
        }
    }

    /// Where the rectangle begins along `direction`.
    pub open spec fn axis_start(self, direction: Direction) -> u16 {
        match direction {
            Direction::Horizontal => self.x,
            Direction::Vertical => self.y,
        }
    }

    /// Where the rectangle ends along `direction`.
    pub open spec fn axis_end(self, direction: Direction) -> u16 {
        match direction {
            Direction::Horizontal => self.spec_right(),
            Direction::Vertical => self.spec_bottom(),
        }
    }

    /// The length of the rectangle along `direction`.
    pub open spec fn axis_length(self, direction: Direction) -> u16 {
        match direction {
            Direction::Horizontal => self.width,
            Direction::Vertical => self.height,
        }
    }

    /// Where the rectangle ends along `direction`: its start and its length
    /// together, which may lie beyond the last coordinate.
    pub open spec fn axis_reach(self, direction: Direction) -> int {
        self.axis_start(direction) + self.axis_length(direction)
    }

    /// Where the rectangle begins across `direction`.
    pub open spec fn cross_start(self, direction: Direction) -> u16 {
        match direction {
            Direction::Horizontal => self.y,
            Direction::Vertical => self.x,
        }
    }

    /// The length of the rectangle across `direction`.
    pub open spec fn cross_length(self, direction: Direction) -> u16 {
        match direction {
            Direction::Horizontal => self.height,
            Direction::Vertical => self.width,
        }
    }

    pub fn new(x: u16, y: u16, width: u16, height: u16) -> (rect: Rect)
        ensures
            rect == (Rect { x, y, width, height }),
    {
        Rect { x, y, width, height }
    }

    #[verifier::when_used_as_spec(spec_right)]
    pub fn right(self) -> (right: u16)
        ensures
            right == self.spec_right(),
    {
        self.x.saturating_add(self.width)
    }

    #[verifier::when_used_as_spec(spec_bottom)]
    pub fn bottom(self) -> (bottom: u16)
        ensures
            bottom == self.spec_bottom(),
    {
        self.y.saturating_add(self.height)
    }

    #[verifier::when_used_as_spec(spec_inner)]
    pub fn inner(self, margin: Margin) -> (inner: Rect)
        ensures
            inner == self.spec_inner(margin),
    {
        let doubled_horizontal: u32 = 2 * (margin.horizontal as u32);
        let doubled_vertical: u32 = 2 * (margin.vertical as u32);
        if (self.width as u32) < doubled_horizontal || (self.height as u32) < doubled_vertical {
            Rect { x: 0, y: 0, width: 0, height: 0 }
        } else {
            Rect {
                x: self.x.saturating_add(margin.horizontal),
                y: self.y.saturating_add(margin.vertical),
                width: self.width - 2 * margin.horizontal,
                height: self.height - 2 * margin.vertical,
            }
        }
    }
}

/// The lengths of the rectangles along `direction`, added up.
pub open spec fn total_length(rects: Seq<Rect>, direction: Direction) -> int
    decreases rects.len(),
{
    if rects.len() == 0 {
        0
    } else {
        total_length(rects.drop_last(), direction) + rects.last().axis_length(direction)
    }
}

impl Default for Rect {
    fn default() -> (rect: Rect)
        ensures
            rect == (Rect { x: 0, y: 0, width: 0, height: 0 }),
    {
        Rect { x: 0, y: 0, width: 0, height: 0 }
    }
}

} // verus!
