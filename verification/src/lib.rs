//! A one-dimensional constrained layout engine for terminal user interfaces.
//!
//! A [`Layout`] splits a rectangular area along one axis into segments, one
//! per sizing constraint, with spacers before, between and after them. The
//! sizing rules are compiled into weighted linear relations, handed to a
//! Cassowary solver, and the solved positions are turned back into cells.
//!
//! - [`geometry`] and [`constraint`] hold the values that a layout is made
//!   of: rectangles, margins, directions, constraints and flex policies.
//! - [`strengths`] ranks the rules of the layout.
//! - [`relation`] is the linear program as data, [`compile`] builds it from
//!   a layout, with [`pairing`] to pair up what belongs together, and
//!   [`meaning`] says what its relations ask for.
//! - [`solver`] hands the program to the solver and reads the positions.
//! - [`layout`] is the layout itself, with its split; [`cache`] remembers
//!   the splits that were made.
//! - [`rounding`] and [`laws`] hold what is proved of every split.
//!
//! What the solver itself does is not proved. The library proves which
//! relations reach the solver, what they ask for, and what the split looks
//! like wherever the solver comes to rest.

pub mod cache;
pub mod compile;
pub mod constraint;
pub mod geometry;
pub mod laws;
pub mod layout;
pub mod meaning;
pub mod pairing;
pub mod relation;
pub mod rounding;
pub mod solver;
pub mod strengths;

pub use cache::LayoutCache;
pub use constraint::{Constraint, Flex};
pub use geometry::{Direction, Margin, Rect};
pub use layout::Layout;
pub use solver::SolveError;
pub use strengths::Strength;
