//! The Cassowary solver behind a split.
//!
//! Nothing in this module is proved of the solver itself. The relations
//! that reach it are those of the caller's list, in order, and what comes
//! back is one position per variable.

use vstd::prelude::*;
use crate::relation::{all_within, Operand, Operator, Relation};

verus! {

#[verifier::external_type_specification]
#[verifier::external_body]
pub struct ExSolver(cassowary::Solver);

#[verifier::external_type_specification]
#[verifier::external_body]
pub struct ExVariable(cassowary::Variable);

#[verifier::external_type_specification]
#[verifier::external_body]
pub struct ExExpression(cassowary::Expression);

#[verifier::external_type_specification]
#[verifier::external_body]
pub struct ExAddConstraintError(cassowary::AddConstraintError);

/// Why the solver refused a relation.
#[derive(Debug, Clone, Copy, PartialEq, Eq)]
pub enum SolveError {
    /// The relation was already in the solver.
    DuplicateConstraint,
    /// The relation is required and cannot hold together with the others.
    UnsatisfiableConstraint,
    /// The solver reached a state it should never be in.
    InternalSolverError(&'static str),
}

/// `cassowary::Solver::new`: a solver without relations.
#[verifier::external_body]
fn solver_new() -> (solver: cassowary::Solver) {
    cassowary::Solver::new()
}

/// `cassowary::Variable::new`: a variable that no other call has returned.
#[verifier::external_body]
fn variable_new() -> (variable: cassowary::Variable) {
    cassowary::Variable::new()
}

/// `cassowary::Expression::from_constant`: the expression that is `value`.
#[verifier::external_body]
fn constant_expression(value: u32) -> (expression: cassowary::Expression) {
    cassowary::Expression::from_constant(value.into())
}

/// `cassowary::Expression::from` a variable: the expression that is the
/// variable's position.
#[verifier::external_body]
fn variable_expression(variable: &cassowary::Variable) -> (expression: cassowary::Expression) {
    cassowary::Expression::from(*variable)
}

/// The difference of two variables, `end - start`, by the solver's `-`.
#[verifier::external_body]
fn difference(end: &cassowary::Variable, start: &cassowary::Variable) -> (expression:
    cassowary::Expression) {
    *end - *start
}

/// `expression * numerator / denominator`, by the solver's `*` and `/` on an
/// expression and a number. The two numbers become numbers of the solver
/// through `cassowary::Expression::from_constant`.
#[verifier::external_body]
fn scaled(expression: cassowary::Expression, numerator: u32, denominator: u32) -> (scaled:
    cassowary::Expression)
    requires
        denominator > 0,
{
    let numerator = cassowary::Expression::from_constant(numerator.into());
    let denominator = cassowary::Expression::from_constant(denominator.into());
    expression * numerator.constant / denominator.constant
}

/// `cassowary::Solver::add_constraint` on the constraint that
/// `cassowary::Constraint::new` makes of `left - right`, `operator` and the
/// constant of `strength`: the relation `left operator right`. Which
/// relations the solver accepts is its own affair: nothing is claimed of
/// the result.
#[verifier::external_body]
fn solver_add(
    solver: &mut cassowary::Solver,
    left: cassowary::Expression,
    operator: Operator,
    right: cassowary::Expression,
    strength: cassowary::Expression,
) -> (result: Result<(), cassowary::AddConstraintError>) {
    let operator = match operator {
        Operator::LessOrEqual => cassowary::RelationalOperator::LessOrEqual,
        Operator::Equal => cassowary::RelationalOperator::Equal,
        Operator::GreaterOrEqual => cassowary::RelationalOperator::GreaterOrEqual,
    };
    solver.add_constraint(cassowary::Constraint::new(left - right, operator, strength.constant))
}

/// Tells the three kinds of `cassowary::AddConstraintError` apart.
#[verifier::external_body]
fn error_kind(error: cassowary::AddConstraintError) -> (kind: SolveError) {
    match error {
        cassowary::AddConstraintError::DuplicateConstraint => SolveError::DuplicateConstraint,
        cassowary::AddConstraintError::UnsatisfiableConstraint => SolveError::UnsatisfiableConstraint,
        cassowary::AddConstraintError::InternalSolverError(message) => SolveError::InternalSolverError(message),
    }
}

/// `cassowary::Solver::fetch_changes`, read once: for each of `variables`
/// the position that the solver reports, rounded to the nearest cell
/// (halves away from zero) and held within the range of a coordinate, or
/// `None` where it reports none.
#[verifier::external_body]
fn solver_positions(solver: &mut cassowary::Solver, variables: &Vec<cassowary::Variable>) -> (positions:
    Vec<Option<u16>>)
    ensures
        positions.len() == variables.len(),
{
    let changes: std::collections::HashMap<_, _> = solver.fetch_changes().iter().copied().collect();
    variables.iter().map(|variable| changes.get(variable).map(|position| position.round() as u16)).collect()
}

/// The position of each variable: the one that the solver reported, and
/// the origin for a variable of which it reported nothing.
pub open spec fn settled_positions(reported: Seq<Option<u16>>) -> Seq<u16> {
    Seq::new(
        reported.len(),
        |i: int|
            match reported[i] {
                Some(position) => position,
                None => 0u16,
            },
    )
}

/// Fills in the origin for every variable of which the solver reported no
/// position.
pub fn settle(reported: &Vec<Option<u16>>) -> (positions: Vec<u16>)
    ensures
        positions@ == settled_positions(reported@),
{
    let mut positions: Vec<u16> = Vec::new();
    let mut i: usize = 0;
    while i < reported.len()
        invariant
            i <= reported.len(),
            positions@ == settled_positions(reported@).subrange(0, i as int),
        decreases reported.len() - i,
    {
        let position: u16 = match reported[i] {
            Some(position) => position,
            None => 0,
        };
        positions.push(position);
        assert(positions@ =~= settled_positions(reported@).subrange(0, i + 1));
        i += 1;
    }
    assert(settled_positions(reported@).subrange(0, reported.len() as int) =~= settled_positions(
        reported@,
    ));
    positions
}

/// One side of a relation as an expression of the solver.
fn operand_expression(variables: &Vec<cassowary::Variable>, operand: Operand) -> (expression:
    cassowary::Expression)
    requires
        operand.within(variables.len() as nat),
{
    match operand {
        Operand::Value(cells) => constant_expression(cells as u32),
        Operand::Variable(variable) => variable_expression(&variables[variable]),
        Operand::Size(element) => difference(&variables[element.end], &variables[element.start]),
        Operand::Scaled { element, numerator, denominator } => scaled(
            difference(&variables[element.end], &variables[element.start]),
            numerator,
            denominator,
        ),
    }
}

/// Hands one relation to the solver. The strength reaches the solver as
/// the constant `numerator / denominator`.
fn add_relation(
    solver: &mut cassowary::Solver,
    variables: &Vec<cassowary::Variable>,
    relation: Relation,
) -> (result: Result<(), SolveError>)
    requires
        relation.within(variables.len() as nat),
{
    let left = operand_expression(variables, relation.left);
    let right = operand_expression(variables, relation.right);
    let strength = scaled(
        constant_expression(relation.strength.numerator()),
        1,
        relation.strength.denominator(),
    );
    match solver_add(solver, left, relation.operator, right, strength) {
        Ok(()) => Ok(()),
        Err(error) => Err(error_kind(error)),
    }
}

/// Solves a linear program over `count` variables: hands the relations to a
/// fresh solver, one by one and in order, and reads the position of each
/// variable once, in cells.
///
/// The first relation that the solver refuses ends the run with its error;
/// a program without relations gives the solver nothing to refuse, and is
/// solved. Which positions the solver settles on is not stated here: it
/// weighs the relations by their strengths, and where they leave a choice
/// it makes one.
pub fn solve(count: usize, relations: &Vec<Relation>) -> (result: Result<Vec<u16>, SolveError>)
    requires
        all_within(relations@, count as nat),
    ensures
        result matches Ok(positions) ==> positions.len() == count,
        relations.len() == 0 ==> result is Ok,
{
    let mut solver = solver_new();
    let mut variables: Vec<cassowary::Variable> = Vec::new();
    while variables.len() < count
        invariant
            variables.len() <= count,
        decreases count - variables.len(),
    {
        variables.push(variable_new());
    }
    let mut i: usize = 0;
    while i < relations.len()
        invariant
            i <= relations.len(),
            variables.len() == count,
            all_within(relations@, count as nat),
        decreases relations.len() - i,
    {
        match add_relation(&mut solver, &variables, relations[i]) {
            Ok(()) => {},
            Err(error) => {
                return Err(error);
            },
        }
        i += 1;
    }
    let reported = solver_positions(&mut solver, &variables);
    Ok(settle(&reported))
}

} // verus!
