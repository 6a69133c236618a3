//! The evaluator: from an expression to the steps that compute its value,
//! and from a script to the assignments that it makes and the errors that
//! it meets. The steps are carried out on numbers by whoever holds them.
use crate::lexer::Location;
use crate::parsing::{
    parse, parse_source, statement_views, AstExpression, AstExpressionKind, AstStatement,
    AstStatementKind, BinaryOperator, ExpressionView, StatementView, UnaryOperator,
};
use vstd::prelude::*;
use vstd::string::StringExecFns;

verus! {

/// One step of an evaluation. The steps work on a stack of values: a number
/// and a variable put a value on it, a unary operator replaces the value on
/// top by its image, and a binary operator replaces the two values on top,
/// of which the upper is the right operand, by what they combine to.
#[derive(Debug, Clone, PartialEq, Eq)]
pub enum Step {
    Number { number: String },
    Variable { name: String },
    Unary { operator: UnaryOperator },
    Binary { operator: BinaryOperator },
}

/// A step with the texts it carries as sequences of characters.
pub enum StepView {
    Number { number: Seq<char> },
    Variable { name: Seq<char> },
    Unary { operator: UnaryOperator },
    Binary { operator: BinaryOperator },
}

impl View for Step {
    type V = StepView;

    open spec fn view(&self) -> StepView {
        match self {
            Step::Number { number } => StepView::Number { number: number@ },
            Step::Variable { name } => StepView::Variable { name: name@ },
            Step::Unary { operator } => StepView::Unary { operator: *operator },
            Step::Binary { operator } => StepView::Binary { operator: *operator },
        }
    }
}

/// The views of the steps of a list, in its order.
pub open spec fn step_views(steps: Seq<Step>) -> Seq<StepView> {
    Seq::new(steps.len(), |i: int| steps[i]@)
}

/// The names of the variables of a list, in its order.
pub open spec fn names_of(variables: Seq<String>) -> Seq<Seq<char>> {
    Seq::new(variables.len(), |i: int| variables[i]@)
}

/// The names with one more at the end, where it is not among them yet.
pub open spec fn with_name(names: Seq<Seq<char>>, name: Seq<char>) -> Seq<Seq<char>> {
    if names.contains(name) {
        names
    } else {
        names.push(name)
    }
}

/// The message for a name that no variable has.
pub open spec fn unknown_variable(location: Location, name: Seq<char>) -> Seq<char> {
    location.text() + ": Unknown variable '"@ + name + seq!['\'']
}

/// The message for a division.
pub open spec fn divide_unimplemented(location: Location) -> Seq<char> {
    location.text() + ": Divide unimplemented"@
}

/// The steps that compute the value of an expression: those of its
/// operands from left to right, then its own.
pub open spec fn steps_of(expression: ExpressionView) -> Seq<StepView>
    decreases expression,
{
    match expression {
        ExpressionView::Name { location, name } => seq![StepView::Variable { name }],
        ExpressionView::Number { location, number } => seq![StepView::Number { number }],
        ExpressionView::Unary { location, operator, operand } => steps_of(*operand).push(
            StepView::Unary { operator },
        ),
        ExpressionView::Binary { location, left, operator, right } => (steps_of(*left) + steps_of(
            *right,
        )).push(StepView::Binary { operator }),
    }
}

/// The error that the evaluation of an expression meets first, if it meets
/// one, where `names` are the names of the variables that have a value. The
/// operands are evaluated from left to right before their operator; a name
/// without a value and a division are errors.
pub open spec fn failure(expression: ExpressionView, names: Seq<Seq<char>>) -> Option<Seq<char>>
    decreases expression,
{
    match expression {
        ExpressionView::Name { location, name } => if names.contains(name) {
            None
        } else {
            Some(unknown_variable(location, name))
        },
        ExpressionView::Number { location, number } => None,
        ExpressionView::Unary { location, operator, operand } => failure(*operand, names),
        ExpressionView::Binary { location, left, operator, right } => if failure(*left, names)
            is Some {
            failure(*left, names)
        } else if failure(*right, names) is Some {
            failure(*right, names)
        } else if operator == BinaryOperator::Divide {
            Some(divide_unimplemented(location))
        } else {
            None
        },
    }
}

/// Whether a variable of the given name is in the list.
fn is_bound(variables: &Vec<String>, name: &String) -> (r: bool)
    ensures
        r == names_of(variables@).contains(name@),
{
    let mut i: usize = 0;
    while i < variables.len()
        invariant
            i <= variables.len(),
            forall|k: int| 0 <= k < i ==> names_of(variables@)[k] != name@,
        decreases variables.len() - i,
    {
        if variables[i] == *name {
            assert(names_of(variables@)[i as int] == name@);
            return true;
        }
        i += 1;
    }
    false
}

fn unknown_variable_message(location: &Location, name: &String) -> (s: String)
    ensures
        s@ == unknown_variable(*location, name@),
{
    let mut s = location.to_string();
    s.append(": Unknown variable '");
    s.append(name.as_str());
    s.push('\'');
    s
}

fn divide_unimplemented_message(location: &Location) -> (s: String)
    ensures
        s@ == divide_unimplemented(*location),
{
    let mut s = location.to_string();
    s.append(": Divide unimplemented");
    s
}

/// Appends the steps of `expression` to `steps`, or gives the first error.
fn evaluate_into(expression: &AstExpression, variables: &Vec<String>, steps: &mut Vec<Step>) -> (r:
    Result<(), String>)
    ensures
        match r {
            Ok(_) => failure(expression@, names_of(variables@)) is None && step_views(final(steps)@)
                == step_views(old(steps)@) + steps_of(expression@),
            Err(message) => failure(expression@, names_of(variables@)) == Some(message@),
        },
    decreases expression,
{
    match &expression.kind {
        AstExpressionKind::Name { name } => {
            if !is_bound(variables, name) {
                return Err(unknown_variable_message(&expression.location, name));
            }
            steps.push(Step::Variable { name: name.clone() });
            assert(step_views(steps@) == step_views(old(steps)@) + steps_of(expression@));
            Ok(())
        },
        AstExpressionKind::Number { number } => {
            steps.push(Step::Number { number: number.clone() });
            assert(step_views(steps@) == step_views(old(steps)@) + steps_of(expression@));
            Ok(())
        },
        AstExpressionKind::Unary { operator, operand } => {
            match evaluate_into(&**operand, variables, steps) {
                Ok(_) => {},
                Err(message) => {
                    return Err(message);
                },
            }
            let ghost middle = steps@;
            steps.push(Step::Unary { operator: *operator });
            assert(step_views(steps@) == step_views(middle).push(
                StepView::Unary { operator: *operator },
            ));
            assert(step_views(steps@) == step_views(old(steps)@) + steps_of(expression@));
            Ok(())
        },
        AstExpressionKind::Binary { left, operator, right } => {
            match evaluate_into(&**left, variables, steps) {
                Ok(_) => {},
                Err(message) => {
                    return Err(message);
                },
            }
            match evaluate_into(&**right, variables, steps) {
                Ok(_) => {},
                Err(message) => {
                    return Err(message);
                },
            }
            match operator {
                BinaryOperator::Divide => {
                    return Err(divide_unimplemented_message(&expression.location));
                },
                _ => {},
            }
            let ghost middle = steps@;
            steps.push(Step::Binary { operator: *operator });
            assert(step_views(steps@) == step_views(middle).push(
                StepView::Binary { operator: *operator },
            ));
            assert(step_views(steps@) == step_views(old(steps)@) + steps_of(expression@));
            Ok(())
        },
    }
}

/// Evaluates an expression as far as that can be done without its numbers:
/// it gives the steps that compute the value, where every name in the
/// expression is the name of one of the `variables` and nothing is divided,
/// and else the message of the first error.
pub fn evaluate_expression(expression: &AstExpression, variables: &Vec<String>) -> (r: Result<
    Vec<Step>,
    String,
>)
    ensures
        match r {
            Ok(steps) => failure(expression@, names_of(variables@)) is None && step_views(steps@)
                == steps_of(expression@),
            Err(message) => failure(expression@, names_of(variables@)) == Some(message@),
        },
{
    let mut steps: Vec<Step> = Vec::new();
    match evaluate_into(expression, variables, &mut steps) {
        Ok(_) => {
            assert(step_views(Seq::<Step>::empty()) + steps_of(expression@) == steps_of(
                expression@,
            ));
            Ok(steps)
        },
        Err(message) => Err(message),
    }
}

/// An assignment that a script makes: the name that gets a value, and the
/// steps that compute the value.
#[derive(Debug, Clone, PartialEq, Eq)]
pub struct Assignment {
    pub name: String,
    pub steps: Vec<Step>,
}

/// An assignment with the views of its parts.
pub struct AssignmentView {
    pub name: Seq<char>,
    pub steps: Seq<StepView>,
}

impl View for Assignment {
    type V = AssignmentView;

    open spec fn view(&self) -> AssignmentView {
        AssignmentView { name: self.name@, steps: step_views(self.steps@) }
    }
}

/// What a script comes to: the assignments that it makes, in their order,
/// and the messages of the errors that it meets, in theirs.
#[derive(Debug, Clone, PartialEq, Eq)]
pub struct Execution {
    pub assignments: Vec<Assignment>,
    pub errors: Vec<String>,
}

/// An execution with the views of its parts, and the names of the variables
/// after it, in their order.
pub struct ExecutionView {
    pub assignments: Seq<AssignmentView>,
    pub errors: Seq<Seq<char>>,
    pub names: Seq<Seq<char>>,
}

impl Execution {
    /// The execution with the views of its parts, where `names` are the
    /// names of the variables after it.
    pub open spec fn view_with(self, names: Seq<Seq<char>>) -> ExecutionView {
        ExecutionView {
            assignments: Seq::new(self.assignments@.len(), |i: int| self.assignments@[i]@),
            errors: Seq::new(self.errors@.len(), |i: int| self.errors@[i]@),
            names,
        }
    }
}

/// What a list of statements comes to, where `names` are the names that
/// have a value before it. The statements are taken in their order. One
/// whose expression can be evaluated makes an assignment, and its name has
/// a value from then on. One whose expression cannot gives its error and
/// changes nothing else; the statements behind it are still taken.
pub open spec fn execute_statements_spec(
    statements: Seq<StatementView>,
    names: Seq<Seq<char>>,
) -> ExecutionView
    decreases statements.len(),
{
    if statements.len() == 0 {
        ExecutionView { assignments: Seq::empty(), errors: Seq::empty(), names }
    } else {
        let before = execute_statements_spec(statements.drop_last(), names);
        let statement = statements.last();
        match failure(statement.value, before.names) {
            Some(message) => ExecutionView {
                assignments: before.assignments,
                errors: before.errors.push(message),
                names: before.names,
            },
            None => ExecutionView {
                assignments: before.assignments.push(
                    AssignmentView { name: statement.name, steps: steps_of(statement.value) },
                ),
                errors: before.errors,
                names: with_name(before.names, statement.name),
            },
        }
    }
}

/// What a source text comes to, where `names` are the names that have a
/// value before it. A text that cannot be parsed gives the error of the
/// parser and nothing else: none of its statements is taken.
pub open spec fn execute_spec(source: Seq<char>, names: Seq<Seq<char>>) -> ExecutionView {
    match parse_source(source) {
        Ok(statements) => execute_statements_spec(statements, names),
        Err(error) => ExecutionView {
            assignments: Seq::empty(),
            errors: seq![error.text()],
            names,
        },
    }
}

/// A variable of the given name is in the list from now on: it is put at
/// the end where it is not in the list yet.
fn bind(variables: &mut Vec<String>, name: &String)
    ensures
        names_of(final(variables)@) == with_name(names_of(old(variables)@), name@),
{
    if !is_bound(variables, name) {
        variables.push(name.clone());
        assert(names_of(variables@) == names_of(old(variables)@).push(name@));
    }
}

/// Takes the statements of a script in their order. One whose expression
/// can be evaluated makes an assignment, and a variable of its name is in
/// the list from then on; one whose expression cannot gives its error.
pub fn execute_statements(statements: &Vec<AstStatement>, variables: &mut Vec<String>) -> (r:
    Execution)
    ensures
        r.view_with(names_of(final(variables)@)) == execute_statements_spec(
            statement_views(statements@),
            names_of(old(variables)@),
        ),
{
    let mut assignments: Vec<Assignment> = Vec::new();
    let mut errors: Vec<String> = Vec::new();
    let ghost views = statement_views(statements@);
    let mut i: usize = 0;
    proof {
        let first = (Execution { assignments, errors }).view_with(names_of(variables@));
        assert(first.assignments == Seq::<AssignmentView>::empty());
        assert(first.errors == Seq::<Seq<char>>::empty());
    }
    while i < statements.len()
        invariant
            i <= statements.len(),
            views == statement_views(statements@),
            (Execution { assignments, errors }).view_with(names_of(variables@))
                == execute_statements_spec(views.take(i as int), names_of(old(variables)@)),
        decreases statements.len() - i,
    {
        let ghost before = (Execution { assignments, errors }).view_with(names_of(variables@));
        proof {
            assert(views.take(i + 1).drop_last() == views.take(i as int));
            assert(views.take(i + 1).last() == statements@[i as int]@);
        }
        match &statements[i].kind {
            AstStatementKind::Assignment { name, value } => {
                match evaluate_expression(value, variables) {
                    Ok(steps) => {
                        bind(variables, name);
                        assignments.push(Assignment { name: name.clone(), steps });
                    },
                    Err(message) => {
                        errors.push(message);
                    },
                }
            },
        }
        i += 1;
        proof {
            let after = (Execution { assignments, errors }).view_with(names_of(variables@));
            let wanted = execute_statements_spec(views.take(i as int), names_of(old(variables)@));
            assert(after.assignments == wanted.assignments);
            assert(after.errors == wanted.errors);
        }
    }
    assert(views.take(statements@.len() as int) == views);
    Execution { assignments, errors }
}

/// Runs a script: parses the source and takes its statements in their
/// order. A source that cannot be parsed gives the error of the parser as
/// the only error; then no assignment is made and the variables stay as
/// they are.
pub fn execute(source: &str, variables: &mut Vec<String>) -> (r: Execution)
    ensures
        r.view_with(names_of(final(variables)@)) == execute_spec(source@, names_of(old(variables)@)),
{
    match parse(source) {
        Ok(statements) => execute_statements(&statements, variables),
        Err(error) => {
            let mut errors: Vec<String> = Vec::new();
            errors.push(error.to_string());
            let r = Execution { assignments: Vec::new(), errors };
            assert(r.view_with(names_of(variables@)).errors == seq![error@.text()]);
            assert(r.view_with(names_of(variables@)).assignments == Seq::<AssignmentView>::empty());
            r
        },
    }
}

} // verus!
