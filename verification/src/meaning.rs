//! What expressions and steps mean: the values that they have over the
//! real numbers, and that the steps of an expression compute its value.
use crate::evaluation::{
    execute_statements_spec, failure, steps_of, with_name, AssignmentView, StepView,
};
use crate::multivector::Multivector;
use crate::parsing::{BinaryOperator, ExpressionView, StatementView, UnaryOperator};
use vstd::prelude::*;

verus! {

/// The number that a digit writes.
pub open spec fn digit_value(c: char) -> nat {
    (c as u32 - '0' as u32) as nat
}

/// The number that a row of digits writes. The empty row writes zero.
pub open spec fn digits_value(digits: Seq<char>) -> nat
    decreases digits.len(),
{
    if digits.len() == 0 {
        0
    } else {
        digits_value(digits.drop_last()) * 10 + digit_value(digits.last())
    }
}

/// The power of ten with the given exponent.
pub open spec fn power_of_ten(exponent: nat) -> nat
    decreases exponent,
{
    if exponent == 0 {
        1
    } else {
        10 * power_of_ten((exponent - 1) as nat)
    }
}

/// The index of the first full stop of a literal, or its length where it
/// has none.
pub open spec fn point_index(literal: Seq<char>) -> int
    decreases literal.len(),
{
    if literal.len() == 0 || literal[0] == '.' {
        0
    } else {
        1 + point_index(literal.drop_first())
    }
}

/// The digits of a literal behind its full stop.
pub open spec fn fraction_digits(literal: Seq<char>) -> Seq<char> {
    if point_index(literal) < literal.len() {
        literal.skip(point_index(literal) + 1)
    } else {
        Seq::empty()
    }
}

/// The number that a literal writes in decimal notation: the digits before
/// the full stop count whole units, those behind it tenths, hundredths and
/// so on.
pub open spec fn literal_value(literal: Seq<char>) -> real {
    digits_value(literal.take(point_index(literal))) as real + digits_value(
        fraction_digits(literal),
    ) as real / power_of_ten(fraction_digits(literal).len()) as real
}

/// The four functions of the language that the real numbers have no
/// formula for. What is stated of values holds whatever functions stand
/// here.
pub struct Functions {
    pub sin: spec_fn(real) -> real,
    pub cos: spec_fn(real) -> real,
    pub asin: spec_fn(real) -> real,
    pub acos: spec_fn(real) -> real,
}

/// The magnitude of a multivector: the number that is its magnitude.
pub open spec fn magnitude(value: Multivector) -> real {
    choose|root: real| value.has_magnitude(root)
}

/// The image of a value under an operator with one operand. The magnitude
/// is a scalar. The four functions take the scalar part of their operand and
/// give a scalar.
pub open spec fn unary_value(
    operator: UnaryOperator,
    operand: Multivector,
    functions: Functions,
) -> Multivector {
    match operator {
        UnaryOperator::Negate => operand.neg(),
        UnaryOperator::Dual => operand.dual(),
        UnaryOperator::Reverse => operand.reverse(),
        UnaryOperator::Normalise => operand.normalised(magnitude(operand)),
        UnaryOperator::Magnitude => Multivector::scalar(magnitude(operand)),
        UnaryOperator::Sin => Multivector::scalar((functions.sin)(operand.s)),
        UnaryOperator::Cos => Multivector::scalar((functions.cos)(operand.s)),
        UnaryOperator::ASin => Multivector::scalar((functions.asin)(operand.s)),
        UnaryOperator::ACos => Multivector::scalar((functions.acos)(operand.s)),
    }
}

/// What two values combine to under a binary operator. A division gives
/// nothing.
pub open spec fn binary_value(operator: BinaryOperator, left: Multivector, right: Multivector) -> Option<
    Multivector,
> {
    match operator {
        BinaryOperator::Add => Some(left.add(right)),
        BinaryOperator::Subtract => Some(left.sub(right)),
        BinaryOperator::Multiply => Some(left.mul(right)),
        BinaryOperator::Divide => None,
        BinaryOperator::Wedge => Some(left.wedge(right)),
        BinaryOperator::Inner => Some(left.inner(right)),
        BinaryOperator::Regressive => Some(left.regressive(right)),
    }
}

/// The value of an expression where the variables have the values that
/// `environment` gives them: a name has the value of its variable, a number
/// is a scalar, and an operator is applied to the values of its operands.
/// An expression with a name that has no value or with a division has no
/// value.
pub open spec fn value_of(
    expression: ExpressionView,
    environment: Map<Seq<char>, Multivector>,
    functions: Functions,
) -> Option<Multivector>
    decreases expression,
{
    match expression {
        ExpressionView::Name { location, name } => if environment.dom().contains(name) {
            Some(environment[name])
        } else {
            None
        },
        ExpressionView::Number { location, number } => Some(
            Multivector::scalar(literal_value(number)),
        ),
        ExpressionView::Unary { location, operator, operand } => match value_of(
            *operand,
            environment,
            functions,
        ) {
            Some(value) => Some(unary_value(operator, value, functions)),
            None => None,
        },
        ExpressionView::Binary { location, left, operator, right } => match (
            value_of(*left, environment, functions),
            value_of(*right, environment, functions),
        ) {
            (Some(first), Some(second)) => binary_value(operator, first, second),
            _ => None,
        },
    }
}

/// The stack after one step, or nothing where the step cannot be made: a
/// variable without a value, an operator without its operands on the
/// stack, or a division.
pub open spec fn after_step(
    step: StepView,
    environment: Map<Seq<char>, Multivector>,
    functions: Functions,
    stack: Seq<Multivector>,
) -> Option<Seq<Multivector>> {
    match step {
        StepView::Number { number } => Some(stack.push(Multivector::scalar(literal_value(number)))),
        StepView::Variable { name } => if environment.dom().contains(name) {
            Some(stack.push(environment[name]))
        } else {
            None
        },
        StepView::Unary { operator } => if stack.len() >= 1 {
            Some(stack.drop_last().push(unary_value(operator, stack.last(), functions)))
        } else {
            None
        },
        StepView::Binary { operator } => if stack.len() >= 2 {
            match binary_value(operator, stack[stack.len() - 2], stack.last()) {
                Some(value) => Some(stack.drop_last().drop_last().push(value)),
                None => None,
            }
        } else {
            None
        },
    }
}

/// The stack after a row of steps, made one after the other.
pub open spec fn after_steps(
    steps: Seq<StepView>,
    environment: Map<Seq<char>, Multivector>,
    functions: Functions,
    stack: Seq<Multivector>,
) -> Option<Seq<Multivector>>
    decreases steps.len(),
{
    if steps.len() == 0 {
        Some(stack)
    } else {
        match after_step(steps[0], environment, functions, stack) {
            Some(next) => after_steps(steps.drop_first(), environment, functions, next),
            None => None,
        }
    }
}

/// Two rows of steps one after the other are made as one row.
pub proof fn lemma_steps_in_a_row(
    first: Seq<StepView>,
    second: Seq<StepView>,
    environment: Map<Seq<char>, Multivector>,
    functions: Functions,
    stack: Seq<Multivector>,
)
    ensures
        after_steps(first + second, environment, functions, stack) == match after_steps(
            first,
            environment, functions,
            stack,
        ) {
            Some(between) => after_steps(second, environment, functions, between),
            None => None,
        },
    decreases first.len(),
{
    if first.len() == 0 {
        assert(first + second == second);
    } else {
        assert((first + second).drop_first() == first.drop_first() + second);
        match after_step(first[0], environment, functions, stack) {
            Some(next) => {
                lemma_steps_in_a_row(first.drop_first(), second, environment, functions, next);
            },
            None => {},
        }
    }
}

/// Whether the names are those of the variables that have a value.
pub open spec fn names_the_variables(
    names: Seq<Seq<char>>,
    environment: Map<Seq<char>, Multivector>,
) -> bool {
    forall|name: Seq<char>| names.contains(name) <==> environment.dom().contains(name)
}

/// An expression has a value where its evaluation meets no error, and only
/// there.
pub proof fn lemma_value_or_failure(
    expression: ExpressionView,
    environment: Map<Seq<char>, Multivector>,
    functions: Functions,
    names: Seq<Seq<char>>,
)
    requires
        names_the_variables(names, environment),
    ensures
        value_of(expression, environment, functions) is Some <==> failure(expression, names) is None,
    decreases expression,
{
    match expression {
        ExpressionView::Name { location, name } => {},
        ExpressionView::Number { location, number } => {},
        ExpressionView::Unary { location, operator, operand } => {
            lemma_value_or_failure(*operand, environment, functions, names);
        },
        ExpressionView::Binary { location, left, operator, right } => {
            lemma_value_or_failure(*left, environment, functions, names);
            lemma_value_or_failure(*right, environment, functions, names);
        },
    }
}

/// The steps of an expression compute its value: made on any stack, they
/// leave the stack as it was with the value of the expression on top.
pub proof fn lemma_steps_compute_value(
    expression: ExpressionView,
    environment: Map<Seq<char>, Multivector>,
    functions: Functions,
    stack: Seq<Multivector>,
)
    requires
        value_of(expression, environment, functions) is Some,
    ensures
        after_steps(steps_of(expression), environment, functions, stack) == Some(
            stack.push(value_of(expression, environment, functions)->0),
        ),
    decreases expression,
{
    reveal_with_fuel(after_steps, 2);
    match expression {
        ExpressionView::Name { location, name } => {
            let steps = steps_of(expression);
            assert(steps.drop_first().len() == 0);
        },
        ExpressionView::Number { location, number } => {
            let steps = steps_of(expression);
            assert(steps.drop_first().len() == 0);
        },
        ExpressionView::Unary { location, operator, operand } => {
            let last = seq![StepView::Unary { operator }];
            let value = value_of(*operand, environment, functions)->0;
            lemma_steps_compute_value(*operand, environment, functions, stack);
            assert(steps_of(expression) == steps_of(*operand) + last);
            lemma_steps_in_a_row(steps_of(*operand), last, environment, functions, stack);
            assert(last.drop_first().len() == 0);
            assert(stack.push(value).drop_last() == stack);
        },
        ExpressionView::Binary { location, left, operator, right } => {
            let last = seq![StepView::Binary { operator }];
            let first = value_of(*left, environment, functions)->0;
            let second = value_of(*right, environment, functions)->0;
            lemma_steps_compute_value(*left, environment, functions, stack);
            lemma_steps_compute_value(*right, environment, functions, stack.push(first));
            lemma_steps_in_a_row(steps_of(*left), steps_of(*right), environment, functions, stack);
            assert(steps_of(expression) == (steps_of(*left) + steps_of(*right)) + last);
            lemma_steps_in_a_row(steps_of(*left) + steps_of(*right), last, environment, functions, stack);
            assert(last.drop_first().len() == 0);
            let full = stack.push(first).push(second);
            assert(full.drop_last().drop_last() == stack);
        },
    }
}

/// The values of the variables after a list of statements, taken in their
/// order: a statement whose expression has a value gives it to its name, so
/// that the statements behind it find it there; any other statement changes
/// nothing.
pub open spec fn environment_after_statements(
    statements: Seq<StatementView>,
    environment: Map<Seq<char>, Multivector>,
    functions: Functions,
) -> Map<Seq<char>, Multivector>
    decreases statements.len(),
{
    if statements.len() == 0 {
        environment
    } else {
        let before = environment_after_statements(statements.drop_last(), environment, functions);
        match value_of(statements.last().value, before, functions) {
            Some(value) => before.insert(statements.last().name, value),
            None => before,
        }
    }
}

/// The values of the variables after a list of assignments, made in their
/// order: the steps of an assignment are made on an empty stack, and the
/// value that they leave on top goes to the name.
pub open spec fn environment_after_assignments(
    assignments: Seq<AssignmentView>,
    environment: Map<Seq<char>, Multivector>,
    functions: Functions,
) -> Map<Seq<char>, Multivector>
    decreases assignments.len(),
{
    if assignments.len() == 0 {
        environment
    } else {
        let before = environment_after_assignments(assignments.drop_last(), environment, functions);
        match after_steps(assignments.last().steps, before, functions, Seq::empty()) {
            Some(stack) => if stack.len() > 0 {
                before.insert(assignments.last().name, stack.last())
            } else {
                before
            },
            None => before,
        }
    }
}

/// The assignments that a list of statements comes to carry the statements
/// out: made in their order, they give the variables the values that the
/// statements give them; the names afterwards are those of the variables
/// that have a value then; and every statement has made an assignment or
/// given an error.
pub proof fn lemma_assignments_carry_out_statements(
    statements: Seq<StatementView>,
    environment: Map<Seq<char>, Multivector>,
    functions: Functions,
    names: Seq<Seq<char>>,
)
    requires
        names_the_variables(names, environment),
    ensures
        environment_after_assignments(
            execute_statements_spec(statements, names).assignments,
            environment, functions,
        ) == environment_after_statements(statements, environment, functions),
        names_the_variables(
            execute_statements_spec(statements, names).names,
            environment_after_statements(statements, environment, functions),
        ),
        execute_statements_spec(statements, names).assignments.len() + execute_statements_spec(
            statements,
            names,
        ).errors.len() == statements.len(),
    decreases statements.len(),
{
    if statements.len() > 0 {
        let earlier = statements.drop_last();
        let statement = statements.last();
        lemma_assignments_carry_out_statements(earlier, environment, functions, names);
        let before = environment_after_statements(earlier, environment, functions);
        let execution = execute_statements_spec(earlier, names);
        lemma_value_or_failure(statement.value, before, functions, execution.names);
        if value_of(statement.value, before, functions) is Some {
            let value = value_of(statement.value, before, functions)->0;
            let assignment = AssignmentView {
                name: statement.name,
                steps: steps_of(statement.value),
            };
            lemma_steps_compute_value(statement.value, before, functions, Seq::empty());
            let all = execution.assignments.push(assignment);
            assert(all.drop_last() == execution.assignments);
            assert(all.last() == assignment);
            assert(Seq::<Multivector>::empty().push(value).last() == value);
            let after = before.insert(statement.name, value);
            let later = with_name(execution.names, statement.name);
            assert forall|name: Seq<char>| later.contains(name) <==> after.dom().contains(
                name,
            ) by {
                if execution.names.contains(statement.name) {
                } else {
                    let last = execution.names.len() as int;
                    assert(later[last] == statement.name);
                    if later.contains(name) {
                        let k = choose|k: int| 0 <= k < later.len() && later[k] == name;
                        if k < last {
                            assert(execution.names[k] == name);
                        }
                    }
                    if execution.names.contains(name) {
                        let k = choose|k: int|
                            0 <= k < execution.names.len() && execution.names[k] == name;
                        assert(later[k] == name);
                    }
                }
            }
        }
    }
}

} // verus!
