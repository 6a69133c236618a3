use ga_sandbox::evaluation::{evaluate_expression, execute, execute_statements, Step};
use ga_sandbox::multivector::{Blade, BladeMap, Product, Sign};
use ga_sandbox::lexer::Location;
use ga_sandbox::parsing::{
    parse, AstExpression, AstExpressionKind, AstStatementKind, BinaryOperator, UnaryOperator,
};
use std::collections::BTreeMap;

type Components = [f32; 8];

const ZERO: Components = [0.0; 8];

fn scalar(value: f32) -> Components {
    let mut out = ZERO;
    out[Blade::S.index()] = value;
    out
}

fn basis(blade: Blade) -> Components {
    let mut out = ZERO;
    out[blade.index()] = 1.0;
    out
}

fn signed(sign: Sign, value: f32) -> f32 {
    match sign {
        Sign::Minus => -value,
        Sign::Zero => 0.0,
        Sign::Plus => value,
    }
}

fn combine(product: Product, a: &Components, b: &Components) -> Components {
    let mut out = ZERO;
    for i in Blade::all() {
        for j in Blade::all() {
            let term = i.combine(product, j);
            out[term.blade.index()] += signed(term.sign, a[i.index()] * b[j.index()]);
        }
    }
    out
}

fn map(map: BladeMap, a: &Components) -> Components {
    let mut out = ZERO;
    for i in Blade::all() {
        let term = i.map(map);
        out[term.blade.index()] += signed(term.sign, a[i.index()]);
    }
    out
}

fn magnitude(a: &Components) -> f32 {
    combine(Product::Geometric, a, &map(BladeMap::Reverse, a))[Blade::S.index()].sqrt()
}

/// Makes the steps on a stack of values and gives the value that is left.
fn compute(steps: &[Step], values: &BTreeMap<String, Components>) -> Components {
    let mut stack: Vec<Components> = Vec::new();
    for step in steps {
        match step {
            Step::Number { number } => stack.push(scalar(number.parse().unwrap())),
            Step::Variable { name } => stack.push(values[name]),
            Step::Unary { operator } => {
                let operand = stack.pop().unwrap();
                stack.push(match operator {
                    UnaryOperator::Negate => operand.map(|x| -x),
                    UnaryOperator::Dual => map(BladeMap::Dual, &operand),
                    UnaryOperator::Reverse => map(BladeMap::Reverse, &operand),
                    UnaryOperator::Normalise => {
                        let magnitude = magnitude(&operand);
                        if magnitude >= 0.0001 {
                            operand.map(|x| x / magnitude)
                        } else {
                            operand
                        }
                    }
                    UnaryOperator::Magnitude => scalar(magnitude(&operand)),
                    UnaryOperator::Sin => scalar(operand[0].sin()),
                    UnaryOperator::Cos => scalar(operand[0].cos()),
                    UnaryOperator::ASin => scalar(operand[0].asin()),
                    UnaryOperator::ACos => scalar(operand[0].acos()),
                });
            }
            Step::Binary { operator } => {
                let right = stack.pop().unwrap();
                let left = stack.pop().unwrap();
                let mut sum = ZERO;
                let mut difference = ZERO;
                for i in 0..8 {
                    sum[i] = left[i] + right[i];
                    difference[i] = left[i] - right[i];
                }
                stack.push(match operator {
                    BinaryOperator::Add => sum,
                    BinaryOperator::Subtract => difference,
                    BinaryOperator::Multiply => combine(Product::Geometric, &left, &right),
                    BinaryOperator::Wedge => combine(Product::Wedge, &left, &right),
                    BinaryOperator::Inner => combine(Product::Inner, &left, &right),
                    BinaryOperator::Regressive => combine(Product::Regressive, &left, &right),
                    BinaryOperator::Divide => panic!("a division is no step"),
                });
            }
        }
    }
    assert_eq!(stack.len(), 1);
    stack[0]
}

/// Runs a script on the given values and gives the errors.
fn run(source: &str, values: &mut BTreeMap<String, Components>) -> Vec<String> {
    let mut variables: Vec<String> = values.keys().cloned().collect();
    let execution = execute(source, &mut variables);
    for assignment in &execution.assignments {
        let value = compute(&assignment.steps, values);
        values.insert(assignment.name.clone(), value);
    }
    let mut bound: Vec<String> = values.keys().cloned().collect();
    bound.sort();
    variables.sort();
    assert_eq!(variables, bound);
    execution.errors
}

fn basis_vectors() -> BTreeMap<String, Components> {
    let mut values = BTreeMap::new();
    values.insert("e0".to_string(), basis(Blade::E0));
    values.insert("e1".to_string(), basis(Blade::E1));
    values.insert("e2".to_string(), basis(Blade::E2));
    values
}

fn variable(name: &str) -> Step {
    Step::Variable { name: name.to_string() }
}

fn number(literal: &str) -> Step {
    Step::Number { number: literal.to_string() }
}

fn steps(source: &str, variables: &[&str]) -> Result<Vec<Step>, String> {
    let statements = parse(source).unwrap();
    let variables: Vec<String> = variables.iter().map(|name| name.to_string()).collect();
    match &statements[0].kind {
        AstStatementKind::Assignment { name: _, value } => evaluate_expression(value, &variables),
    }
}

#[test]
fn the_steps_of_an_expression_take_the_operands_before_the_operator() {
    assert_eq!(
        steps("x = 1 + 2 * 3;", &[]),
        Ok(vec![
            number("1"),
            number("2"),
            number("3"),
            Step::Binary { operator: BinaryOperator::Multiply },
            Step::Binary { operator: BinaryOperator::Add },
        ])
    );
    assert_eq!(
        steps("x = -a ^ !b;", &["b", "a"]),
        Ok(vec![
            variable("a"),
            Step::Unary { operator: UnaryOperator::Negate },
            variable("b"),
            Step::Unary { operator: UnaryOperator::Dual },
            Step::Binary { operator: BinaryOperator::Wedge },
        ])
    );
    assert_eq!(
        steps("x = ~(a - b) | 2.5 & a;", &["a", "b"]),
        Ok(vec![
            variable("a"),
            variable("b"),
            Step::Binary { operator: BinaryOperator::Subtract },
            Step::Unary { operator: UnaryOperator::Reverse },
            number("2.5"),
            Step::Binary { operator: BinaryOperator::Inner },
            variable("a"),
            Step::Binary { operator: BinaryOperator::Regressive },
        ])
    );
}

#[test]
fn a_product_is_computed_before_the_sum_around_it() {
    let mut values = BTreeMap::new();
    assert_eq!(run("x = 1 + 2 * 3;", &mut values), Vec::<String>::new());
    assert_eq!(values["x"], scalar(7.0));
    assert_eq!(values.len(), 1);
}

#[test]
fn a_prefix_minus_negates_its_operand_before_the_wedge() {
    let mut values = basis_vectors();
    assert_eq!(run("x = -e1 ^ e2;", &mut values), Vec::<String>::new());
    assert_eq!(values["x"], basis(Blade::E12).map(|x| -x));
    assert_eq!(run("y = -(e2 ^ e1);", &mut values), Vec::<String>::new());
    assert_eq!(values["y"], basis(Blade::E12));
}

#[test]
fn an_unknown_variable_is_an_error_at_its_name() {
    let mut values = BTreeMap::new();
    assert_eq!(run("x = y;", &mut values), vec!["1:5: Unknown variable 'y'".to_string()]);
    assert!(values.is_empty());
    assert_eq!(steps("x = y;", &[]), Err("1:5: Unknown variable 'y'".to_string()));
    assert_eq!(steps("x = y;", &["x", "yy"]), Err("1:5: Unknown variable 'y'".to_string()));
    assert_eq!(steps("x = y;", &["x", "y"]), Ok(vec![variable("y")]));
}

#[test]
fn a_division_is_an_error_at_its_operator() {
    let mut values = BTreeMap::new();
    assert_eq!(run("x = 1 / 2;", &mut values), vec!["1:7: Divide unimplemented".to_string()]);
    assert!(values.is_empty());
    let mut values = basis_vectors();
    assert_eq!(
        run("x = (e1 + e2) / e0;", &mut values),
        vec!["1:15: Divide unimplemented".to_string()]
    );
    assert_eq!(values.len(), 3);
}

#[test]
fn the_operands_fail_before_their_operator() {
    assert_eq!(steps("x = a / b;", &["b"]), Err("1:5: Unknown variable 'a'".to_string()));
    assert_eq!(steps("x = a / b;", &["a"]), Err("1:9: Unknown variable 'b'".to_string()));
    assert_eq!(steps("x = a / b;", &["a", "b"]), Err("1:7: Divide unimplemented".to_string()));
    assert_eq!(steps("x = a + b;", &[]), Err("1:5: Unknown variable 'a'".to_string()));
    assert_eq!(steps("x = 1 / 2 + q;", &[]), Err("1:7: Divide unimplemented".to_string()));
    assert_eq!(steps("x = -(1 / 2);", &[]), Err("1:9: Divide unimplemented".to_string()));
    assert_eq!(
        steps("x = 1 +\n  z;", &["x"]),
        Err("2:3: Unknown variable 'z'".to_string())
    );
}

#[test]
fn a_later_statement_sees_the_earlier_assignments() {
    let mut values = BTreeMap::new();
    assert_eq!(run("a = 2; b = a + 1;", &mut values), Vec::<String>::new());
    assert_eq!(values["a"], scalar(2.0));
    assert_eq!(values["b"], scalar(3.0));
    assert_eq!(values.len(), 2);
}

#[test]
fn an_earlier_statement_does_not_see_the_later_assignments() {
    let mut values = BTreeMap::new();
    assert_eq!(
        run("b = a + 1; a = 2;", &mut values),
        vec!["1:5: Unknown variable 'a'".to_string()]
    );
    assert_eq!(values["a"], scalar(2.0));
    assert_eq!(values.len(), 1);
}

#[test]
fn an_assignment_may_use_the_old_value_of_its_name() {
    let mut values = BTreeMap::new();
    values.insert("a".to_string(), scalar(5.0));
    assert_eq!(run("a = a * a; a = a - 1;", &mut values), Vec::<String>::new());
    assert_eq!(values["a"], scalar(24.0));
    let mut values = BTreeMap::new();
    assert_eq!(run("a = a;", &mut values), vec!["1:5: Unknown variable 'a'".to_string()]);
}

#[test]
fn a_failed_statement_leaves_its_name_as_it_was() {
    let mut values = BTreeMap::new();
    values.insert("a".to_string(), scalar(5.0));
    assert_eq!(
        run("a = q; b = a + 1; c = 1 / b; d = b;", &mut values),
        vec!["1:5: Unknown variable 'q'".to_string(), "1:25: Divide unimplemented".to_string()]
    );
    assert_eq!(values["a"], scalar(5.0));
    assert_eq!(values["b"], scalar(6.0));
    assert_eq!(values["d"], scalar(6.0));
    assert_eq!(values.len(), 3);
}

#[test]
fn a_source_that_cannot_be_parsed_makes_no_assignment() {
    let mut values = BTreeMap::new();
    values.insert("a".to_string(), scalar(5.0));
    assert_eq!(run("a = 1; b = 2; c = ;", &mut values), vec!["1:19: Unexpected token ';'".to_string()]);
    assert_eq!(values["a"], scalar(5.0));
    assert_eq!(values.len(), 1);
    assert_eq!(run("a = 1; $", &mut values), vec!["1:8: Unexpected character '$'".to_string()]);
    assert_eq!(run("a = 1", &mut values), vec!["1:6: Unexpected end of input".to_string()]);
    assert_eq!(run("a = 1.2.3;", &mut values), vec!["1:5: Invalid number".to_string()]);
    assert_eq!(values["a"], scalar(5.0));
}

#[test]
fn an_empty_source_changes_nothing() {
    let mut variables = vec!["a".to_string()];
    let execution = execute("", &mut variables);
    assert!(execution.assignments.is_empty());
    assert!(execution.errors.is_empty());
    assert_eq!(variables, vec!["a".to_string()]);
}

#[test]
fn the_names_of_the_assignments_join_the_variables_once() {
    let mut variables = vec!["b".to_string()];
    let execution = execute("a = 1; b = a; a = b; c = q;", &mut variables);
    let names: Vec<&str> =
        execution.assignments.iter().map(|assignment| assignment.name.as_str()).collect();
    assert_eq!(names, vec!["a", "b", "a"]);
    assert_eq!(variables, vec!["b".to_string(), "a".to_string()]);
    assert_eq!(execution.errors, vec!["1:26: Unknown variable 'q'".to_string()]);
}

#[test]
fn statements_that_were_parsed_before_are_taken_as_a_source_is() {
    let statements = parse("a = e1 * e1; b = a / a; c = a;").unwrap();
    let mut variables = vec!["e1".to_string()];
    let execution = execute_statements(&statements, &mut variables);
    let mut again = vec!["e1".to_string()];
    assert_eq!(execution, execute("a = e1 * e1; b = a / a; c = a;", &mut again));
    assert_eq!(variables, again);
    assert_eq!(execution.assignments.len(), 2);
    assert_eq!(execution.assignments[0].steps.len(), 3);
    assert_eq!(execution.errors, vec!["1:20: Divide unimplemented".to_string()]);
}

#[test]
fn numbers_with_a_fraction_are_scalars() {
    let mut values = BTreeMap::new();
    assert_eq!(run("x = 1.5 * 4 - 0.25; y = 3. + 007;", &mut values), Vec::<String>::new());
    assert_eq!(values["x"], scalar(5.75));
    assert_eq!(values["y"], scalar(10.0));
}

#[test]
fn the_products_of_the_basis_vectors_are_computed_from_a_script() {
    let mut values = basis_vectors();
    let errors = run(
        "a = e0 * e0; b = e1 * e1; c = e2 * e2; d = e1 * e2; f = e2 * e1; g = e1 ^ e1; h = e1 | e1;",
        &mut values,
    );
    assert_eq!(errors, Vec::<String>::new());
    assert_eq!(values["a"], ZERO);
    assert_eq!(values["b"], scalar(1.0));
    assert_eq!(values["c"], scalar(1.0));
    assert_eq!(values["d"], basis(Blade::E12));
    assert_eq!(values["f"], basis(Blade::E12).map(|x| -x));
    assert_eq!(values["g"], ZERO);
    assert_eq!(values["h"], scalar(1.0));
}

#[test]
fn the_dual_and_the_reverse_are_computed_from_a_script() {
    let mut values = basis_vectors();
    let errors = run("p = e0 ^ e1 + 2 * (e1 ^ e2); q = !p; r = ~p; s = !e1 & !e2;", &mut values);
    assert_eq!(errors, Vec::<String>::new());
    assert_eq!(values["p"], [0.0, 0.0, 0.0, 0.0, 1.0, 0.0, 2.0, 0.0]);
    assert_eq!(values["q"], [0.0, 2.0, 0.0, 1.0, 0.0, 0.0, 0.0, 0.0]);
    assert_eq!(values["r"], [0.0, 0.0, 0.0, 0.0, -1.0, 0.0, -2.0, 0.0]);
    assert_eq!(values["s"], [0.0, 1.0, 0.0, 0.0, 0.0, 0.0, 0.0, 0.0]);
}

fn function(operator: UnaryOperator, operand: AstExpression) -> AstExpression {
    AstExpression {
        location: Location { position: 0, line: 1, column: 1 },
        kind: AstExpressionKind::Unary { operator, operand: Box::new(operand) },
    }
}

fn named(name: &str) -> AstExpression {
    AstExpression {
        location: Location { position: 10, line: 2, column: 4 },
        kind: AstExpressionKind::Name { name: name.to_string() },
    }
}

#[test]
fn the_functions_are_steps_as_the_prefix_operators_are() {
    let expression = function(UnaryOperator::Magnitude, function(UnaryOperator::Normalise, named("a")));
    assert_eq!(
        evaluate_expression(&expression, &vec!["a".to_string()]),
        Ok(vec![
            variable("a"),
            Step::Unary { operator: UnaryOperator::Normalise },
            Step::Unary { operator: UnaryOperator::Magnitude },
        ])
    );
    assert_eq!(
        evaluate_expression(&function(UnaryOperator::Sin, named("a")), &vec![]),
        Err("2:4: Unknown variable 'a'".to_string())
    );
}

#[test]
fn the_functions_are_computed_on_the_scalar_part() {
    let mut values = BTreeMap::new();
    values.insert("a".to_string(), [0.5, 3.0, 0.0, 0.0, 7.0, 0.0, 0.0, 0.0]);
    let value = |operator: UnaryOperator| -> Components {
        let steps = evaluate_expression(&function(operator, named("a")), &vec!["a".to_string()]);
        compute(&steps.unwrap(), &values)
    };
    assert_eq!(value(UnaryOperator::Sin), scalar(0.5f32.sin()));
    assert_eq!(value(UnaryOperator::Cos), scalar(0.5f32.cos()));
    assert_eq!(value(UnaryOperator::ASin), scalar(0.5f32.asin()));
    assert_eq!(value(UnaryOperator::ACos), scalar(0.5f32.acos()));
    assert_eq!(value(UnaryOperator::Magnitude), scalar(0.5));
    assert_eq!(value(UnaryOperator::Normalise), [1.0, 6.0, 0.0, 0.0, 14.0, 0.0, 0.0, 0.0]);
}
