use lox::expr::{
    BinaryOp, BinaryOpType, Expr, Literal, LogicalOp, SourceLocation, Stmt, Symbol, UnaryOp,
    UnaryOpType,
};
use lox::front_end::parse_source;
use lox::number::{Answers, ArithOp, Number, Request};
use lox::tree_interpreter::{
    instance_of, Environment, Interpreter, Interrupt, LookupResult, LoxType, NameError, Printed,
    RuntimeError, TypeError, Unsupported, Value,
};

fn number(value: f64) -> Number {
    Number { bits: value.to_bits() }
}

fn answer(request: &Request) -> Number {
    match request {
        Request::Convert(numeral) => number(numeral.parse::<f64>().expect("a numeral")),
        Request::Compute(op, left, right) => {
            let left = f64::from_bits(left.bits);
            let right = f64::from_bits(right.bits);
            number(match op {
                ArithOp::Add => left + right,
                ArithOp::Subtract => left - right,
                ArithOp::Multiply => left * right,
                ArithOp::Divide => left / right,
            })
        }
    }
}

fn lines(output: &[Printed]) -> Vec<String> {
    output
        .iter()
        .map(|printed| match printed {
            Printed::Text(text) => text.clone(),
            Printed::Number(number) => format!("{}", f64::from_bits(number.bits)),
        })
        .collect()
}

fn run_statements(
    interpreter: &mut Interpreter,
    stmts: &[Stmt],
) -> (Vec<String>, Result<(), RuntimeError>) {
    let result = loop {
        match interpreter.interpret(stmts) {
            Ok(()) => break Ok(()),
            Err(Interrupt::Pending(request)) => {
                let number = answer(&request);
                interpreter.answers.record(request, number);
            }
            Err(Interrupt::Failed(error)) => break Err(error),
        }
    };
    let output = lines(&interpreter.output);
    interpreter.output.clear();
    (output, result)
}

fn run(source: &str) -> (Vec<String>, Result<(), RuntimeError>) {
    let stmts = parse_source(source.to_string()).0.expect("the source parses");
    run_statements(&mut Interpreter::new(), &stmts)
}

fn printed(source: &str) -> Vec<String> {
    let (output, result) = run(source);
    assert_eq!(result, Ok(()));
    output
}

fn failure(source: &str) -> RuntimeError {
    run(source).1.expect_err("the program fails")
}

fn evaluate(expr: &Expr) -> Result<Value, RuntimeError> {
    let mut interpreter = Interpreter::new();
    loop {
        match interpreter.evaluate_expr(expr) {
            Ok(value) => return Ok(value),
            Err(Interrupt::Pending(request)) => {
                let number = answer(&request);
                interpreter.answers.record(request, number);
            }
            Err(Interrupt::Failed(error)) => return Err(error),
        }
    }
}

fn symbol(name: &str, line: usize) -> Symbol {
    Symbol { name: name.to_string(), line, col: -1 }
}

fn literal_number(numeral: &str) -> Expr {
    Expr::Literal(Literal::Number(numeral.to_string()))
}

fn literal_string(text: &str) -> Expr {
    Expr::Literal(Literal::String(text.to_string()))
}

fn binary_op(op_type: BinaryOpType, line: usize) -> BinaryOp {
    BinaryOp { op_type, line, col: -1 }
}

#[test]
fn a_number_literal_is_worth_its_numeral() {
    for numeral in ["0", "1", "3.25", "0.1", "123456789.125", "00012", "1.50"] {
        assert_eq!(
            evaluate(&literal_number(numeral)),
            Ok(Value::Number(number(numeral.parse::<f64>().unwrap()))),
            "{}",
            numeral
        );
    }
}

#[test]
fn literals_of_the_other_kinds() {
    assert_eq!(evaluate(&literal_string("hi")), Ok(Value::String("hi".to_string())));
    assert_eq!(evaluate(&Expr::Literal(Literal::True)), Ok(Value::Boolean(true)));
    assert_eq!(evaluate(&Expr::Literal(Literal::False)), Ok(Value::Boolean(false)));
    assert_eq!(evaluate(&Expr::Literal(Literal::Nil)), Ok(Value::Nil));
}

#[test]
fn arithmetic_follows_precedence() {
    assert_eq!(printed("print 1 + 2 * 3 - 4;"), vec!["3"]);
    assert_eq!(printed("print (1 + 2) * 3 - 4;"), vec!["5"]);
    assert_eq!(printed("print 7 / 2;"), vec!["3.5"]);
    assert_eq!(printed("print 10 - 4 - 3;"), vec!["3"]);
    assert_eq!(printed("print 0.1 + 0.2;"), vec!["0.30000000000000004"]);
}

#[test]
fn expression_value_is_the_number_three() {
    let stmts = parse_source("1 + 2 * 3 - 4;".to_string()).0.unwrap();
    match &stmts[0] {
        Stmt::Expr(expr) => assert_eq!(evaluate(expr), Ok(Value::Number(number(3.0)))),
        other => panic!("expected an expression statement, found {:?}", other),
    }
}

#[test]
fn print_writes_one_line_and_nothing_else() {
    assert_eq!(printed("print \"a\" + \"b\";"), vec!["ab"]);
}

#[test]
fn print_renders_each_kind() {
    assert_eq!(
        printed("print 12; print 2.50; print \"text\"; print true; print false; print nil;"),
        vec!["12", "2.5", "text", "true", "false", "nil"]
    );
}

#[test]
fn assignment_replaces_the_value() {
    assert_eq!(printed("var x = 1; x = 2; print x;"), vec!["2"]);
}

#[test]
fn assignment_is_an_expression() {
    assert_eq!(printed("var x = 1; print x = 5; print x;"), vec!["5", "5"]);
    assert_eq!(
        printed("var a; var b; a = b = 3; print a; print b;"),
        vec!["3", "3"]
    );
    assert_eq!(printed("var x = 1; print (x = 2) + x;"), vec!["4"]);
}

#[test]
fn an_assignment_inside_a_statement_happens_once() {
    assert_eq!(
        printed("var x = 1; print (x = x + 1) * 10 + 0.5; print x;"),
        vec!["20.5", "2"]
    );
}

#[test]
fn assignment_keeps_the_place_of_the_declaration() {
    let stmts = parse_source("var x;\n\nx = 1;".to_string()).0.unwrap();
    let mut interpreter = Interpreter::new();
    assert_eq!(run_statements(&mut interpreter, &stmts).1, Ok(()));
    assert_eq!(
        interpreter.env.get(&symbol("x", 9)),
        Ok(&Value::Number(number(1.0)))
    );
    interpreter.env.define(symbol("y", 4), None);
    assert_eq!(interpreter.env.assign(&symbol("y", 7), Value::Nil), Ok(()));
    interpreter.env.define(symbol("z", 5), None);
    match interpreter.env.lookup(&symbol("z", 8)) {
        LookupResult::DeclaredNotDefined(place) => {
            assert_eq!(place, SourceLocation { line: 5, col: -1 })
        }
        _ => panic!("expected a declaration without a value"),
    }
}

#[test]
fn assignment_to_a_name_without_a_binding_is_a_name_error() {
    assert_eq!(
        failure("var x = 1;\ny = 2;"),
        RuntimeError::Name(NameError::NotDeclared { symbol: symbol("y", 2) })
    );
}

#[test]
fn a_variable_that_was_declared_without_a_value() {
    let error = failure("var x;\n\nprint x;");
    assert_eq!(
        error,
        RuntimeError::Name(NameError::NotDefined {
            symbol: symbol("x", 3),
            declared: SourceLocation { line: 1, col: -1 },
        })
    );
    assert_eq!(
        error.message(),
        "Use undefined variable 'x' in line 3, column -1.\n\
         Note: x was declared at line 1, column -1 but not defined."
    );
}

#[test]
fn a_variable_that_was_never_declared() {
    let error = failure("var x;\nprint y;");
    assert_eq!(
        error,
        RuntimeError::Name(NameError::NotDeclared { symbol: symbol("y", 2) })
    );
    assert_eq!(error.message(), "Use undefined variable 'y' in line 2, column -1.");
}

#[test]
fn a_later_declaration_replaces_the_binding() {
    assert_eq!(
        printed("var x = 1; var x = \"again\"; print x;"),
        vec!["again"]
    );
    let error = failure("var x = 1;\nvar x;\nprint x;");
    assert_eq!(
        error,
        RuntimeError::Name(NameError::NotDefined {
            symbol: symbol("x", 3),
            declared: SourceLocation { line: 2, col: -1 },
        })
    );
}

#[test]
fn division_by_zero_is_an_error() {
    for source in ["1 / 0;", "0 / 0;", "1 / -0;", "1 / (2 - 2);", "5 / 0.0;", "-1 / 0;"] {
        assert_eq!(
            failure(source),
            RuntimeError::ZeroDivision(binary_op(BinaryOpType::Slash, 1)),
            "{}",
            source
        );
    }
    assert_eq!(
        failure("\n1 / 0;").message(),
        "ZeroDivisionError: division by zero at line 2, column -1."
    );
}

#[test]
fn division_by_zero_asks_for_no_quotient() {
    let interpreter = Interpreter::new();
    let zero_division = interpreter.visit_binary(
        &Value::Number(number(1.0)),
        binary_op(BinaryOpType::Slash, 1),
        &Value::Number(number(-0.0)),
    );
    let quotient = Request::Compute(ArithOp::Divide, number(1.0), number(-0.0));
    assert_eq!(Answers::new().find(&quotient), None);
    assert_eq!(
        zero_division,
        Err(Interrupt::Failed(RuntimeError::ZeroDivision(binary_op(BinaryOpType::Slash, 1))))
    );
}

#[test]
fn division_by_a_tiny_number_is_no_error() {
    assert_eq!(printed("print 1 / 0.5;"), vec!["2"]);
    let tiny = Value::Number(Number { bits: 1 });
    let mut interpreter = Interpreter::new();
    let op = binary_op(BinaryOpType::Slash, 1);
    let one = Value::Number(number(1.0));
    let request = Request::Compute(ArithOp::Divide, number(1.0), Number { bits: 1 });
    assert_eq!(
        interpreter.visit_binary(&one, op, &tiny),
        Err(Interrupt::Pending(request.clone()))
    );
    interpreter.answers.record(request, number(f64::INFINITY));
    assert_eq!(
        interpreter.visit_binary(&one, op, &tiny),
        Ok(Value::Number(number(f64::INFINITY)))
    );
}

#[test]
fn strings_are_joined_without_a_separator() {
    assert_eq!(
        printed("print \"foo\" + \"bar\"; print \"\" + \"x\"; print \"a b\" + \" c\";"),
        vec!["foobar", "x", "a b c"]
    );
    let interpreter = Interpreter::new();
    for (first, second) in [("", ""), ("a", ""), ("", "b"), ("left ", "right"), ("é", "ü")] {
        assert_eq!(
            interpreter.visit_binary(
                &Value::String(first.to_string()),
                binary_op(BinaryOpType::Plus, 1),
                &Value::String(second.to_string()),
            ),
            Ok(Value::String(format!("{}{}", first, second)))
        );
    }
}

#[test]
fn comparison_of_numbers() {
    assert_eq!(
        printed("print 1 < 2; print 2 < 1; print 2 <= 2; print 3 > 2; print 2 >= 3; print -1 < 0;"),
        vec!["true", "false", "true", "true", "false", "true"]
    );
}

#[test]
fn operands_of_the_wrong_kind_are_a_type_error() {
    let error = failure("print 1 +\n\"a\";");
    assert_eq!(
        error,
        RuntimeError::Type(TypeError::Binary {
            op: binary_op(BinaryOpType::Plus, 1),
            left: LoxType::Number,
            right: LoxType::String,
        })
    );
    assert_eq!(
        error.message(),
        "Invalid operands for binary operator Plus of types Number and String at line 1, column -1."
    );
    for source in [
        "\"a\" + 1;",
        "\"a\" - \"b\";",
        "true * 2;",
        "nil / 1;",
        "\"a\" / 0;",
        "nil < 1;",
        "\"a\" <= \"b\";",
        "1 > true;",
        "nil >= nil;",
        "true + true;",
    ] {
        match failure(source) {
            RuntimeError::Type(TypeError::Binary { .. }) => {}
            other => panic!("{}: expected a type error, found {:?}", source, other),
        }
    }
}

#[test]
fn a_type_error_names_both_kinds() {
    assert_eq!(
        failure("nil < true;"),
        RuntimeError::Type(TypeError::Binary {
            op: binary_op(BinaryOpType::Less, 1),
            left: LoxType::Nil,
            right: LoxType::Boolean,
        })
    );
}

#[test]
fn minus_negates_a_number_and_takes_nothing_else() {
    assert_eq!(printed("print -3; print --3; print -0.5;"), vec!["-3", "3", "-0.5"]);
    let error = failure("\n-\"a\";");
    assert_eq!(
        error,
        RuntimeError::Type(TypeError::Unary {
            op: UnaryOp { op_type: UnaryOpType::Minus, line: 2, col: -1 },
            operand: LoxType::String,
        })
    );
    assert_eq!(
        error.message(),
        "Invalid use of unary operator 'Minus' on a String type at line 2, column -1."
    );
    for source in ["-true;", "-nil;"] {
        match failure(source) {
            RuntimeError::Type(TypeError::Unary { .. }) => {}
            other => panic!("{}: expected a type error, found {:?}", source, other),
        }
    }
}

#[test]
fn bang_negates_truthiness() {
    assert_eq!(
        printed("print !nil; print !false; print !true; print !0; print !1; print !\"\"; print !!nil;"),
        vec!["true", "true", "false", "false", "false", "false", "false"]
    );
    assert!(!Interpreter::is_truthy(&Value::Nil));
    assert!(!Interpreter::is_truthy(&Value::Boolean(false)));
    assert!(Interpreter::is_truthy(&Value::Boolean(true)));
    assert!(Interpreter::is_truthy(&Value::Number(number(0.0))));
    assert!(Interpreter::is_truthy(&Value::String(String::new())));
}

#[test]
fn equality_is_defined_for_every_pair() {
    assert_eq!(
        printed(
            "print 1 == 1; print 1 == 2; print \"a\" == \"a\"; print \"a\" == \"b\"; \
             print true == true; print true == false; print nil == nil; \
             print 1 == \"1\"; print nil == false; print \"\" == nil; print 0 == false;"
        ),
        vec![
            "true", "false", "true", "false", "true", "false", "true", "false", "false", "false",
            "false"
        ]
    );
    assert_eq!(
        printed("print 1 != 1; print 1 != 2; print nil != nil; print 1 != \"1\";"),
        vec!["false", "true", "false", "true"]
    );
}

#[test]
fn numbers_within_machine_epsilon_are_equal() {
    assert_eq!(printed("print 0.1 + 0.2 == 0.3;"), vec!["true"]);
    assert_eq!(printed("print 1 == 1.0000000000000002;"), vec!["false"]);
    assert_eq!(printed("print 0 == 0.0000000000000001;"), vec!["true"]);
    assert_eq!(printed("print 0 == 0.0000000000000003;"), vec!["false"]);
    assert_eq!(printed("print 0 == -0;"), vec!["true"]);
}

#[test]
fn every_value_equals_itself_but_nan() {
    let interpreter = Interpreter::new();
    for value in [
        Value::Nil,
        Value::Boolean(true),
        Value::Boolean(false),
        Value::String(String::new()),
        Value::String("text".to_string()),
    ] {
        assert_eq!(interpreter.equals(&value, &value), Ok(true));
    }
    let huge = "1".to_string() + &"0".repeat(400);
    assert_eq!(
        printed(&format!(
            "var inf = {huge}; var nan = inf - inf; print nan == nan; print nan != nan; \
             print nan == 1; print 1 == nan; print 2 == 2; print 0.5 == 0.5;"
        )),
        vec!["false", "true", "false", "false", "true", "true"]
    );
    let nan = Value::Number(number(f64::NAN));
    assert_eq!(interpreter.equals(&nan, &nan), Ok(false));
}

#[test]
fn equality_of_numbers_asks_for_their_difference() {
    let mut interpreter = Interpreter::new();
    let left = Value::Number(number(1.0));
    let right = Value::Number(number(1.5));
    let difference = Request::Compute(ArithOp::Subtract, number(1.0), number(1.5));
    assert_eq!(
        interpreter.equals(&left, &right),
        Err(Interrupt::Pending(difference.clone()))
    );
    interpreter.answers.record(difference, number(-0.5));
    assert_eq!(interpreter.equals(&left, &right), Ok(false));
}

#[test]
fn operands_are_evaluated_from_left_to_right() {
    assert_eq!(
        failure("var x = 1;\nprint (y) + (1 / 0);"),
        RuntimeError::Name(NameError::NotDeclared { symbol: symbol("y", 2) })
    );
    assert_eq!(
        failure("print (1 / 0) + y;"),
        RuntimeError::ZeroDivision(binary_op(BinaryOpType::Slash, 1))
    );
    assert_eq!(
        failure("print -\"a\" + (1 / 0);"),
        RuntimeError::Type(TypeError::Unary {
            op: UnaryOp { op_type: UnaryOpType::Minus, line: 1, col: -1 },
            operand: LoxType::String,
        })
    );
}

#[test]
fn both_operands_are_evaluated_before_the_operator_is_applied() {
    assert_eq!(
        failure("print \"a\" * (1 / 0);"),
        RuntimeError::ZeroDivision(binary_op(BinaryOpType::Slash, 1))
    );
}

#[test]
fn the_first_failure_ends_the_program_and_the_output_stays() {
    let (output, result) = run("print 1; print 2 / 0; print 3;");
    assert_eq!(output, vec!["1"]);
    assert_eq!(
        result,
        Err(RuntimeError::ZeroDivision(binary_op(BinaryOpType::Slash, 1)))
    );
}

#[test]
fn statements_print_in_source_order() {
    assert_eq!(
        printed("print \"one\"; var x = 2; print x; x = x + 1; print x; print \"four\";"),
        vec!["one", "2", "3", "four"]
    );
}

#[test]
fn an_expression_statement_prints_nothing() {
    assert_eq!(printed("1 + 2; \"text\"; nil;"), Vec::<String>::new());
}

#[test]
fn expressions_without_a_meaning_are_not_implemented() {
    let place = SourceLocation { line: 1, col: -1 };
    let nil = || Box::new(Expr::Literal(Literal::Nil));
    let cases = vec![
        (Expr::Logical(nil(), LogicalOp::And, nil()), Unsupported::Logical),
        (Expr::Logical(nil(), LogicalOp::Or, nil()), Unsupported::Logical),
        (Expr::Call(nil(), place, vec![]), Unsupported::Call),
        (Expr::Get(nil(), symbol("field", 1)), Unsupported::Get),
        (Expr::SetProperty(nil(), symbol("field", 1), nil()), Unsupported::SetProperty),
        (Expr::Super(place, symbol("method", 1)), Unsupported::Super),
        (Expr::This(place), Unsupported::This),
    ];
    for (expr, kind) in cases {
        assert_eq!(evaluate(&expr), Err(RuntimeError::NotImplemented(kind)));
    }
    assert_eq!(
        RuntimeError::NotImplemented(Unsupported::Call).message(),
        "Not implemented: call expressions have no meaning yet."
    );
}

#[test]
fn a_missing_answer_stops_the_run_and_changes_nothing() {
    let stmts =
        parse_source("var x = \"a\"; print x; print (x = \"b\") + (1 + 2); print x;".to_string())
            .0.unwrap();
    let mut interpreter = Interpreter::new();

    assert_eq!(
        interpreter.interpret(&stmts),
        Err(Interrupt::Pending(Request::Convert("1".to_string())))
    );
    assert_eq!(interpreter.position, 2);
    assert_eq!(lines(&interpreter.output), vec!["a"]);
    assert_eq!(interpreter.env.get(&symbol("x", 1)), Ok(&Value::String("a".to_string())));

    interpreter.answers.record(Request::Convert("1".to_string()), number(1.0));
    assert_eq!(
        interpreter.interpret(&stmts),
        Err(Interrupt::Pending(Request::Convert("2".to_string())))
    );
    assert_eq!(interpreter.position, 2);
    assert_eq!(interpreter.env.get(&symbol("x", 1)), Ok(&Value::String("a".to_string())));

    interpreter.answers.record(Request::Convert("2".to_string()), number(2.0));
    assert_eq!(
        interpreter.interpret(&stmts),
        Err(Interrupt::Pending(Request::Compute(ArithOp::Add, number(1.0), number(2.0))))
    );
    interpreter
        .answers
        .record(Request::Compute(ArithOp::Add, number(1.0), number(2.0)), number(3.0));

    let result = interpreter.interpret(&stmts);
    assert_eq!(
        result,
        Err(Interrupt::Failed(RuntimeError::Type(TypeError::Binary {
            op: binary_op(BinaryOpType::Plus, 1),
            left: LoxType::String,
            right: LoxType::Number,
        })))
    );
    assert_eq!(interpreter.position, 0);
    assert_eq!(lines(&interpreter.output), vec!["a"]);
    assert_eq!(interpreter.env.get(&symbol("x", 1)), Ok(&Value::String("a".to_string())));
}

#[test]
fn a_run_that_came_to_its_end_starts_over() {
    let stmts = parse_source("var x = \"a\"; print x;".to_string()).0.unwrap();
    let mut interpreter = Interpreter::new();
    assert_eq!(interpreter.interpret(&stmts), Ok(()));
    assert_eq!(interpreter.position, 0);
    assert_eq!(interpreter.interpret(&stmts), Ok(()));
    assert_eq!(lines(&interpreter.output), vec!["a", "a"]);
}

#[test]
fn the_environment_lives_on_between_programs() {
    let mut interpreter = Interpreter::default();
    let first = parse_source("var x = 20;".to_string()).0.unwrap();
    let second = parse_source("print x + 1;".to_string()).0.unwrap();
    assert_eq!(run_statements(&mut interpreter, &first), (vec![], Ok(())));
    assert_eq!(
        run_statements(&mut interpreter, &second),
        (vec!["21".to_string()], Ok(()))
    );
}

#[test]
fn evaluate_executes_one_statement() {
    let mut interpreter = Interpreter::new();
    let declaration = Stmt::VarDecl(symbol("greeting", 1), Some(literal_string("hi")));
    assert_eq!(interpreter.evaluate(&declaration), Ok(()));
    assert!(interpreter.output.is_empty());
    let print = Stmt::Print(Expr::Variable(symbol("greeting", 2)));
    assert_eq!(interpreter.evaluate(&print), Ok(()));
    assert_eq!(interpreter.output, vec![Printed::Text("hi".to_string())]);
    let number_print = Stmt::Print(literal_number("4"));
    assert_eq!(
        interpreter.evaluate(&number_print),
        Err(Interrupt::Pending(Request::Convert("4".to_string())))
    );
    assert_eq!(interpreter.output.len(), 1);
    interpreter.answers.record(Request::Convert("4".to_string()), number(4.0));
    assert_eq!(interpreter.evaluate(&number_print), Ok(()));
    assert_eq!(interpreter.output[1], Printed::Number(number(4.0)));
    assert_eq!(interpreter.format_val(&Value::Number(number(4.0))), Printed::Number(number(4.0)));
    let expression = Stmt::Expr(Expr::Variable(symbol("greeting", 3)));
    assert_eq!(interpreter.evaluate(&expression), Ok(()));
    assert_eq!(interpreter.output.len(), 2);
}

#[test]
fn environment_tells_three_outcomes_apart() {
    let mut env = Environment::new();
    assert!(matches!(env.lookup(&symbol("x", 1)), LookupResult::NotDeclared));
    env.define(symbol("x", 3), None);
    assert!(matches!(
        env.lookup(&symbol("x", 5)),
        LookupResult::DeclaredNotDefined(SourceLocation { line: 3, col: -1 })
    ));
    env.define(symbol("x", 7), Some(Value::Boolean(true)));
    assert!(matches!(
        env.lookup(&symbol("x", 9)),
        LookupResult::Found(&Value::Boolean(true))
    ));
    assert!(matches!(env.lookup(&symbol("X", 1)), LookupResult::NotDeclared));
}

#[test]
fn environment_get_renders_the_outcomes_as_errors() {
    let mut env = Environment::new();
    env.define(symbol("a", 1), Some(Value::Nil));
    env.define(symbol("b", 2), None);
    assert_eq!(env.get(&symbol("a", 4)), Ok(&Value::Nil));
    assert_eq!(
        env.get(&symbol("b", 5)),
        Err(NameError::NotDefined {
            symbol: symbol("b", 5),
            declared: SourceLocation { line: 2, col: -1 },
        })
    );
    assert_eq!(
        env.get(&symbol("c", 6)),
        Err(NameError::NotDeclared { symbol: symbol("c", 6) })
    );
}

#[test]
fn environment_assign_needs_a_binding() {
    let mut env = Environment::new();
    assert_eq!(
        env.assign(&symbol("a", 2), Value::Nil),
        Err(NameError::NotDeclared { symbol: symbol("a", 2) })
    );
    assert!(matches!(env.lookup(&symbol("a", 1)), LookupResult::NotDeclared));
    env.define(symbol("a", 1), None);
    assert_eq!(env.assign(&symbol("a", 3), Value::Boolean(false)), Ok(()));
    assert_eq!(env.get(&symbol("a", 4)), Ok(&Value::Boolean(false)));
}

#[test]
fn a_copy_of_an_environment_is_independent() {
    let mut env = Environment::new();
    env.define(symbol("a", 1), Some(Value::String("one".to_string())));
    let copy = env.clone();
    env.define(symbol("a", 2), Some(Value::String("two".to_string())));
    env.define(symbol("b", 3), None);
    assert_eq!(copy.get(&symbol("a", 1)), Ok(&Value::String("one".to_string())));
    assert!(matches!(copy.lookup(&symbol("b", 1)), LookupResult::NotDeclared));
    assert_eq!(env.get(&symbol("a", 1)), Ok(&Value::String("two".to_string())));
}

#[test]
fn the_kind_of_each_value() {
    assert_eq!(instance_of(&Value::Nil), LoxType::Nil);
    assert_eq!(instance_of(&Value::Number(number(1.0))), LoxType::Number);
    assert_eq!(instance_of(&Value::String(String::new())), LoxType::String);
    assert_eq!(instance_of(&Value::Boolean(false)), LoxType::Boolean);
}

#[test]
fn a_source_that_does_not_parse_is_not_evaluated() {
    assert!(parse_source("print \"before\"; 1 +;".to_string()).0.is_err());
}

#[test]
fn copies_of_values_and_errors_equal_them() {
    for value in [
        Value::Nil,
        Value::Boolean(true),
        Value::Number(number(2.5)),
        Value::String("text".to_string()),
    ] {
        assert_eq!(value.clone(), value);
    }
    let errors = [
        RuntimeError::ZeroDivision(binary_op(BinaryOpType::Slash, 3)),
        RuntimeError::Name(NameError::NotDeclared { symbol: symbol("y", 2) }),
        RuntimeError::Name(NameError::NotDefined {
            symbol: symbol("x", 3),
            declared: SourceLocation { line: 1, col: -1 },
        }),
        RuntimeError::NotImplemented(Unsupported::This),
        RuntimeError::Type(TypeError::Unary {
            op: UnaryOp { op_type: UnaryOpType::Minus, line: 1, col: -1 },
            operand: LoxType::Nil,
        }),
    ];
    for error in errors {
        assert_eq!(error.clone(), error);
        let interrupt = Interrupt::Failed(error);
        assert_eq!(interrupt.clone(), interrupt);
    }
    let pending = Interrupt::Pending(Request::Convert("1".to_string()));
    assert_eq!(pending.clone(), pending);
    let printed = Printed::Text("line".to_string());
    assert_eq!(printed.clone(), printed);
    assert_eq!(LoxType::Boolean.name(), "Boolean");
    assert_eq!(Unsupported::Get.name(), "property get");
}

#[test]
fn a_type_error_of_a_unary_operator_on_each_kind() {
    assert_eq!(
        TypeError::Unary {
            op: UnaryOp { op_type: UnaryOpType::Minus, line: 12, col: 7 },
            operand: LoxType::Boolean,
        }
        .message(),
        "Invalid use of unary operator 'Minus' on a Boolean type at line 12, column 7."
    );
}
