//! What holds of every program, stated over the models and proved.

use crate::expr::{BinaryOp, BinaryOpType, ExprView, LiteralView, StmtView, SymbolView};
use crate::number::{ArithOp, Number, RequestView};
use crate::parser::{binary_operator, binary_rest, is_operator, operand, type_at, Failure};
use crate::scanner::TokenView;
use crate::tree_interpreter::{
    binary_result, equal_values, eval, execute, run, BindingView, Executed, InterruptView,
    NameErrorView, PrintedView, RuntimeErrorView, ValueView,
};
use vstd::prelude::*;

verus! {

/// A number literal evaluates to the number that its numeral converts to, and
/// to nothing else: the value does not depend on the environment, and the
/// environment stays as it was. Until the conversion is answered, the
/// evaluation asks for it.
pub proof fn theorem_number_literal(
    numeral: Seq<char>,
    env: Map<Seq<char>, BindingView>,
    answers: Map<RequestView, Number>,
)
    ensures
        eval(ExprView::Literal(LiteralView::Number(numeral)), env, answers) == if answers.contains_key(
            RequestView::Convert(numeral),
        ) {
            (
                Ok::<ValueView, InterruptView>(
                    ValueView::Number(answers[RequestView::Convert(numeral)]),
                ),
                env,
            )
        } else {
            (
                Err::<ValueView, InterruptView>(
                    InterruptView::Pending(RequestView::Convert(numeral)),
                ),
                env,
            )
        },
{
}

/// Dividing a number by a zero of either sign fails with the division error
/// of the operator, whatever the dividend and whatever the table of answers
/// holds: no quotient is asked for, and none is handed out.
pub proof fn theorem_division_by_zero(
    op: BinaryOp,
    dividend: Number,
    divisor: Number,
    answers: Map<RequestView, Number>,
)
    requires
        op.op_type == BinaryOpType::Slash,
        divisor.spec_is_zero(),
    ensures
        binary_result(op, ValueView::Number(dividend), ValueView::Number(divisor), answers) == Err::<
            ValueView,
            InterruptView,
        >(InterruptView::Failed(RuntimeErrorView::ZeroDivision(op))),
{
}

/// A division whose operands evaluate to a number and to a zero fails with
/// the division error, in the environment that the two operands leave.
pub proof fn theorem_division_by_zero_expression(
    left: ExprView,
    op: BinaryOp,
    right: ExprView,
    env: Map<Seq<char>, BindingView>,
    answers: Map<RequestView, Number>,
)
    requires
        op.op_type == BinaryOpType::Slash,
        eval(left, env, answers).0 matches Ok(ValueView::Number(_)),
        eval(right, eval(left, env, answers).1, answers).0 matches Ok(ValueView::Number(divisor))
            && divisor.spec_is_zero(),
    ensures
        eval(ExprView::Binary(Box::new(left), op, Box::new(right)), env, answers) == (
            Err::<ValueView, InterruptView>(
                InterruptView::Failed(RuntimeErrorView::ZeroDivision(op)),
            ),
            eval(right, eval(left, env, answers).1, answers).1,
        ),
{
}

/// Adding two strings gives the first followed by the second, with nothing
/// between them.
pub proof fn theorem_string_concatenation(
    op: BinaryOp,
    first: Seq<char>,
    second: Seq<char>,
    answers: Map<RequestView, Number>,
)
    requires
        op.op_type == BinaryOpType::Plus,
    ensures
        binary_result(op, ValueView::String(first), ValueView::String(second), answers) == Ok::<
            ValueView,
            InterruptView,
        >(ValueView::String(first + second)),
{
}

/// Every value that is no number equals itself.
pub proof fn theorem_equals_itself(val: ValueView, answers: Map<RequestView, Number>)
    requires
        !(val is Number),
    ensures
        equal_values(val, val, answers) == Ok::<bool, InterruptView>(true),
{
}

/// A NaN equals nothing, itself included.
pub proof fn theorem_nan_equals_nothing(nan: Number, val: ValueView, answers: Map<RequestView, Number>)
    requires
        nan.spec_is_nan(),
    ensures
        equal_values(ValueView::Number(nan), val, answers) == Ok::<bool, InterruptView>(false),
        equal_values(val, ValueView::Number(nan), answers) == Ok::<bool, InterruptView>(false),
{
}

/// A number that is no NaN equals itself whenever its difference from itself
/// is answered with a zero.
pub proof fn theorem_number_equals_itself(number: Number, answers: Map<RequestView, Number>)
    requires
        !number.spec_is_nan(),
        answers.contains_key(RequestView::Compute(ArithOp::Subtract, number, number)),
        answers[RequestView::Compute(ArithOp::Subtract, number, number)].spec_is_zero(),
    ensures
        equal_values(ValueView::Number(number), ValueView::Number(number), answers) == Ok::<
            bool,
            InterruptView,
        >(true),
{
}

/// True when `more` holds every answer of `answers`, and perhaps others.
pub open spec fn extends(more: Map<RequestView, Number>, answers: Map<RequestView, Number>) -> bool {
    forall|request: RequestView| #[trigger]
        answers.contains_key(request) ==> more.contains_key(request) && more[request]
            == answers[request]
}

/// True when an evaluation stopped for want of an answer.
pub open spec fn is_pending<T>(result: Result<T, InterruptView>) -> bool {
    result matches Err(InterruptView::Pending(_))
}

/// Answers that are not needed change nothing: an evaluation that did not
/// stop for want of an answer gives the same value, or the same failure, and
/// the same environment under every table that holds more answers. So what a
/// table of some answers gives is what the whole of the arithmetic gives.
pub proof fn theorem_more_answers_same_value(
    expr: ExprView,
    env: Map<Seq<char>, BindingView>,
    answers: Map<RequestView, Number>,
    more: Map<RequestView, Number>,
)
    requires
        extends(more, answers),
        !is_pending(eval(expr, env, answers).0),
    ensures
        eval(expr, env, more) == eval(expr, env, answers),
    decreases expr,
{
    match expr {
        ExprView::Grouping(inner) => {
            theorem_more_answers_same_value(*inner, env, answers, more);
        },
        ExprView::Unary(op, operand) => {
            theorem_more_answers_same_value(*operand, env, answers, more);
        },
        ExprView::Binary(left, op, right) => {
            theorem_more_answers_same_value(*left, env, answers, more);
            let (left_value, after_left) = eval(*left, env, answers);
            if left_value is Ok {
                theorem_more_answers_same_value(*right, after_left, answers, more);
            }
        },
        ExprView::Assign(target, value) => {
            theorem_more_answers_same_value(*value, env, answers, more);
        },
        _ => {},
    }
}

/// A statement that did not stop for want of an answer has the same effect
/// under every table that holds more answers.
pub proof fn theorem_more_answers_same_effect(
    stmt: StmtView,
    env: Map<Seq<char>, BindingView>,
    answers: Map<RequestView, Number>,
    more: Map<RequestView, Number>,
)
    requires
        extends(more, answers),
        !is_pending(execute(stmt, env, answers)),
    ensures
        execute(stmt, env, more) == execute(stmt, env, answers),
{
    match stmt {
        StmtView::Expr(expr) => {
            theorem_more_answers_same_value(expr, env, answers, more);
        },
        StmtView::Print(expr) => {
            theorem_more_answers_same_value(expr, env, answers, more);
        },
        StmtView::VarDecl(_, Some(initializer)) => {
            theorem_more_answers_same_value(initializer, env, answers, more);
        },
        StmtView::VarDecl(_, None) => {},
    }
}

/// A run that did not stop for want of an answer ends in the same way, with
/// the same environment and the same lines printed, under every table that
/// holds more answers.
pub proof fn theorem_more_answers_same_run(
    stmts: Seq<StmtView>,
    position: nat,
    env: Map<Seq<char>, BindingView>,
    answers: Map<RequestView, Number>,
    more: Map<RequestView, Number>,
)
    requires
        extends(more, answers),
        !is_pending(run(stmts, position, env, answers).result),
    ensures
        run(stmts, position, env, more) == run(stmts, position, env, answers),
    decreases stmts.len() - position,
{
    if position < stmts.len() {
        let first = execute(stmts[position as int], env, answers);
        match first {
            Ok(done) => {
                theorem_more_answers_same_effect(stmts[position as int], env, answers, more);
                theorem_more_answers_same_run(stmts, position + 1, done.env, answers, more);
            },
            Err(InterruptView::Failed(_)) => {
                theorem_more_answers_same_effect(stmts[position as int], env, answers, more);
            },
            Err(InterruptView::Pending(_)) => {},
        }
    }
}


/// Operators of one level fold to the left: where two operators of the level
/// follow an operand, each with its own operand behind it, the first takes
/// the operand as its left side and the second takes all of that, so that
/// `a - b - c` is read as `(a - b) - c`.
pub proof fn theorem_operators_fold_left(
    tokens: Seq<TokenView>,
    pos: int,
    level: u8,
    first: ExprView,
    second: ExprView,
    second_span: nat,
    third: ExprView,
    third_span: nat,
)
    requires
        is_operator(level, type_at(tokens, pos)),
        operand(tokens, pos + 1, level) == Ok::<(ExprView, nat), Failure>((second, second_span)),
        is_operator(level, type_at(tokens, pos + 1 + second_span)),
        operand(tokens, pos + 2 + second_span, level) == Ok::<(ExprView, nat), Failure>(
            (third, third_span),
        ),
        !is_operator(level, type_at(tokens, pos + 2 + second_span + third_span)),
    ensures
        binary_rest(tokens, pos, level, first) == Ok::<(ExprView, nat), Failure>(
            (
                ExprView::Binary(
                    Box::new(
                        ExprView::Binary(
                            Box::new(first),
                            binary_operator(tokens[pos]),
                            Box::new(second),
                        ),
                    ),
                    binary_operator(tokens[pos + 1 + second_span]),
                    Box::new(third),
                ),
                2 + second_span + third_span,
            ),
        ),
{
    let inner = ExprView::Binary(Box::new(first), binary_operator(tokens[pos]), Box::new(second));
    let outer = ExprView::Binary(
        Box::new(inner),
        binary_operator(tokens[pos + 1 + second_span]),
        Box::new(third),
    );
    let behind = pos + 2 + second_span + third_span;
    assert(binary_rest(tokens, behind, level, outer) == Ok::<(ExprView, nat), Failure>(
        (outer, 0),
    ));
    assert(binary_rest(tokens, pos + 1 + second_span, level, inner) == Ok::<
        (ExprView, nat),
        Failure,
    >((outer, 1 + third_span)));
}


/// A variable that was declared without a value has none: every reference to
/// it after the declaration fails, and the failure tells where the variable
/// was declared.
pub proof fn theorem_declared_not_defined(
    declared: SymbolView,
    reference: SymbolView,
    env: Map<Seq<char>, BindingView>,
    answers: Map<RequestView, Number>,
)
    requires
        reference.name == declared.name,
    ensures
        execute(StmtView::VarDecl(declared, None), env, answers) matches Ok(done) && eval(
            ExprView::Variable(reference),
            done.env,
            answers,
        ).0 == Err::<ValueView, InterruptView>(
            InterruptView::Failed(
                RuntimeErrorView::Name(
                    NameErrorView::NotDefined { symbol: reference, declared: declared.location() },
                ),
            ),
        ),
{
}

/// A reference to a name that was never declared fails, and the failure
/// cites no declaration.
pub proof fn theorem_not_declared(
    reference: SymbolView,
    env: Map<Seq<char>, BindingView>,
    answers: Map<RequestView, Number>,
)
    requires
        !env.contains_key(reference.name),
    ensures
        eval(ExprView::Variable(reference), env, answers) == (
            Err::<ValueView, InterruptView>(
                InterruptView::Failed(
                    RuntimeErrorView::Name(NameErrorView::NotDeclared { symbol: reference }),
                ),
            ),
            env,
        ),
{
}

/// An assignment that succeeds is worth the value assigned, and a reference
/// to the variable right after it reads that value back.
pub proof fn theorem_assigned_value_is_read_back(
    target: SymbolView,
    value: ExprView,
    reference: SymbolView,
    env: Map<Seq<char>, BindingView>,
    answers: Map<RequestView, Number>,
)
    requires
        reference.name == target.name,
        eval(ExprView::Assign(target, Box::new(value)), env, answers).0 is Ok,
    ensures
        ({
            let (assigned, after) = eval(ExprView::Assign(target, Box::new(value)), env, answers);
            &&& assigned == eval(value, env, answers).0
            &&& eval(ExprView::Variable(reference), after, answers) == (assigned, after)
        }),
{
}

/// Printing the sum of two string literals prints one line, the first text
/// followed by the second, and changes nothing.
pub proof fn theorem_print_joined_strings(
    op: BinaryOp,
    first: Seq<char>,
    second: Seq<char>,
    env: Map<Seq<char>, BindingView>,
    answers: Map<RequestView, Number>,
)
    requires
        op.op_type == BinaryOpType::Plus,
    ensures
        execute(
            StmtView::Print(
                ExprView::Binary(
                    Box::new(ExprView::Literal(LiteralView::String(first))),
                    op,
                    Box::new(ExprView::Literal(LiteralView::String(second))),
                ),
            ),
            env,
            answers,
        ) == Ok::<Executed, InterruptView>(
            Executed { env, printed: Some(PrintedView::Text(first + second)) },
        ),
{
    reveal_with_fuel(eval, 2);
}


/// An evaluation asks only for what the table lacks.
pub proof fn theorem_pending_value_is_missing(
    expr: ExprView,
    env: Map<Seq<char>, BindingView>,
    answers: Map<RequestView, Number>,
)
    ensures
        eval(expr, env, answers).0 matches Err(InterruptView::Pending(request))
            ==> !answers.contains_key(request),
    decreases expr,
{
    match expr {
        ExprView::Grouping(inner) => {
            theorem_pending_value_is_missing(*inner, env, answers);
        },
        ExprView::Unary(_, operand) => {
            theorem_pending_value_is_missing(*operand, env, answers);
        },
        ExprView::Binary(left, _, right) => {
            theorem_pending_value_is_missing(*left, env, answers);
            theorem_pending_value_is_missing(*right, eval(*left, env, answers).1, answers);
        },
        ExprView::Assign(_, value) => {
            theorem_pending_value_is_missing(*value, env, answers);
        },
        _ => {},
    }
}

/// A run asks only for what the table lacks: once the answer to the request
/// of a run is recorded, the run does not ask for it again.
pub proof fn theorem_pending_request_is_missing(
    stmts: Seq<StmtView>,
    position: nat,
    env: Map<Seq<char>, BindingView>,
    answers: Map<RequestView, Number>,
)
    ensures
        run(stmts, position, env, answers).result matches Err(InterruptView::Pending(request))
            ==> !answers.contains_key(request),
    decreases stmts.len() - position,
{
    if position < stmts.len() {
        match stmts[position as int] {
            StmtView::Expr(expr) => {
                theorem_pending_value_is_missing(expr, env, answers);
            },
            StmtView::Print(expr) => {
                theorem_pending_value_is_missing(expr, env, answers);
            },
            StmtView::VarDecl(_, Some(initializer)) => {
                theorem_pending_value_is_missing(initializer, env, answers);
            },
            StmtView::VarDecl(_, None) => {},
        }
        if let Ok(done) = execute(stmts[position as int], env, answers) {
            theorem_pending_request_is_missing(stmts, position + 1, done.env, answers);
        }
    }
}


/// Equality does not depend on the side on which a value stands, for every
/// pair of values but two numbers that are no NaN: for those the rule reads
/// one difference or the other.
pub proof fn theorem_equality_symmetric(
    left: ValueView,
    right: ValueView,
    answers: Map<RequestView, Number>,
)
    requires
        !(left matches ValueView::Number(mine) && right matches ValueView::Number(theirs)
            && !mine.spec_is_nan() && !theirs.spec_is_nan()),
    ensures
        equal_values(left, right, answers) == equal_values(right, left, answers),
{
}

/// Two numbers that are no NaN are equal from either side whenever the two
/// differences are answered with the same magnitude, as the difference of
/// `a` and `b` and that of `b` and `a` are.
pub proof fn theorem_number_equality_symmetric(
    left: Number,
    right: Number,
    answers: Map<RequestView, Number>,
)
    requires
        !left.spec_is_nan(),
        !right.spec_is_nan(),
        answers.contains_key(RequestView::Compute(ArithOp::Subtract, left, right)),
        answers.contains_key(RequestView::Compute(ArithOp::Subtract, right, left)),
        answers[RequestView::Compute(ArithOp::Subtract, left, right)].magnitude()
            == answers[RequestView::Compute(ArithOp::Subtract, right, left)].magnitude(),
    ensures
        equal_values(ValueView::Number(left), ValueView::Number(right), answers) == equal_values(
            ValueView::Number(right),
            ValueView::Number(left),
            answers,
        ),
{
}

} // verus!
