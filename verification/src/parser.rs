//! The parser: tokens to statements, by recursive descent over a ladder of
//! precedence levels.
//!
//! The grammar is stated as spec functions over the models of the tokens.
//! Each of them gives the tree that starts at a position together with the
//! number of tokens it spans, or the first error met.

use crate::error_format::UNKNOWN_COLUMN;
use crate::expr::{
    stmt_views, BinaryOp, BinaryOpType, Expr, ExprView, Literal, LiteralView, Stmt, StmtView,
    Symbol, SymbolView, UnaryOp, UnaryOpType,
};
use crate::scanner;
use crate::scanner::{token_views, well_formed_tokens, Token, TokenType, TokenView};
use vstd::prelude::*;
use vstd::string::*;

verus! {

/// Why a run of tokens is no program.
#[derive(Debug, PartialEq)]
pub enum Error {
    /// A token came that nothing expects where it stands.
    UnexpectedToken(Token),
    /// A token of kind `expected` had to come, and `found` came.
    TokenMissmatch { expected: TokenType, found: Token, message: Option<String> },
    /// No expression starts with the token of kind `token_type`.
    ExpectedExpression { token_type: TokenType, line: usize, col: i64 },
    /// What stands left of the `=` on `line` is no variable.
    InvalidAssignment { line: usize, col: i64 },
}

/// The model of an [`Error`].
pub enum ErrorView {
    UnexpectedToken(TokenView),
    TokenMissmatch { expected: TokenType, found: TokenView, message: Option<Seq<char>> },
    ExpectedExpression { token_type: TokenType, line: usize, col: i64 },
    InvalidAssignment { line: usize, col: i64 },
}

impl View for Error {
    type V = ErrorView;

    open spec fn view(&self) -> ErrorView {
        match self {
            Error::UnexpectedToken(token) => ErrorView::UnexpectedToken(token@),
            Error::TokenMissmatch { expected, found, message } => ErrorView::TokenMissmatch {
                expected: *expected,
                found: found@,
                message: match message {
                    Some(text) => Some(text@),
                    None => None,
                },
            },
            Error::ExpectedExpression { token_type, line, col } => ErrorView::ExpectedExpression {
                token_type: *token_type,
                line: *line,
                col: *col,
            },
            Error::InvalidAssignment { line, col } => ErrorView::InvalidAssignment {
                line: *line,
                col: *col,
            },
        }
    }
}

impl ErrorView {
    /// The line on which the error was found.
    pub open spec fn line(self) -> usize {
        match self {
            ErrorView::UnexpectedToken(token) => token.line,
            ErrorView::TokenMissmatch { found, .. } => found.line,
            ErrorView::ExpectedExpression { line, .. } => line,
            ErrorView::InvalidAssignment { line, .. } => line,
        }
    }

    /// The text of the message for this error.
    pub open spec fn message_text(self) -> Seq<char> {
        match self {
            ErrorView::UnexpectedToken(_) => "Unexpected token"@,
            ErrorView::TokenMissmatch { message: Some(text), .. } => text,
            ErrorView::TokenMissmatch { message: None, .. } => "Token mismatch"@,
            ErrorView::ExpectedExpression { .. } => "Expect expression"@,
            ErrorView::InvalidAssignment { .. } => "Invalid assignment target"@,
        }
    }
}

impl Error {
    /// The line on which the error was found.
    pub fn line(&self) -> (line: usize)
        ensures
            line == self@.line(),
    {
        match self {
            Error::UnexpectedToken(token) => token.line,
            Error::TokenMissmatch { found, .. } => found.line,
            Error::ExpectedExpression { line, .. } => *line,
            Error::InvalidAssignment { line, .. } => *line,
        }
    }

    /// The message for this error.
    pub fn message(&self) -> (text: String)
        ensures
            text@ == self@.message_text(),
    {
        match self {
            Error::UnexpectedToken(_) => String::from_str("Unexpected token"),
            Error::TokenMissmatch { message: Some(text), .. } => text.clone(),
            Error::TokenMissmatch { message: None, .. } => String::from_str("Token mismatch"),
            Error::ExpectedExpression { .. } => String::from_str("Expect expression"),
            Error::InvalidAssignment { .. } => String::from_str("Invalid assignment target"),
        }
    }
}

impl Clone for Error {
    fn clone(&self) -> (copy: Self)
        ensures
            copy@ == self@,
    {
        match self {
            Error::UnexpectedToken(token) => Error::UnexpectedToken(token.clone()),
            Error::TokenMissmatch { expected, found, message } => Error::TokenMissmatch {
                expected: *expected,
                found: found.clone(),
                message: match message {
                    Some(text) => Some(text.clone()),
                    None => None,
                },
            },
            Error::ExpectedExpression { token_type, line, col } => Error::ExpectedExpression {
                token_type: *token_type,
                line: *line,
                col: *col,
            },
            Error::InvalidAssignment { line, col } => Error::InvalidAssignment {
                line: *line,
                col: *col,
            },
        }
    }
}

/// The kind of the token at `pos`; past the tokens, end of input.
pub open spec fn type_at(tokens: Seq<TokenView>, pos: int) -> TokenType {
    if 0 <= pos < tokens.len() {
        tokens[pos].t_type
    } else {
        TokenType::Eof
    }
}

/// How many tokens stand at or after `pos`.
pub open spec fn remaining(tokens: Seq<TokenView>, pos: int) -> nat {
    if pos < tokens.len() {
        (tokens.len() - pos) as nat
    } else {
        0
    }
}

/// True when a token of kind `t_type` is a unary operator.
pub open spec fn is_unary_operator(t_type: TokenType) -> bool {
    t_type == TokenType::Minus || t_type == TokenType::Bang
}

/// True when a token of kind `t_type` is a binary operator, of any level.
pub open spec fn is_binary_operator(t_type: TokenType) -> bool {
    is_operator(FACTOR, t_type) || is_operator(TERM, t_type) || is_operator(COMPARISON, t_type)
        || is_operator(EQUALITY, t_type)
}

/// The unary operator that a token stands for: `-` or, for the other unary
/// operator, `!`.
pub open spec fn unary_operator(token: TokenView) -> UnaryOp
    recommends
        is_unary_operator(token.t_type),
{
    UnaryOp {
        op_type: match token.t_type {
            TokenType::Minus => UnaryOpType::Minus,
            _ => UnaryOpType::Bang,
        },
        line: token.line,
        col: UNKNOWN_COLUMN,
    }
}

/// The binary operator that a token stands for.
pub open spec fn binary_operator(token: TokenView) -> BinaryOp
    recommends
        is_binary_operator(token.t_type),
{
    BinaryOp {
        op_type: match token.t_type {
            TokenType::BangEqual => BinaryOpType::BangEqual,
            TokenType::EqualEqual => BinaryOpType::EqualEqual,
            TokenType::Greater => BinaryOpType::Greater,
            TokenType::GreaterEqual => BinaryOpType::GreaterEqual,
            TokenType::Less => BinaryOpType::Less,
            TokenType::Plus => BinaryOpType::Plus,
            TokenType::Minus => BinaryOpType::Minus,
            TokenType::Slash => BinaryOpType::Slash,
            TokenType::Star => BinaryOpType::Star,
            _ => BinaryOpType::LessEqual,
        },
        line: token.line,
        col: UNKNOWN_COLUMN,
    }
}

/// The levels of left-associative binary operators, from the one that binds
/// tightest.
pub const FACTOR: u8 = 0;

pub const TERM: u8 = 1;

pub const COMPARISON: u8 = 2;

pub const EQUALITY: u8 = 3;

/// True when a token of kind `t_type` is an operator of `level`.
pub open spec fn is_operator(level: u8, t_type: TokenType) -> bool {
    if level == FACTOR {
        t_type == TokenType::Slash || t_type == TokenType::Star
    } else if level == TERM {
        t_type == TokenType::Plus || t_type == TokenType::Minus
    } else if level == COMPARISON {
        t_type == TokenType::Greater || t_type == TokenType::GreaterEqual || t_type
            == TokenType::Less || t_type == TokenType::LessEqual
    } else if level == EQUALITY {
        t_type == TokenType::BangEqual || t_type == TokenType::EqualEqual
    } else {
        false
    }
}

/// The error for a token of kind `expected` that did not come at `pos`.
pub open spec fn mismatch(
    tokens: Seq<TokenView>,
    pos: int,
    expected: TokenType,
    message: Seq<char>,
) -> ErrorView {
    ErrorView::TokenMissmatch { expected, found: tokens[pos], message: Some(message) }
}

/// True when the token at `pos` is of kind `expected`. The end-of-input
/// token is never expected.
pub open spec fn comes(tokens: Seq<TokenView>, pos: int, expected: TokenType) -> bool {
    expected != TokenType::Eof && type_at(tokens, pos) == expected
}

/// A parse that failed: the error, and how many tokens the parse had gone
/// past when it met the error.
pub struct Failure {
    pub error: ErrorView,
    pub passed: nat,
}

/// What a parse gives from a position on: the tree and the number of tokens
/// that it spans, or the failure.
pub type Parsed<T> = Result<(T, nat), Failure>;

/// The failure with `error`, met after `passed` tokens.
pub open spec fn failed<T>(error: ErrorView, passed: nat) -> Parsed<T> {
    Err(Failure { error, passed })
}

/// `parsed` as it counts from `extra` tokens before: a tree spans that many
/// tokens more, and a failure was met that many tokens later.
pub open spec fn widened<T>(parsed: Parsed<T>, extra: nat) -> Parsed<T> {
    match parsed {
        Ok((tree, span)) => Ok((tree, span + extra)),
        Err(failure) => failed(failure.error, failure.passed + extra),
    }
}

/// primary → `false` | `true` | `nil` | number | string | identifier
///          | `(` expression `)`
pub open spec fn primary(tokens: Seq<TokenView>, pos: int) -> Parsed<ExprView>
    decreases remaining(tokens, pos), 0nat,
{
    let t_type = type_at(tokens, pos);
    if t_type == TokenType::False {
        Ok((ExprView::Literal(LiteralView::False), 1))
    } else if t_type == TokenType::True {
        Ok((ExprView::Literal(LiteralView::True), 1))
    } else if t_type == TokenType::Nil {
        Ok((ExprView::Literal(LiteralView::Nil), 1))
    } else if t_type == TokenType::Number || t_type == TokenType::String {
        match tokens[pos].literal {
            Some(scanner::LiteralView::Number(numeral)) => Ok(
                (ExprView::Literal(LiteralView::Number(numeral)), 1),
            ),
            Some(scanner::LiteralView::String(text)) => Ok(
                (ExprView::Literal(LiteralView::String(text)), 1),
            ),
            _ => failed(expected_expression(tokens, pos), 1),
        }
    } else if t_type == TokenType::Identifier {
        match tokens[pos].literal {
            Some(scanner::LiteralView::Identifier(name)) => Ok(
                (
                    ExprView::Variable(
                        SymbolView { name, line: tokens[pos].line, col: UNKNOWN_COLUMN },
                    ),
                    1,
                ),
            ),
            _ => failed(expected_expression(tokens, pos), 1),
        }
    } else if t_type == TokenType::LeftParen {
        match expression(tokens, pos + 1) {
            Ok((inner, span)) => if comes(tokens, pos + 1 + span, TokenType::RightParen) {
                Ok((ExprView::Grouping(Box::new(inner)), span + 2))
            } else {
                failed(
                    mismatch(
                        tokens,
                        pos + 1 + span,
                        TokenType::RightParen,
                        "Expect ')' after expression"@,
                    ),
                    span + 1,
                )
            },
            Err(failure) => failed(failure.error, failure.passed + 1),
        }
    } else {
        failed(expected_expression(tokens, pos), 0)
    }
}

/// The error for a token at `pos` that starts no expression.
pub open spec fn expected_expression(tokens: Seq<TokenView>, pos: int) -> ErrorView {
    ErrorView::ExpectedExpression {
        token_type: tokens[pos].t_type,
        line: tokens[pos].line,
        col: UNKNOWN_COLUMN,
    }
}

/// unary → ( `-` | `!` ) unary | primary
pub open spec fn unary(tokens: Seq<TokenView>, pos: int) -> Parsed<ExprView>
    decreases remaining(tokens, pos), 1nat,
{
    let t_type = type_at(tokens, pos);
    if t_type == TokenType::Minus || t_type == TokenType::Bang {
        match unary(tokens, pos + 1) {
            Ok((operand, span)) => Ok(
                (ExprView::Unary(unary_operator(tokens[pos]), Box::new(operand)), span + 1),
            ),
            Err(failure) => failed(failure.error, failure.passed + 1),
        }
    } else {
        primary(tokens, pos)
    }
}

/// An operand of `level`: a unary expression for factors, an expression of
/// the level below for the others.
pub open spec fn operand(tokens: Seq<TokenView>, pos: int, level: u8) -> Parsed<ExprView>
    decreases remaining(tokens, pos), 3 * level + 2,
{
    if level == 0 {
        unary(tokens, pos)
    } else {
        binary(tokens, pos, (level - 1) as u8)
    }
}

/// level → operand ( operator operand )*, folded to the left.
pub open spec fn binary(tokens: Seq<TokenView>, pos: int, level: u8) -> Parsed<ExprView>
    decreases remaining(tokens, pos), 3 * level + 4,
{
    match operand(tokens, pos, level) {
        Ok((left, span)) => widened(binary_rest(tokens, pos + span, level, left), span),
        Err(failure) => Err(failure),
    }
}

/// ( operator operand )* after the operand `left`, folded to the left.
pub open spec fn binary_rest(tokens: Seq<TokenView>, pos: int, level: u8, left: ExprView) -> Parsed<
    ExprView,
>
    decreases remaining(tokens, pos), 3 * level + 3,
{
    if is_operator(level, type_at(tokens, pos)) {
        match operand(tokens, pos + 1, level) {
            Ok((right, span)) => widened(
                binary_rest(
                    tokens,
                    pos + 1 + span,
                    level,
                    ExprView::Binary(Box::new(left), binary_operator(tokens[pos]), Box::new(right)),
                ),
                span + 1,
            ),
            Err(failure) => failed(failure.error, failure.passed + 1),
        }
    } else {
        Ok((left, 0))
    }
}

/// assignment → equality ( `=` assignment )?
///
/// What stands left of the `=` must be a variable. Whether it is one is
/// looked at once the value behind the `=` has parsed.
pub open spec fn assignment(tokens: Seq<TokenView>, pos: int) -> Parsed<ExprView>
    decreases remaining(tokens, pos), 1000nat,
{
    match binary(tokens, pos, EQUALITY) {
        Ok((target, span)) => if type_at(tokens, pos + span) == TokenType::Equal {
            match assignment(tokens, pos + span + 1) {
                Ok((value, value_span)) => match target {
                    ExprView::Variable(name) => Ok(
                        (ExprView::Assign(name, Box::new(value)), span + 1 + value_span),
                    ),
                    _ => failed(
                        ErrorView::InvalidAssignment {
                            line: tokens[pos + span].line,
                            col: UNKNOWN_COLUMN,
                        },
                        span + 1 + value_span,
                    ),
                },
                Err(failure) => failed(failure.error, failure.passed + span + 1),
            }
        } else {
            Ok((target, span))
        },
        Err(failure) => Err(failure),
    }
}

/// expression → assignment
pub open spec fn expression(tokens: Seq<TokenView>, pos: int) -> Parsed<ExprView>
    decreases remaining(tokens, pos), 1001nat,
{
    assignment(tokens, pos)
}

/// An expression at `pos` closed by a semicolon.
pub open spec fn closed_expression(tokens: Seq<TokenView>, pos: int, message: Seq<char>) -> Parsed<
    ExprView,
> {
    match expression(tokens, pos) {
        Ok((expr, span)) => if comes(tokens, pos + span, TokenType::Semicolon) {
            Ok((expr, span + 1))
        } else {
            failed(mismatch(tokens, pos + span, TokenType::Semicolon, message), span)
        },
        Err(failure) => Err(failure),
    }
}

/// What follows `print`: expression `;`
pub open spec fn print_statement(tokens: Seq<TokenView>, pos: int) -> Parsed<StmtView> {
    match closed_expression(tokens, pos, "Expected ; after value."@) {
        Ok((expr, span)) => Ok((StmtView::Print(expr), span)),
        Err(failure) => Err(failure),
    }
}

/// expression `;`
pub open spec fn expression_statement(tokens: Seq<TokenView>, pos: int) -> Parsed<StmtView> {
    match closed_expression(tokens, pos, "Expected ; after value."@) {
        Ok((expr, span)) => Ok((StmtView::Expr(expr), span)),
        Err(failure) => Err(failure),
    }
}

/// statement → `print` expression `;` | expression `;`
pub open spec fn statement(tokens: Seq<TokenView>, pos: int) -> Parsed<StmtView> {
    if type_at(tokens, pos) == TokenType::Print {
        widened(print_statement(tokens, pos + 1), 1)
    } else {
        expression_statement(tokens, pos)
    }
}

/// The name that the token at `pos` declares, if the token is an identifier:
/// the name that it carries.
pub open spec fn declared_name(tokens: Seq<TokenView>, pos: int) -> Option<Seq<char>> {
    if comes(tokens, pos, TokenType::Identifier) {
        match tokens[pos].literal {
            Some(scanner::LiteralView::Identifier(name)) => Some(name),
            _ => None,
        }
    } else {
        None
    }
}

/// What follows `var`: identifier ( `=` expression )? `;`
pub open spec fn var_declaration(tokens: Seq<TokenView>, pos: int) -> Parsed<StmtView> {
    match declared_name(tokens, pos) {
        None => failed(
            mismatch(tokens, pos, TokenType::Identifier, "Expect a variable name"@),
            if comes(tokens, pos, TokenType::Identifier) {
                1
            } else {
                0
            },
        ),
        Some(name) => {
            let symbol = SymbolView { name, line: tokens[pos].line, col: UNKNOWN_COLUMN };
            if type_at(tokens, pos + 1) == TokenType::Equal {
                match closed_expression(
                    tokens,
                    pos + 2,
                    "Expect ';' after variable declaration"@,
                ) {
                    Ok((initializer, span)) => Ok(
                        (StmtView::VarDecl(symbol, Some(initializer)), span + 2),
                    ),
                    Err(failure) => failed(failure.error, failure.passed + 2),
                }
            } else if comes(tokens, pos + 1, TokenType::Semicolon) {
                Ok((StmtView::VarDecl(symbol, None), 2))
            } else {
                failed(
                    mismatch(
                        tokens,
                        pos + 1,
                        TokenType::Semicolon,
                        "Expect ';' after variable declaration"@,
                    ),
                    1,
                )
            }
        },
    }
}

/// declaration → `var` … | statement
pub open spec fn declaration(tokens: Seq<TokenView>, pos: int) -> Parsed<StmtView> {
    if type_at(tokens, pos) == TokenType::Var {
        widened(var_declaration(tokens, pos + 1), 1)
    } else {
        statement(tokens, pos)
    }
}

/// True when a token of kind `t_type` starts a declaration.
pub open spec fn starts_declaration(t_type: TokenType) -> bool {
    t_type == TokenType::If || t_type == TokenType::Var || t_type == TokenType::For || t_type
        == TokenType::Fun || t_type == TokenType::While
}

/// True when a statement may start at `pos`: behind a semicolon, at a token
/// that starts a declaration, or at the end of input.
pub open spec fn is_boundary(tokens: Seq<TokenView>, pos: int) -> bool {
    type_at(tokens, pos) == TokenType::Eof || type_at(tokens, pos - 1) == TokenType::Semicolon
        || starts_declaration(type_at(tokens, pos))
}

/// The first statement boundary at or after `pos`.
pub open spec fn next_boundary(tokens: Seq<TokenView>, pos: int) -> int
    decreases remaining(tokens, pos),
{
    if is_boundary(tokens, pos) {
        pos
    } else {
        next_boundary(tokens, pos + 1)
    }
}

/// `first` followed by what the rest of the parse gave, `passed` tokens
/// later.
pub open spec fn statements_then(
    first: Seq<StmtView>,
    passed: nat,
    rest: Result<Seq<StmtView>, Failure>,
) -> Result<Seq<StmtView>, Failure> {
    match rest {
        Ok(more) => Ok(first + more),
        Err(failure) => Err(Failure { error: failure.error, passed: failure.passed + passed }),
    }
}

/// program → declaration* end-of-input
///
/// The statements from `pos` up to the end of input, or the first failure.
pub open spec fn program(tokens: Seq<TokenView>, pos: int) -> Result<Seq<StmtView>, Failure>
    decreases remaining(tokens, pos),
{
    if type_at(tokens, pos) == TokenType::Eof {
        Ok(Seq::empty())
    } else {
        match declaration(tokens, pos) {
            Ok((stmt, span)) => statements_then(
                seq![stmt],
                span,
                program(tokens, pos + span),
            ),
            Err(failure) => Err(failure),
        }
    }
}

/// The program from `pos` is its first declaration followed by the program
/// behind it.
proof fn lemma_program_unfold(
    tokens: Seq<TokenView>,
    pos: int,
    before: Seq<StmtView>,
    passed: nat,
    stmt: StmtView,
    span: nat,
)
    requires
        type_at(tokens, pos) != TokenType::Eof,
        declaration(tokens, pos) == Ok::<(StmtView, nat), Failure>((stmt, span)),
    ensures
        span >= 1,
        statements_then(before, passed, program(tokens, pos)) == statements_then(
            before.push(stmt),
            passed + span,
            program(tokens, pos + span),
        ),
{
    match program(tokens, pos + span) {
        Ok(more) => {
            assert(before + (seq![stmt] + more) =~= before.push(stmt) + more);
        },
        Err(_) => {},
    }
}

/// Where a parse stands in its tokens.
#[derive(Debug)]
pub struct Parser {
    pub current: usize,
    pub tokens: Vec<Token>,
}

impl Default for Parser {
    /// A parser without tokens. It is not well formed: give it the tokens of
    /// a scan before it parses.
    fn default() -> (parser: Self)
        ensures
            parser.current == 0,
            parser.tokens@ == Seq::<Token>::empty(),
    {
        Parser { current: 0, tokens: Vec::new() }
    }
}

impl Parser {
    /// The models of the tokens.
    pub open spec fn views(&self) -> Seq<TokenView> {
        token_views(self.tokens@)
    }

    /// The tokens are well formed and the parse stands on one of them.
    pub open spec fn wf(&self) -> bool {
        &&& well_formed_tokens(self.views())
        &&& self.current < self.tokens@.len()
    }

    /// True when the parse went from `before` to `self` and handed out
    /// `result`, as the grammar's `expected` says: on success the tree, with
    /// the parse standing behind the tokens it spans; on failure the error,
    /// with the parse standing where it met the error.
    pub open spec fn gave<T: View>(
        &self,
        before: Parser,
        result: Result<T, Error>,
        expected: Parsed<T::V>,
    ) -> bool {
        &&& self.tokens == before.tokens
        &&& self.wf()
        &&& match expected {
            Ok((tree, span)) => result matches Ok(found) && found@ == tree && self.current
                == before.current + span,
            Err(failure) => result matches Err(found) && found@ == failure.error && self.current
                == before.current + failure.passed,
        }
    }

    /// A parser that stands on the first of `tokens`, if the tokens are well
    /// formed.
    pub fn new(tokens: Vec<Token>) -> (parser: Option<Parser>)
        ensures
            match parser {
                Some(parser) => parser.tokens == tokens && parser.current == 0 && parser.wf(),
                None => !well_formed_tokens(token_views(tokens@)),
            },
    {
        let ghost views = token_views(tokens@);
        if tokens.len() == 0 {
            return None;
        }
        let mut i: usize = 0;
        while i < tokens.len()
            invariant
                i <= tokens@.len(),
                views == token_views(tokens@),
                forall|k: int| 0 <= k < i ==> scanner::well_formed_token(#[trigger] views[k]),
                forall|k: int|
                    0 <= k < i ==> ((#[trigger] views[k]).t_type == TokenType::Eof <==> k
                        == views.len() - 1),
            decreases tokens@.len() - i,
        {
            let token = &tokens[i];
            let payload_fits = match token.t_type {
                TokenType::Identifier => matches!(token.literal, Some(scanner::Literal::Identifier(_))),
                TokenType::Number => matches!(token.literal, Some(scanner::Literal::Number(_))),
                TokenType::String => matches!(token.literal, Some(scanner::Literal::String(_))),
                _ => token.literal.is_none(),
            };
            let is_last = i == tokens.len() - 1;
            let is_eof = token.t_type == TokenType::Eof;
            if !payload_fits || is_last != is_eof {
                assert(!(scanner::well_formed_token(views[i as int]) && (views[i as int].t_type
                    == TokenType::Eof <==> i == views.len() - 1)));
                return None;
            }
            i += 1;
        }
        Some(Parser { current: 0, tokens })
    }

    /// Skips to the next place where a statement may start: behind a
    /// semicolon, at a token that starts a declaration, or at the end of
    /// input. At least one token is skipped, unless the parse stands at the
    /// end of input.
    pub fn synchronize(&mut self)
        requires
            old(self).wf(),
        ensures
            final(self).tokens == old(self).tokens,
            final(self).wf(),
            final(self).current == next_boundary(
                old(self).views(),
                old(self).current + if type_at(old(self).views(), old(self).current as int)
                    == TokenType::Eof {
                    0int
                } else {
                    1int
                },
            ),
    {
        let ghost tokens = self.views();
        self.advance();
        let ghost from = self.current as int;
        while !self.is_at_end()
            invariant
                self.wf(),
                self.tokens == old(self).tokens,
                tokens == self.views(),
                tokens == old(self).views(),
                from == old(self).current + if type_at(tokens, old(self).current as int)
                    == TokenType::Eof {
                    0int
                } else {
                    1int
                },
                1 <= self.current || type_at(tokens, self.current as int) == TokenType::Eof,
                next_boundary(tokens, from) == next_boundary(tokens, self.current as int),
            decreases self.tokens@.len() - self.current,
        {
            if self.previous().t_type == TokenType::Semicolon {
                return ;
            }
            match self.peek().t_type {
                TokenType::If
                | TokenType::Var
                | TokenType::For
                | TokenType::Fun
                | TokenType::While => {
                    return ;
                },
                _ => {},
            }
            self.advance();
        }
    }

    /// Parses the statements from where the parse stands up to the end of
    /// input. The first error ends the parse, and no statement is handed out.
    pub fn parse(&mut self) -> (result: Result<Vec<Stmt>, Error>)
        requires
            old(self).wf(),
        ensures
            final(self).tokens == old(self).tokens,
            final(self).wf(),
            match program(old(self).views(), old(self).current as int) {
                Ok(stmts) => result matches Ok(found) && stmt_views(found@) == stmts && type_at(
                    final(self).views(),
                    final(self).current as int,
                ) == TokenType::Eof,
                Err(failure) => {
                    &&& result matches Err(found)
                    &&& found@ == failure.error
                    &&& final(self).current == old(self).current + failure.passed
                },
            },
    {
        let mut statements: Vec<Stmt> = Vec::new();
        let ghost tokens = self.views();
        let ghost start = self.current as int;
        while !self.is_at_end()
            invariant
                self.wf(),
                self.tokens == old(self).tokens,
                tokens == self.views(),
                tokens == old(self).views(),
                start == old(self).current,
                start <= self.current,
                program(tokens, start) == statements_then(
                    stmt_views(statements@),
                    (self.current - start) as nat,
                    program(tokens, self.current as int),
                ),
            decreases self.tokens@.len() - self.current,
        {
            let ghost pos = self.current as int;
            let ghost found = stmt_views(statements@);
            match self.declaration() {
                Ok(stmt) => {
                    proof {
                        lemma_program_unfold(
                            tokens,
                            pos,
                            found,
                            (pos - start) as nat,
                            stmt@,
                            (self.current - pos) as nat,
                        );
                        assert(stmt_views(statements@.push(stmt)) =~= found.push(stmt@));
                    }
                    statements.push(stmt);
                },
                Err(error) => {
                    return Err(error);
                },
            }
        }
        Ok(statements)
    }

    fn declaration(&mut self) -> (result: Result<Stmt, Error>)
        requires
            old(self).wf(),
        ensures
            final(self).gave(
                *old(self),
                result,
                declaration(old(self).views(), old(self).current as int),
            ),
    {
        if self.match_one(TokenType::Var) {
            return self.var_declaration();
        }
        self.statement()
    }

    fn var_declaration(&mut self) -> (result: Result<Stmt, Error>)
        requires
            old(self).wf(),
        ensures
            final(self).gave(
                *old(self),
                result,
                var_declaration(old(self).views(), old(self).current as int),
            ),
    {
        let name_token = match self.consume(TokenType::Identifier, "Expect a variable name") {
            Ok(token) => token,
            Err(error) => {
                return Err(error);
            },
        };
        let name = match &name_token.literal {
            Some(scanner::Literal::Identifier(name)) => name.clone(),
            _ => {
                return Err(
                    Error::TokenMissmatch {
                        expected: TokenType::Identifier,
                        found: name_token,
                        message: Some(String::from_str("Expect a variable name")),
                    },
                );
            },
        };
        let mut initializer = None;
        if self.match_one(TokenType::Equal) {
            initializer =
            Some(
                match self.expression() {
                    Ok(expr) => expr,
                    Err(error) => {
                        return Err(error);
                    },
                },
            );
        }
        match self.consume(TokenType::Semicolon, "Expect ';' after variable declaration") {
            Ok(_) => {},
            Err(error) => {
                return Err(error);
            },
        }
        let stmt = Stmt::VarDecl(
            Symbol { name, line: name_token.line, col: UNKNOWN_COLUMN },
            initializer,
        );
        Ok(stmt)
    }

    fn statement(&mut self) -> (result: Result<Stmt, Error>)
        requires
            old(self).wf(),
        ensures
            final(self).gave(
                *old(self),
                result,
                statement(old(self).views(), old(self).current as int),
            ),
    {
        if self.match_one(TokenType::Print) {
            return self.print_stmt();
        }
        self.expression_stmt()
    }

    /// What follows `print`.
    fn print_stmt(&mut self) -> (result: Result<Stmt, Error>)
        requires
            old(self).wf(),
        ensures
            final(self).gave(
                *old(self),
                result,
                print_statement(old(self).views(), old(self).current as int),
            ),
    {
        let expr = match self.expression() {
            Ok(expr) => expr,
            Err(error) => {
                return Err(error);
            },
        };
        match self.consume(TokenType::Semicolon, "Expected ; after value.") {
            Ok(_) => {},
            Err(error) => {
                return Err(error);
            },
        }
        let stmt = Stmt::Print(expr);
        Ok(stmt)
    }

    fn expression_stmt(&mut self) -> (result: Result<Stmt, Error>)
        requires
            old(self).wf(),
        ensures
            final(self).gave(
                *old(self),
                result,
                expression_statement(old(self).views(), old(self).current as int),
            ),
    {
        let expr = match self.expression() {
            Ok(expr) => expr,
            Err(error) => {
                return Err(error);
            },
        };
        match self.consume(TokenType::Semicolon, "Expected ; after value.") {
            Ok(_) => {},
            Err(error) => {
                return Err(error);
            },
        }
        let stmt = Stmt::Expr(expr);
        Ok(stmt)
    }

    fn expression(&mut self) -> (result: Result<Expr, Error>)
        requires
            old(self).wf(),
        ensures
            final(self).gave(
                *old(self),
                result,
                expression(old(self).views(), old(self).current as int),
            ),
        decreases remaining(old(self).views(), old(self).current as int), 1001nat,
    {
        self.assignment()
    }

    fn assignment(&mut self) -> (result: Result<Expr, Error>)
        requires
            old(self).wf(),
        ensures
            final(self).gave(
                *old(self),
                result,
                assignment(old(self).views(), old(self).current as int),
            ),
        decreases remaining(old(self).views(), old(self).current as int), 1000nat,
    {
        let expr = match self.equality() {
            Ok(expr) => expr,
            Err(error) => {
                return Err(error);
            },
        };
        if self.match_one(TokenType::Equal) {
            let line = self.previous().line;
            let assigned = match self.assignment() {
                Ok(assigned) => assigned,
                Err(error) => {
                    return Err(error);
                },
            };
            return match expr {
                Expr::Variable(symbol) => Ok(Expr::Assign(symbol, Box::new(assigned))),
                _ => Err(Error::InvalidAssignment { line, col: UNKNOWN_COLUMN }),
            };
        }
        Ok(expr)
    }

    fn equality(&mut self) -> (result: Result<Expr, Error>)
        requires
            old(self).wf(),
        ensures
            final(self).gave(
                *old(self),
                result,
                binary(old(self).views(), old(self).current as int, EQUALITY),
            ),
        decreases remaining(old(self).views(), old(self).current as int), 3 * EQUALITY + 4,
    {
        let expr = match self.comparison() {
            Ok(expr) => expr,
            Err(error) => {
                return Err(error);
            },
        };
        self.fold_operators(EQUALITY, expr)
    }

    fn comparison(&mut self) -> (result: Result<Expr, Error>)
        requires
            old(self).wf(),
        ensures
            final(self).gave(
                *old(self),
                result,
                binary(old(self).views(), old(self).current as int, COMPARISON),
            ),
        decreases remaining(old(self).views(), old(self).current as int), 3 * COMPARISON + 4,
    {
        let expr = match self.term() {
            Ok(expr) => expr,
            Err(error) => {
                return Err(error);
            },
        };
        self.fold_operators(COMPARISON, expr)
    }

    fn term(&mut self) -> (result: Result<Expr, Error>)
        requires
            old(self).wf(),
        ensures
            final(self).gave(
                *old(self),
                result,
                binary(old(self).views(), old(self).current as int, TERM),
            ),
        decreases remaining(old(self).views(), old(self).current as int), 3 * TERM + 4,
    {
        let expr = match self.factor() {
            Ok(expr) => expr,
            Err(error) => {
                return Err(error);
            },
        };
        self.fold_operators(TERM, expr)
    }

    fn factor(&mut self) -> (result: Result<Expr, Error>)
        requires
            old(self).wf(),
        ensures
            final(self).gave(
                *old(self),
                result,
                binary(old(self).views(), old(self).current as int, FACTOR),
            ),
        decreases remaining(old(self).views(), old(self).current as int), 3 * FACTOR + 4,
    {
        let expr = match self.unary() {
            Ok(expr) => expr,
            Err(error) => {
                return Err(error);
            },
        };
        self.fold_operators(FACTOR, expr)
    }

    /// Parses an operand of `level`.
    fn operand(&mut self, level: u8) -> (result: Result<Expr, Error>)
        requires
            old(self).wf(),
            level <= EQUALITY,
        ensures
            final(self).gave(
                *old(self),
                result,
                operand(old(self).views(), old(self).current as int, level),
            ),
        decreases remaining(old(self).views(), old(self).current as int), 3 * level + 2,
    {
        if level == FACTOR {
            self.unary()
        } else if level == TERM {
            self.factor()
        } else if level == COMPARISON {
            self.term()
        } else {
            self.comparison()
        }
    }

    /// The kinds of token that are operators of `level`.
    fn operators(level: u8) -> (kinds: Vec<TokenType>)
        ensures
            forall|t_type: TokenType| kinds@.contains(t_type) <==> is_operator(level, t_type),
    {
        let kinds = if level == FACTOR {
            vec![TokenType::Slash, TokenType::Star]
        } else if level == TERM {
            vec![TokenType::Plus, TokenType::Minus]
        } else if level == COMPARISON {
            vec![
                TokenType::Greater,
                TokenType::GreaterEqual,
                TokenType::Less,
                TokenType::LessEqual,
            ]
        } else if level == EQUALITY {
            vec![TokenType::BangEqual, TokenType::EqualEqual]
        } else {
            Vec::new()
        };
        assert(forall|t_type: TokenType| kinds@.contains(t_type) <==> is_operator(level, t_type));
        kinds
    }

    /// Parses the operators of `level` and their operands that follow the
    /// operand `left`, and folds them to the left: each operator takes all
    /// that was parsed before it as its left side.
    fn fold_operators(&mut self, level: u8, left: Expr) -> (result: Result<Expr, Error>)
        requires
            old(self).wf(),
            level <= EQUALITY,
        ensures
            final(self).gave(
                *old(self),
                result,
                binary_rest(old(self).views(), old(self).current as int, level, left@),
            ),
        decreases remaining(old(self).views(), old(self).current as int), 3 * level + 3,
    {
        let ghost tokens = self.views();
        let ghost start = self.current as int;
        let ghost first = left@;
        let mut expr = left;
        loop
            invariant
                self.wf(),
                self.tokens == old(self).tokens,
                tokens == self.views(),
                tokens == old(self).views(),
                start == old(self).current,
                first == left@,
                level <= EQUALITY,
                start <= self.current,
                binary_rest(tokens, start, level, first) == widened(
                    binary_rest(tokens, self.current as int, level, expr@),
                    (self.current - start) as nat,
                ),
            ensures
                final(self).gave(
                    *old(self),
                    Ok::<Expr, Error>(expr),
                    binary_rest(tokens, start, level, first),
                ),
            decreases self.tokens@.len() - self.current,
        {
            let kinds = Self::operators(level);
            if !self.matches(kinds) {
                break ;
            }
            let binary_op = Self::token_to_binary_operator(self.previous());
            let right = match self.operand(level) {
                Ok(right) => right,
                Err(error) => {
                    return Err(error);
                },
            };
            expr = Expr::Binary(Box::new(expr), binary_op, Box::new(right));
        }
        Ok(expr)
    }

    fn unary(&mut self) -> (result: Result<Expr, Error>)
        requires
            old(self).wf(),
        ensures
            final(self).gave(*old(self), result, unary(old(self).views(), old(self).current as int)),
        decreases remaining(old(self).views(), old(self).current as int), 1nat,
    {
        if self.matches(vec![TokenType::Minus, TokenType::Bang]) {
            let unary_op = Self::token_to_unary_op(self.previous());
            // One and only one further unary.
            let right = match self.unary() {
                Ok(right) => right,
                Err(error) => {
                    return Err(error);
                },
            };
            return Ok(Expr::Unary(unary_op, Box::new(right)));
        }
        self.primary()
    }

    fn primary(&mut self) -> (result: Result<Expr, Error>)
        requires
            old(self).wf(),
        ensures
            final(self).gave(
                *old(self),
                result,
                primary(old(self).views(), old(self).current as int),
            ),
        decreases remaining(old(self).views(), old(self).current as int), 0nat,
    {
        if self.match_one(TokenType::False) {
            return Ok(Expr::Literal(Literal::False));
        }
        if self.match_one(TokenType::True) {
            return Ok(Expr::Literal(Literal::True));
        }
        if self.match_one(TokenType::Nil) {
            return Ok(Expr::Literal(Literal::Nil));
        }
        if self.matches(vec![TokenType::Number, TokenType::String]) {
            let token = self.previous();
            match &token.literal {
                Some(scanner::Literal::Number(numeral)) => {
                    return Ok(Expr::Literal(Literal::Number(numeral.clone())));
                },
                Some(scanner::Literal::String(text)) => {
                    return Ok(Expr::Literal(Literal::String(text.clone())));
                },
                _ => {
                    return Err(
                        Error::ExpectedExpression {
                            token_type: token.t_type,
                            line: token.line,
                            col: UNKNOWN_COLUMN,
                        },
                    );
                },
            }
        }
        if self.match_one(TokenType::Identifier) {
            let token = self.previous();
            match &token.literal {
                Some(scanner::Literal::Identifier(name)) => {
                    return Ok(
                        Expr::Variable(
                            Symbol { name: name.clone(), line: token.line, col: UNKNOWN_COLUMN },
                        ),
                    );
                },
                _ => {
                    return Err(
                        Error::ExpectedExpression {
                            token_type: token.t_type,
                            line: token.line,
                            col: UNKNOWN_COLUMN,
                        },
                    );
                },
            }
        }
        if self.match_one(TokenType::LeftParen) {
            let expr = match self.expression() {
                Ok(expr) => expr,
                Err(error) => {
                    return Err(error);
                },
            };
            match self.consume(TokenType::RightParen, "Expect ')' after expression") {
                Ok(_) => {},
                Err(error) => {
                    return Err(error);
                },
            }
            return Ok(Expr::Grouping(Box::new(expr)));
        }
        let current = self.peek();
        Err(
            Error::ExpectedExpression {
                token_type: current.t_type,
                line: current.line,
                col: UNKNOWN_COLUMN,
            },
        )
    }

    fn token_to_unary_op(token: &Token) -> (op: UnaryOp)
        requires
            is_unary_operator(token@.t_type),
        ensures
            op == unary_operator(token@),
    {
        let line = token.line;
        let col = UNKNOWN_COLUMN;
        match token.t_type {
            TokenType::Minus => UnaryOp { op_type: UnaryOpType::Minus, line, col },
            TokenType::Bang => UnaryOp { op_type: UnaryOpType::Bang, line, col },
            _ => UnaryOp { op_type: UnaryOpType::Bang, line, col },
        }
    }

    fn token_to_binary_operator(token: &Token) -> (op: BinaryOp)
        requires
            is_binary_operator(token@.t_type),
        ensures
            op == binary_operator(token@),
    {
        let line = token.line;
        let col = UNKNOWN_COLUMN;
        match token.t_type {
            TokenType::BangEqual => BinaryOp { op_type: BinaryOpType::BangEqual, line, col },
            TokenType::EqualEqual => BinaryOp { op_type: BinaryOpType::EqualEqual, line, col },
            TokenType::Greater => BinaryOp { op_type: BinaryOpType::Greater, line, col },
            TokenType::GreaterEqual => BinaryOp { op_type: BinaryOpType::GreaterEqual, line, col },
            TokenType::Less => BinaryOp { op_type: BinaryOpType::Less, line, col },
            TokenType::Plus => BinaryOp { op_type: BinaryOpType::Plus, line, col },
            TokenType::Minus => BinaryOp { op_type: BinaryOpType::Minus, line, col },
            TokenType::LessEqual => BinaryOp { op_type: BinaryOpType::LessEqual, line, col },
            TokenType::Slash => BinaryOp { op_type: BinaryOpType::Slash, line, col },
            TokenType::Star => BinaryOp { op_type: BinaryOpType::Star, line, col },
            _ => BinaryOp { op_type: BinaryOpType::LessEqual, line, col },
        }
    }

    /// Consumes the token on which the parse stands if it is of one of the
    /// given kinds.
    fn matches(&mut self, token_types: Vec<TokenType>) -> (matched: bool)
        requires
            old(self).wf(),
        ensures
            final(self).tokens == old(self).tokens,
            final(self).wf(),
            matched == exists|k: int|
                0 <= k < token_types@.len() && comes(
                    old(self).views(),
                    old(self).current as int,
                    #[trigger] token_types@[k],
                ),
            final(self).current == old(self).current + if matched {
                1int
            } else {
                0int
            },
    {
        let mut i: usize = 0;
        while i < token_types.len()
            invariant
                i <= token_types@.len(),
                self.wf(),
                *self == *old(self),
                forall|k: int|
                    0 <= k < i ==> !comes(
                        self.views(),
                        self.current as int,
                        #[trigger] token_types@[k],
                    ),
            decreases token_types@.len() - i,
        {
            if self.match_one(token_types[i]) {
                return true;
            }
            i += 1;
        }
        false
    }

    /// Consumes the token on which the parse stands if it is of the given
    /// kind.
    fn match_one(&mut self, token_type: TokenType) -> (matched: bool)
        requires
            old(self).wf(),
        ensures
            final(self).tokens == old(self).tokens,
            final(self).wf(),
            matched == comes(old(self).views(), old(self).current as int, token_type),
            final(self).current == old(self).current + if matched {
                1int
            } else {
                0int
            },
    {
        if self.check(token_type) {
            self.advance();
            return true;
        }
        false
    }

    fn check(&self, token_type: TokenType) -> (same: bool)
        requires
            self.wf(),
        ensures
            same == comes(self.views(), self.current as int, token_type),
    {
        if self.is_at_end() {
            false
        } else {
            self.peek().t_type == token_type
        }
    }

    /// Consumes a token of the given kind, or fails with `message`.
    fn consume(&mut self, token_type: TokenType, message: &str) -> (result: Result<Token, Error>)
        requires
            old(self).wf(),
        ensures
            final(self).tokens == old(self).tokens,
            final(self).wf(),
            if comes(old(self).views(), old(self).current as int, token_type) {
                &&& result matches Ok(token)
                &&& token@ == old(self).views()[old(self).current as int]
                &&& final(self).current == old(self).current + 1
            } else {
                &&& result matches Err(error)
                &&& error@ == mismatch(
                    old(self).views(),
                    old(self).current as int,
                    token_type,
                    message@,
                )
                &&& final(self).current == old(self).current
            },
    {
        if self.check(token_type) {
            self.advance();
            return Ok(self.previous().clone());
        }
        Err(
            Error::TokenMissmatch {
                expected: token_type,
                found: self.peek().clone(),
                message: Some(String::from_str(message)),
            },
        )
    }

    /// Steps over the token on which the parse stands, unless it is the end
    /// of input.
    fn advance(&mut self)
        requires
            old(self).wf(),
        ensures
            final(self).tokens == old(self).tokens,
            final(self).wf(),
            final(self).current == old(self).current + if type_at(
                old(self).views(),
                old(self).current as int,
            ) == TokenType::Eof {
                0int
            } else {
                1int
            },
    {
        if !self.is_at_end() {
            assert(self.tokens@.len() == self.tokens.len());
            self.current += 1;
        }
    }

    /// The token on which the parse stands.
    fn peek(&self) -> (token: &Token)
        requires
            self.current < self.tokens@.len(),
        ensures
            *token == self.tokens@[self.current as int],
    {
        &self.tokens[self.current]
    }

    /// The token before the one on which the parse stands.
    fn previous(&self) -> (token: &Token)
        requires
            1 <= self.current <= self.tokens@.len(),
        ensures
            *token == self.tokens@[self.current - 1],
    {
        &self.tokens[self.current - 1]
    }

    fn is_at_end(&self) -> (at_end: bool)
        requires
            self.current < self.tokens@.len(),
        ensures
            at_end == (type_at(self.views(), self.current as int) == TokenType::Eof),
    {
        self.peek().t_type == TokenType::Eof
    }
}

} // verus!
