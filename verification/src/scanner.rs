//! The scanner: source bytes to tokens.
//!
//! A lexical error does not stop the scan. A byte that starts no token is
//! passed over and the scan goes on behind it; a string that is not closed
//! runs to the end of the source. Every error is handed out beside the
//! tokens, in the order in which it was met, and the tokens of every source
//! end in the end-of-input token.

use crate::error_format::UNKNOWN_COLUMN;
use crate::text::{
    decode_text, is_ascii_byte, lemma_boundary_after_ascii, lemma_boundary_at_ascii,
    lemma_valid_between,
};
use vstd::prelude::*;
use vstd::slice::*;
use vstd::string::*;
use vstd::utf8::*;

verus! {

#[derive(Clone, Copy, Debug, PartialEq, Eq, Structural)]
pub enum TokenType {
    // Single-character tokens.
    LeftParen,
    RightParen,
    LeftBrace,
    RightBrace,
    Comma,
    Dot,
    Minus,
    Plus,
    Semicolon,
    Slash,
    Star,
    // One or two character tokens.
    Bang,
    BangEqual,
    Equal,
    EqualEqual,
    Greater,
    GreaterEqual,
    Less,
    LessEqual,
    // Literals.
    Identifier,
    String,
    Number,
    // Keywords.
    And,
    Class,
    Else,
    False,
    Fun,
    For,
    If,
    Nil,
    Or,
    Print,
    Return,
    Super,
    This,
    True,
    Var,
    While,
    Eof,
}

/// What a literal token carries: the name of an identifier, the numeral of a
/// number as written, or the text between the quotes of a string.
#[derive(Debug, PartialEq)]
pub enum Literal {
    Identifier(String),
    Number(String),
    String(String),
}

/// The model of a [`Literal`].
pub enum LiteralView {
    Identifier(Seq<char>),
    Number(Seq<char>),
    String(Seq<char>),
}

impl View for Literal {
    type V = LiteralView;

    open spec fn view(&self) -> LiteralView {
        match self {
            Literal::Identifier(name) => LiteralView::Identifier(name@),
            Literal::Number(numeral) => LiteralView::Number(numeral@),
            Literal::String(text) => LiteralView::String(text@),
        }
    }
}

impl Clone for Literal {
    fn clone(&self) -> (copy: Self)
        ensures
            copy@ == self@,
    {
        match self {
            Literal::Identifier(name) => Literal::Identifier(name.clone()),
            Literal::Number(numeral) => Literal::Number(numeral.clone()),
            Literal::String(text) => Literal::String(text.clone()),
        }
    }
}

/// A classified, located piece of the source.
#[derive(Debug, PartialEq)]
pub struct Token {
    pub t_type: TokenType,
    pub lexeme: Vec<u8>,
    pub line: usize,
    pub literal: Option<Literal>,
}

/// The model of a [`Token`].
pub struct TokenView {
    pub t_type: TokenType,
    pub lexeme: Seq<u8>,
    pub line: usize,
    pub literal: Option<LiteralView>,
}

impl View for Token {
    type V = TokenView;

    open spec fn view(&self) -> TokenView {
        TokenView {
            t_type: self.t_type,
            lexeme: self.lexeme@,
            line: self.line,
            literal: match self.literal {
                Some(literal) => Some(literal@),
                None => None,
            },
        }
    }
}

impl Clone for Token {
    fn clone(&self) -> (copy: Self)
        ensures
            copy@ == self@,
    {
        let literal = match &self.literal {
            Some(literal) => Some(literal.clone()),
            None => None,
        };
        Token {
            t_type: self.t_type,
            lexeme: slice_to_vec(self.lexeme.as_slice()),
            line: self.line,
            literal,
        }
    }
}

/// The models of a run of tokens, in order.
pub open spec fn token_views(tokens: Seq<Token>) -> Seq<TokenView> {
    tokens.map_values(|token: Token| token@)
}

/// A literal token carries the payload of its kind, and no other token
/// carries one.
pub open spec fn well_formed_token(token: TokenView) -> bool {
    match token.t_type {
        TokenType::Identifier => token.literal matches Some(LiteralView::Identifier(_)),
        TokenType::Number => token.literal matches Some(LiteralView::Number(_)),
        TokenType::String => token.literal matches Some(LiteralView::String(_)),
        _ => token.literal is None,
    }
}

/// A run of tokens that a parser accepts: every token is well formed, and the
/// last one, and no other, is the end-of-input token.
pub open spec fn well_formed_tokens(tokens: Seq<TokenView>) -> bool {
    &&& tokens.len() > 0
    &&& forall|i: int| 0 <= i < tokens.len() ==> well_formed_token(#[trigger] tokens[i])
    &&& forall|i: int|
        0 <= i < tokens.len() ==> ((#[trigger] tokens[i]).t_type == TokenType::Eof <==> i
            == tokens.len() - 1)
}

/// The two kinds of lexical error.
#[derive(Clone, Copy, Debug, PartialEq, Eq, Structural)]
pub enum LexErrorKind {
    /// A byte that starts no token.
    InvalidCharacter(u8),
    /// A string literal whose closing quote is missing.
    UnterminatedString,
}

/// A lexical error and the line on which it was found.
#[derive(Clone, Copy, Debug, PartialEq, Eq, Structural)]
pub struct LexError {
    pub kind: LexErrorKind,
    pub line: usize,
    pub col: i64,
}

impl LexError {
    /// The text of the message for this error.
    pub open spec fn message_text(self) -> Seq<char> {
        match self.kind {
            LexErrorKind::InvalidCharacter(byte) => "Invalid character: "@.push(byte as char),
            LexErrorKind::UnterminatedString => "Unterminated string."@,
        }
    }

    /// The message for this error, as it goes into the diagnostic line.
    pub fn message(&self) -> (text: String)
        ensures
            text@ == self.message_text(),
    {
        match self.kind {
            LexErrorKind::InvalidCharacter(byte) => {
                let mut text = String::from_str("Invalid character: ");
                text.push(byte as char);
                text
            },
            LexErrorKind::UnterminatedString => String::from_str("Unterminated string."),
        }
    }
}

// The bytes that the scanner tells apart.
pub const LEFT_PAREN: u8 = 0x28;
pub const RIGHT_PAREN: u8 = 0x29;
pub const LEFT_BRACE: u8 = 0x7b;
pub const RIGHT_BRACE: u8 = 0x7d;
pub const COMMA: u8 = 0x2c;
pub const DOT: u8 = 0x2e;
pub const MINUS: u8 = 0x2d;
pub const PLUS: u8 = 0x2b;
pub const STAR: u8 = 0x2a;
pub const SEMICOLON: u8 = 0x3b;
pub const SLASH: u8 = 0x2f;
pub const BANG: u8 = 0x21;
pub const EQUAL: u8 = 0x3d;
pub const LESS: u8 = 0x3c;
pub const GREATER: u8 = 0x3e;
pub const QUOTE: u8 = 0x22;
pub const SPACE: u8 = 0x20;
pub const TAB: u8 = 0x09;
pub const LINE_FEED: u8 = 0x0a;
pub const CARRIAGE_RETURN: u8 = 0x0d;
pub const DIGIT_ZERO: u8 = 0x30;
pub const DIGIT_NINE: u8 = 0x39;
pub const UPPER_A: u8 = 0x41;
pub const UPPER_Z: u8 = 0x5a;
pub const LOWER_A: u8 = 0x61;
pub const LOWER_Z: u8 = 0x7a;
pub const UNDERSCORE: u8 = 0x5f;

/// An ASCII decimal digit.
pub open spec fn is_digit(byte: u8) -> bool {
    DIGIT_ZERO <= byte <= DIGIT_NINE
}

/// An ASCII letter or an underscore.
pub open spec fn is_alpha(byte: u8) -> bool {
    (LOWER_A <= byte <= LOWER_Z) || (UPPER_A <= byte <= UPPER_Z) || byte == UNDERSCORE
}

pub open spec fn is_alpha_numeric(byte: u8) -> bool {
    is_alpha(byte) || is_digit(byte)
}

/// The first position at or after `pos` that holds no digit.
pub open spec fn digits_end(src: Seq<u8>, pos: int) -> int
    decreases src.len() - pos,
{
    if 0 <= pos < src.len() && is_digit(src[pos]) {
        digits_end(src, pos + 1)
    } else {
        pos
    }
}

/// The first position at or after `pos` that holds no letter, digit or
/// underscore.
pub open spec fn name_end(src: Seq<u8>, pos: int) -> int
    decreases src.len() - pos,
{
    if 0 <= pos < src.len() && is_alpha_numeric(src[pos]) {
        name_end(src, pos + 1)
    } else {
        pos
    }
}

/// The first position at or after `pos` that holds a line feed, or the end of
/// the source.
pub open spec fn line_end(src: Seq<u8>, pos: int) -> int
    decreases src.len() - pos,
{
    if 0 <= pos < src.len() && src[pos] != LINE_FEED {
        line_end(src, pos + 1)
    } else {
        pos
    }
}

/// The first position at or after `pos` that holds a double quote, or the end
/// of the source.
pub open spec fn quote_position(src: Seq<u8>, pos: int) -> int
    decreases src.len() - pos,
{
    if 0 <= pos < src.len() && src[pos] != QUOTE {
        quote_position(src, pos + 1)
    } else {
        pos
    }
}

/// How many line feeds lie in `src[from..to]`.
pub open spec fn line_feeds(src: Seq<u8>, from: int, to: int) -> nat
    decreases to - from,
{
    if to <= from {
        0
    } else {
        line_feeds(src, from, to - 1) + if src[to - 1] == LINE_FEED {
            1nat
        } else {
            0nat
        }
    }
}

/// The line that is reached from `line` after `feeds` line feeds. Lines are
/// counted up to the largest number that a `usize` holds.
pub open spec fn line_after(line: usize, feeds: nat) -> usize {
    if line + feeds > usize::MAX {
        usize::MAX
    } else {
        (line + feeds) as usize
    }
}

/// Where the number that starts at `start` ends: after its digits, and after
/// a fraction if a dot and at least one digit follow them.
pub open spec fn number_end(src: Seq<u8>, start: int) -> int {
    let whole = digits_end(src, start);
    if whole + 1 < src.len() && src[whole] == DOT && is_digit(src[whole + 1]) {
        digits_end(src, whole + 1)
    } else {
        whole
    }
}

/// True when every byte of `bytes[from..to]` is a digit, and there is at
/// least one.
pub open spec fn digits(bytes: Seq<u8>, from: int, to: int) -> bool {
    &&& 0 <= from < to <= bytes.len()
    &&& forall|k: int| from <= k < to ==> is_digit(#[trigger] bytes[k])
}

/// True when `bytes` is a numeral: one or more digits, and after them
/// nothing, or a dot and one or more digits.
pub open spec fn is_numeral(bytes: Seq<u8>) -> bool {
    exists|whole: int|
        #[trigger] digits(bytes, 0, whole) && (whole == bytes.len() || (bytes[whole] == DOT
            && digits(bytes, whole + 1, bytes.len() as int)))
}

/// True when `bytes` spells the ASCII word `word`.
pub open spec fn spells(bytes: Seq<u8>, word: Seq<char>) -> bool {
    bytes == Seq::new(word.len(), |i: int| word[i] as u8)
}

/// The keyword that `name` spells, if it spells one.
pub open spec fn keyword(name: Seq<u8>) -> Option<TokenType> {
    if spells(name, "and"@) {
        Some(TokenType::And)
    } else if spells(name, "class"@) {
        Some(TokenType::Class)
    } else if spells(name, "else"@) {
        Some(TokenType::Else)
    } else if spells(name, "false"@) {
        Some(TokenType::False)
    } else if spells(name, "for"@) {
        Some(TokenType::For)
    } else if spells(name, "fun"@) {
        Some(TokenType::Fun)
    } else if spells(name, "if"@) {
        Some(TokenType::If)
    } else if spells(name, "nil"@) {
        Some(TokenType::Nil)
    } else if spells(name, "or"@) {
        Some(TokenType::Or)
    } else if spells(name, "print"@) {
        Some(TokenType::Print)
    } else if spells(name, "return"@) {
        Some(TokenType::Return)
    } else if spells(name, "super"@) {
        Some(TokenType::Super)
    } else if spells(name, "this"@) {
        Some(TokenType::This)
    } else if spells(name, "true"@) {
        Some(TokenType::True)
    } else if spells(name, "var"@) {
        Some(TokenType::Var)
    } else if spells(name, "while"@) {
        Some(TokenType::While)
    } else {
        None
    }
}

/// What scanning one piece of the source gives: where the next piece starts,
/// the line there, the token, if the piece was one, and the error, if the
/// piece was none and no blank space either.
pub struct Scanned {
    pub next: int,
    pub line: usize,
    pub token: Option<TokenView>,
    pub error: Option<LexError>,
}

/// A token without a payload, spelled by `src[start..end]`.
pub open spec fn plain_token(
    t_type: TokenType,
    src: Seq<u8>,
    start: int,
    end: int,
    line: usize,
) -> TokenView {
    TokenView { t_type, lexeme: src.subrange(start, end), line, literal: None }
}

/// The step for a token without a payload.
pub open spec fn plain_step(
    t_type: TokenType,
    src: Seq<u8>,
    start: int,
    end: int,
    line: usize,
) -> Scanned {
    Scanned {
        next: end,
        line,
        token: Some(plain_token(t_type, src, start, end, line)),
        error: None,
    }
}

/// The step for an operator that may be followed by `=`.
pub open spec fn operator_step(
    with_equal: TokenType,
    alone: TokenType,
    src: Seq<u8>,
    start: int,
    line: usize,
) -> Scanned {
    if start + 1 < src.len() && src[start + 1] == EQUAL {
        plain_step(with_equal, src, start, start + 2, line)
    } else {
        plain_step(alone, src, start, start + 1, line)
    }
}

/// The step for a string literal whose opening quote is at `start`. A
/// string without a closing quote takes the rest of the source and gives an
/// error in place of a token.
pub open spec fn string_step(src: Seq<u8>, start: int, line: usize) -> Scanned {
    let close = quote_position(src, start + 1);
    let last_line = line_after(line, line_feeds(src, start + 1, close));
    if close >= src.len() {
        Scanned {
            next: close,
            line: last_line,
            token: None,
            error: Some(
                LexError {
                    kind: LexErrorKind::UnterminatedString,
                    line: last_line,
                    col: UNKNOWN_COLUMN,
                },
            ),
        }
    } else {
        Scanned {
            next: close + 1,
            line: last_line,
            token: Some(
                TokenView {
                    t_type: TokenType::String,
                    lexeme: src.subrange(start, close + 1),
                    line: last_line,
                    literal: Some(LiteralView::String(decode_utf8(src.subrange(start + 1, close)))),
                },
            ),
            error: None,
        }
    }
}

/// The step for a number whose first digit is at `start`.
pub open spec fn number_step(src: Seq<u8>, start: int, line: usize) -> Scanned {
    let end = number_end(src, start);
    let lexeme = src.subrange(start, end);
    Scanned {
        next: end,
        line,
        token: Some(
            TokenView {
                t_type: TokenType::Number,
                lexeme,
                line,
                literal: Some(LiteralView::Number(decode_utf8(lexeme))),
            },
        ),
        error: None,
    }
}

/// The step for a keyword or an identifier whose first byte is at `start`.
pub open spec fn name_step(src: Seq<u8>, start: int, line: usize) -> Scanned {
    let end = name_end(src, start);
    let lexeme = src.subrange(start, end);
    match keyword(lexeme) {
        Some(t_type) => plain_step(t_type, src, start, end, line),
        None => Scanned {
            next: end,
            line,
            token: Some(
                TokenView {
                    t_type: TokenType::Identifier,
                    lexeme,
                    line,
                    literal: Some(LiteralView::Identifier(decode_utf8(lexeme))),
                },
            ),
            error: None,
        },
    }
}

/// The step over a piece that is no token and no error: blank space, a line
/// feed or a comment.
pub open spec fn blank_step(next: int, line: usize) -> Scanned {
    Scanned { next, line, token: None, error: None }
}

/// Scans the piece of `src` that starts at `start`, on line `line`: one
/// token, a blank, a line feed, a comment, or a byte that starts no token and
/// is passed over with an error.
pub open spec fn scan_step(src: Seq<u8>, start: int, line: usize) -> Scanned
    recommends
        0 <= start < src.len(),
{
    let c = src[start];
    if c == LEFT_PAREN {
        plain_step(TokenType::LeftParen, src, start, start + 1, line)
    } else if c == RIGHT_PAREN {
        plain_step(TokenType::RightParen, src, start, start + 1, line)
    } else if c == LEFT_BRACE {
        plain_step(TokenType::LeftBrace, src, start, start + 1, line)
    } else if c == RIGHT_BRACE {
        plain_step(TokenType::RightBrace, src, start, start + 1, line)
    } else if c == COMMA {
        plain_step(TokenType::Comma, src, start, start + 1, line)
    } else if c == DOT {
        plain_step(TokenType::Dot, src, start, start + 1, line)
    } else if c == MINUS {
        plain_step(TokenType::Minus, src, start, start + 1, line)
    } else if c == PLUS {
        plain_step(TokenType::Plus, src, start, start + 1, line)
    } else if c == STAR {
        plain_step(TokenType::Star, src, start, start + 1, line)
    } else if c == SEMICOLON {
        plain_step(TokenType::Semicolon, src, start, start + 1, line)
    } else if c == BANG {
        operator_step(TokenType::BangEqual, TokenType::Bang, src, start, line)
    } else if c == EQUAL {
        operator_step(TokenType::EqualEqual, TokenType::Equal, src, start, line)
    } else if c == LESS {
        operator_step(TokenType::LessEqual, TokenType::Less, src, start, line)
    } else if c == GREATER {
        operator_step(TokenType::GreaterEqual, TokenType::Greater, src, start, line)
    } else if c == SPACE || c == CARRIAGE_RETURN || c == TAB {
        blank_step(start + 1, line)
    } else if c == LINE_FEED {
        blank_step(start + 1, line_after(line, 1))
    } else if c == QUOTE {
        string_step(src, start, line)
    } else if c == SLASH {
        if start + 1 < src.len() && src[start + 1] == SLASH {
            blank_step(line_end(src, start + 2), line)
        } else {
            plain_step(TokenType::Slash, src, start, start + 1, line)
        }
    } else if is_digit(c) {
        number_step(src, start, line)
    } else if is_alpha(c) {
        name_step(src, start, line)
    } else {
        Scanned {
            next: start + 1,
            line,
            token: None,
            error: Some(
                LexError { kind: LexErrorKind::InvalidCharacter(c), line, col: UNKNOWN_COLUMN },
            ),
        }
    }
}

/// The token of a step as a run of zero or one tokens.
pub open spec fn step_tokens(step: Scanned) -> Seq<TokenView> {
    match step.token {
        Some(token) => seq![token],
        None => Seq::empty(),
    }
}

/// The end-of-input token on line `line`.
pub open spec fn eof_token(line: usize) -> TokenView {
    TokenView { t_type: TokenType::Eof, lexeme: Seq::empty(), line, literal: None }
}

/// The error of a step as a run of zero or one errors.
pub open spec fn step_errors(step: Scanned) -> Seq<LexError> {
    match step.error {
        Some(error) => seq![error],
        None => Seq::empty(),
    }
}

/// What a scan gives: the tokens, and the errors met between them.
pub struct Scan {
    pub tokens: Seq<TokenView>,
    pub errors: Seq<LexError>,
}

/// `tokens` and `errors` followed by what the rest of the scan gave.
pub open spec fn followed_by(tokens: Seq<TokenView>, errors: Seq<LexError>, rest: Scan) -> Scan {
    Scan { tokens: tokens + rest.tokens, errors: errors + rest.errors }
}

/// The scan of `src[pos..]`, which starts on line `line`: the tokens, ending
/// in the end-of-input token, and the errors, each in the order of the
/// source.
pub open spec fn scan_from(src: Seq<u8>, pos: int, line: usize) -> Scan
    decreases src.len() - pos,
{
    if pos < 0 || pos >= src.len() {
        Scan { tokens: seq![eof_token(line)], errors: Seq::empty() }
    } else {
        let step = scan_step(src, pos, line);
        proof {
            lemma_step_advances(src, pos, line);
        }
        followed_by(step_tokens(step), step_errors(step), scan_from(src, step.next, step.line))
    }
}

/// The scan of a whole source.
pub open spec fn scan(src: Seq<u8>) -> Scan {
    scan_from(src, 0, 1)
}

/// Every byte from `pos` up to where the digits end is a digit.
proof fn lemma_digits_run(src: Seq<u8>, pos: int)
    requires
        0 <= pos <= src.len(),
    ensures
        pos <= digits_end(src, pos) <= src.len(),
        forall|k: int| pos <= k < digits_end(src, pos) ==> is_digit(#[trigger] src[k]),
    decreases src.len() - pos,
{
    if pos < src.len() && is_digit(src[pos]) {
        lemma_digits_run(src, pos + 1);
    }
}

proof fn lemma_name_end_bounds(src: Seq<u8>, pos: int)
    requires
        0 <= pos <= src.len(),
    ensures
        pos <= name_end(src, pos) <= src.len(),
    decreases src.len() - pos,
{
    if pos < src.len() && is_alpha_numeric(src[pos]) {
        lemma_name_end_bounds(src, pos + 1);
    }
}

proof fn lemma_line_end_bounds(src: Seq<u8>, pos: int)
    requires
        0 <= pos <= src.len(),
    ensures
        pos <= line_end(src, pos) <= src.len(),
    decreases src.len() - pos,
{
    if pos < src.len() && src[pos] != LINE_FEED {
        lemma_line_end_bounds(src, pos + 1);
    }
}

proof fn lemma_quote_position_bounds(src: Seq<u8>, pos: int)
    requires
        0 <= pos <= src.len(),
    ensures
        pos <= quote_position(src, pos) <= src.len(),
    decreases src.len() - pos,
{
    if pos < src.len() && src[pos] != QUOTE {
        lemma_quote_position_bounds(src, pos + 1);
    }
}

/// Every step consumes at least one byte and stays inside the source.
pub proof fn lemma_step_advances(src: Seq<u8>, pos: int, line: usize)
    requires
        0 <= pos < src.len(),
    ensures
        pos < scan_step(src, pos, line).next <= src.len(),
{
    lemma_quote_position_bounds(src, pos + 1);
    lemma_digits_run(src, pos);
    let whole = digits_end(src, pos);
    if whole + 1 < src.len() {
        lemma_digits_run(src, whole + 1);
    }
    lemma_name_end_bounds(src, pos + 1);
    if pos + 2 <= src.len() {
        lemma_line_end_bounds(src, pos + 2);
    }
}

proof fn lemma_token_views_push(tokens: Seq<Token>, token: Token)
    ensures
        token_views(tokens.push(token)) == token_views(tokens).push(token@),
{
}

/// Scanning from `pos` is one step followed by scanning from where it ends.
proof fn lemma_scan_from_unfold(
    src: Seq<u8>,
    pos: int,
    line: usize,
    tokens: Seq<TokenView>,
    errors: Seq<LexError>,
)
    requires
        0 <= pos < src.len(),
    ensures
        ({
            let step = scan_step(src, pos, line);
            followed_by(tokens, errors, scan_from(src, pos, line)) == followed_by(
                tokens + step_tokens(step),
                errors + step_errors(step),
                scan_from(src, step.next, step.line),
            )
        }),
{
    let step = scan_step(src, pos, line);
    let rest = scan_from(src, step.next, step.line);
    assert(tokens + (step_tokens(step) + rest.tokens) =~= (tokens + step_tokens(step))
        + rest.tokens);
    assert(errors + (step_errors(step) + rest.errors) =~= (errors + step_errors(step))
        + rest.errors);
}

/// True when `first` and `second` hold the same bytes.
fn same_bytes(first: &[u8], second: &[u8]) -> (same: bool)
    ensures
        same == (first@ == second@),
{
    if first.len() != second.len() {
        return false;
    }
    let mut i: usize = 0;
    while i < first.len()
        invariant
            i <= first.len(),
            first.len() == second.len(),
            forall|k: int| 0 <= k < i ==> first@[k] == second@[k],
        decreases first.len() - i,
    {
        if first[i] != second[i] {
            return false;
        }
        i += 1;
    }
    assert(first@ =~= second@);
    true
}

/// True when `lexeme` spells the ASCII word `word`.
fn spells_word(lexeme: &[u8], word: &str) -> (same: bool)
    requires
        is_ascii(word),
    ensures
        same == spells(lexeme@, word@),
{
    broadcast use is_ascii_spec_bytes;

    same_bytes(lexeme, word.as_bytes())
}

/// Looks `lexeme` up in the table of keywords.
fn keyword_type(lexeme: &[u8]) -> (found: Option<TokenType>)
    ensures
        found == keyword(lexeme@),
{
    proof {
        reveal_strlit("and");
        reveal_strlit("class");
        reveal_strlit("else");
        reveal_strlit("false");
        reveal_strlit("for");
        reveal_strlit("fun");
        reveal_strlit("if");
        reveal_strlit("nil");
        reveal_strlit("or");
        reveal_strlit("print");
        reveal_strlit("return");
        reveal_strlit("super");
        reveal_strlit("this");
        reveal_strlit("true");
        reveal_strlit("var");
        reveal_strlit("while");
    }
    if spells_word(lexeme, "and") {
        Some(TokenType::And)
    } else if spells_word(lexeme, "class") {
        Some(TokenType::Class)
    } else if spells_word(lexeme, "else") {
        Some(TokenType::Else)
    } else if spells_word(lexeme, "false") {
        Some(TokenType::False)
    } else if spells_word(lexeme, "for") {
        Some(TokenType::For)
    } else if spells_word(lexeme, "fun") {
        Some(TokenType::Fun)
    } else if spells_word(lexeme, "if") {
        Some(TokenType::If)
    } else if spells_word(lexeme, "nil") {
        Some(TokenType::Nil)
    } else if spells_word(lexeme, "or") {
        Some(TokenType::Or)
    } else if spells_word(lexeme, "print") {
        Some(TokenType::Print)
    } else if spells_word(lexeme, "return") {
        Some(TokenType::Return)
    } else if spells_word(lexeme, "super") {
        Some(TokenType::Super)
    } else if spells_word(lexeme, "this") {
        Some(TokenType::This)
    } else if spells_word(lexeme, "true") {
        Some(TokenType::True)
    } else if spells_word(lexeme, "var") {
        Some(TokenType::Var)
    } else if spells_word(lexeme, "while") {
        Some(TokenType::While)
    } else {
        None
    }
}

/// The state of a scan: the source, the tokens and the errors found so far,
/// where the current piece starts, where the scan stands, and the line there.
#[derive(Debug)]
pub struct Scanner {
    source: Vec<u8>,
    tokens: Vec<Token>,
    start: usize,
    current: usize,
    line: usize,
    errors: Vec<LexError>,
}

impl Default for Scanner {
    fn default() -> (scanner: Self)
        ensures
            scanner.source() == Seq::<u8>::empty(),
            scanner.found().tokens == Seq::<TokenView>::empty(),
            scanner.found().errors == Seq::<LexError>::empty(),
    {
        Scanner {
            source: Vec::new(),
            tokens: Vec::new(),
            start: 0,
            current: 0,
            line: 1,
            errors: Vec::new(),
        }
    }
}

impl Scanner {
    /// The bytes being scanned.
    pub closed spec fn source(&self) -> Seq<u8> {
        self.source@
    }

    /// What the scan has given: the tokens and the errors found.
    pub closed spec fn found(&self) -> Scan {
        Scan { tokens: token_views(self.tokens@), errors: self.errors@ }
    }

    /// True when the scan went from `before` to `self` by the step `step`.
    spec fn stepped(&self, before: Scanner, step: Scanned) -> bool {
        &&& self.source == before.source
        &&& self.start == before.start
        &&& self.current == step.next
        &&& self.line == step.line
        &&& token_views(self.tokens@) == token_views(before.tokens@) + step_tokens(step)
        &&& self.errors@ == before.errors@ + step_errors(step)
    }

    /// A scanner that stands at the start of `source`, with nothing found
    /// yet.
    pub fn new(source: String) -> (scanner: Self)
        ensures
            scanner.source() == encode_utf8(source@),
            scanner.found().tokens == Seq::<TokenView>::empty(),
            scanner.found().errors == Seq::<LexError>::empty(),
    {
        Scanner {
            source: source.as_str().as_bytes_vec(),
            tokens: Vec::new(),
            start: 0,
            current: 0,
            line: 1,
            errors: Vec::new(),
        }
    }

    /// Scans the whole of `source`, which replaces whatever was scanned
    /// before. The scan goes on behind every error, up to the end of the
    /// source.
    pub fn scan_tokens(&mut self, source: String)
        ensures
            final(self).source() == encode_utf8(source@),
            final(self).found() == scan(encode_utf8(source@)),
    {
        self.source = source.as_str().as_bytes_vec();
        self.tokens = Vec::new();
        self.errors = Vec::new();
        self.start = 0;
        self.current = 0;
        self.line = 1;
        let ghost src = self.source@;
        proof {
            encode_utf8_valid_utf8(source@);
            let whole = scan_from(src, 0, 1);
            assert(Seq::<TokenView>::empty() + whole.tokens =~= whole.tokens);
            assert(Seq::<LexError>::empty() + whole.errors =~= whole.errors);
        }
        while !self.is_at_end()
            invariant
                self.source@ == src,
                src == encode_utf8(source@),
                valid_utf8(src),
                self.current <= src.len(),
                scan(src) == followed_by(
                    token_views(self.tokens@),
                    self.errors@,
                    scan_from(src, self.current as int, self.line),
                ),
            decreases src.len() - self.current,
        {
            self.start = self.current;
            proof {
                lemma_step_advances(src, self.current as int, self.line);
                lemma_scan_from_unfold(
                    src,
                    self.current as int,
                    self.line,
                    token_views(self.tokens@),
                    self.errors@,
                );
            }
            self.scan_token();
        }
        let end = Token { t_type: TokenType::Eof, lexeme: Vec::new(), line: self.line, literal: None };
        proof {
            lemma_token_views_push(self.tokens@, end);
            assert(token_views(self.tokens@) + seq![eof_token(self.line)] =~= token_views(
                self.tokens@,
            ).push(eof_token(self.line)));
            assert(self.errors@ + Seq::<LexError>::empty() =~= self.errors@);
        }
        self.tokens.push(end);
    }

    /// Hands out what the scan has given: the tokens, and the errors.
    pub fn into_parts(self) -> (parts: (Vec<Token>, Vec<LexError>))
        ensures
            token_views(parts.0@) == self.found().tokens,
            parts.1@ == self.found().errors,
    {
        (self.tokens, self.errors)
    }

    /// Scans the piece that starts at `current`.
    fn scan_token(&mut self)
        requires
            old(self).start == old(self).current,
            old(self).current < old(self).source@.len(),
            valid_utf8(old(self).source@),
        ensures
            final(self).stepped(
                *old(self),
                scan_step(old(self).source@, old(self).current as int, old(self).line),
            ),
    {
        let c = self.advance();
        if c == LEFT_PAREN {
            self.add_token(TokenType::LeftParen);
        } else if c == RIGHT_PAREN {
            self.add_token(TokenType::RightParen);
        } else if c == LEFT_BRACE {
            self.add_token(TokenType::LeftBrace);
        } else if c == RIGHT_BRACE {
            self.add_token(TokenType::RightBrace);
        } else if c == COMMA {
            self.add_token(TokenType::Comma);
        } else if c == DOT {
            self.add_token(TokenType::Dot);
        } else if c == MINUS {
            self.add_token(TokenType::Minus);
        } else if c == PLUS {
            self.add_token(TokenType::Plus);
        } else if c == STAR {
            self.add_token(TokenType::Star);
        } else if c == SEMICOLON {
            self.add_token(TokenType::Semicolon);
        } else if c == BANG {
            let match_eq = self.matches(EQUAL);
            self.add_token(
                if match_eq {
                    TokenType::BangEqual
                } else {
                    TokenType::Bang
                },
            );
        } else if c == EQUAL {
            let match_eq = self.matches(EQUAL);
            self.add_token(
                if match_eq {
                    TokenType::EqualEqual
                } else {
                    TokenType::Equal
                },
            );
        } else if c == LESS {
            let match_eq = self.matches(EQUAL);
            self.add_token(
                if match_eq {
                    TokenType::LessEqual
                } else {
                    TokenType::Less
                },
            );
        } else if c == GREATER {
            let match_eq = self.matches(EQUAL);
            self.add_token(
                if match_eq {
                    TokenType::GreaterEqual
                } else {
                    TokenType::Greater
                },
            );
        } else if c == SPACE || c == CARRIAGE_RETURN || c == TAB {
        } else if c == LINE_FEED {
            self.line = self.line.saturating_add(1);
        } else if c == QUOTE {
            self.string();
        } else if c == SLASH {
            if self.matches(SLASH) {
                let ghost src = self.source@;
                let ghost from = self.current as int;
                while self.peek() != LINE_FEED && !self.is_at_end()
                    invariant
                        self.source == old(self).source,
                        self.errors == old(self).errors,
                        self.start == old(self).start,
                        self.line == old(self).line,
                        self.tokens == old(self).tokens,
                        src == self.source@,
                        from <= self.current <= src.len(),
                        line_end(src, from) == line_end(src, self.current as int),
                    decreases src.len() - self.current,
                {
                    self.advance();
                }
            } else {
                self.add_token(TokenType::Slash);
            }
        } else if Self::is_ascii_digit(c) {
            self.number();
        } else if Self::is_alpha(c) {
            self.identifier();
        } else {
            self.add_error(LexErrorKind::InvalidCharacter(c));
        }
    }

    fn is_alpha(c: u8) -> (yes: bool)
        ensures
            yes == is_alpha(c),
    {
        (LOWER_A <= c && c <= LOWER_Z) || (UPPER_A <= c && c <= UPPER_Z) || c == UNDERSCORE
    }

    fn is_ascii_digit(c: u8) -> (yes: bool)
        ensures
            yes == is_digit(c),
    {
        DIGIT_ZERO <= c && c <= DIGIT_NINE
    }

    fn is_alpha_numeric(c: u8) -> (yes: bool)
        ensures
            yes == is_alpha_numeric(c),
    {
        Self::is_alpha(c) || Self::is_ascii_digit(c)
    }

    /// Scans the rest of a keyword or identifier whose first byte has been
    /// consumed.
    fn identifier(&mut self)
        requires
            old(self).current == old(self).start + 1,
            old(self).current <= old(self).source@.len(),
            is_alpha(old(self).source@[old(self).start as int]),
            valid_utf8(old(self).source@),
        ensures
            final(self).stepped(
                *old(self),
                name_step(old(self).source@, old(self).start as int, old(self).line),
            ),
            final(self).current <= final(self).source@.len(),
            final(self).current >= old(self).current,
    {
        let ghost src = self.source@;
        let ghost start = self.start as int;
        while Self::is_alpha_numeric(self.peek())
            invariant
                self.source == old(self).source,
                self.errors == old(self).errors,
                self.start == old(self).start,
                self.line == old(self).line,
                self.tokens == old(self).tokens,
                src == self.source@,
                start < self.current <= src.len(),
                name_end(src, start) == name_end(src, self.current as int),
                forall|k: int| start <= k < self.current ==> is_ascii_byte(#[trigger] src[k]),
            decreases src.len() - self.current,
        {
            self.advance();
        }
        let lexeme = self.lexeme();
        match keyword_type(lexeme.as_slice()) {
            Some(t_type) => self.add_token(t_type),
            None => {
                proof {
                    lemma_boundary_at_ascii(src, start);
                    lemma_boundary_after_ascii(src, self.current - 1);
                    lemma_valid_between(src, start, self.current as int);
                }
                let name = decode_text(lexeme.as_slice());
                self.add_token_literal(TokenType::Identifier, Some(Literal::Identifier(name)));
            },
        }
    }

    /// Scans the rest of a number whose first digit has been consumed.
    fn number(&mut self)
        requires
            old(self).current == old(self).start + 1,
            old(self).current <= old(self).source@.len(),
            is_digit(old(self).source@[old(self).start as int]),
            valid_utf8(old(self).source@),
        ensures
            final(self).stepped(
                *old(self),
                number_step(old(self).source@, old(self).start as int, old(self).line),
            ),
            final(self).current <= final(self).source@.len(),
            final(self).current >= old(self).current,
    {
        let ghost src = self.source@;
        let ghost start = self.start as int;
        while Self::is_ascii_digit(self.peek())
            invariant
                self.source == old(self).source,
                self.errors == old(self).errors,
                self.start == old(self).start,
                self.line == old(self).line,
                self.tokens == old(self).tokens,
                src == self.source@,
                start < self.current <= src.len(),
                digits_end(src, start) == digits_end(src, self.current as int),
                forall|k: int| start <= k < self.current ==> is_ascii_byte(#[trigger] src[k]),
            decreases src.len() - self.current,
        {
            self.advance();
        }
        if self.peek() == DOT && Self::is_ascii_digit(self.peek_next()) {
            let ghost whole = self.current as int;
            self.advance();
            while Self::is_ascii_digit(self.peek())
                invariant
                    self.source == old(self).source,
                    self.errors == old(self).errors,
                    self.start == old(self).start,
                    self.line == old(self).line,
                    self.tokens == old(self).tokens,
                    src == self.source@,
                    whole < self.current <= src.len(),
                    start < self.current,
                    digits_end(src, whole + 1) == digits_end(src, self.current as int),
                    forall|k: int| start <= k < self.current ==> is_ascii_byte(#[trigger] src[k]),
                decreases src.len() - self.current,
            {
                self.advance();
            }
        }
        let lexeme = self.lexeme();
        proof {
            lemma_boundary_at_ascii(src, start);
            lemma_boundary_after_ascii(src, self.current - 1);
            lemma_valid_between(src, start, self.current as int);
        }
        let numeral = decode_text(lexeme.as_slice());
        self.add_token_literal(TokenType::Number, Some(Literal::Number(numeral)));
    }

    /// Scans the rest of a string literal whose opening quote has been
    /// consumed.
    fn string(&mut self)
        requires
            old(self).current == old(self).start + 1,
            old(self).current <= old(self).source@.len(),
            old(self).source@[old(self).start as int] == QUOTE,
            valid_utf8(old(self).source@),
        ensures
            final(self).stepped(
                *old(self),
                string_step(old(self).source@, old(self).start as int, old(self).line),
            ),
    {
        let ghost src = self.source@;
        let ghost open = self.start as int;
        while self.peek() != QUOTE && !self.is_at_end()
            invariant
                self.source == old(self).source,
                self.errors == old(self).errors,
                self.start == old(self).start,
                self.tokens == old(self).tokens,
                src == self.source@,
                open < self.current <= src.len(),
                quote_position(src, open + 1) == quote_position(src, self.current as int),
                self.line == line_after(
                    old(self).line,
                    line_feeds(src, open + 1, self.current as int),
                ),
            decreases src.len() - self.current,
        {
            if self.peek() == LINE_FEED {
                self.line = self.line.saturating_add(1);
            }
            self.advance();
        }
        if self.is_at_end() {
            self.add_error(LexErrorKind::UnterminatedString);
            return ;
        }
        self.advance();
        proof {
            lemma_boundary_after_ascii(src, open);
            lemma_boundary_at_ascii(src, self.current - 1);
            lemma_valid_between(src, open + 1, self.current - 1);
        }
        let text = decode_text(
            slice_subrange(self.source.as_slice(), self.start + 1, self.current - 1),
        );
        self.add_token_literal(TokenType::String, Some(Literal::String(text)));
    }

    /// Consumes the next byte if it is `expected`.
    fn matches(&mut self, expected: u8) -> (matched: bool)
        requires
            old(self).current <= old(self).source@.len(),
        ensures
            matched == (old(self).current < old(self).source@.len()
                && old(self).source@[old(self).current as int] == expected),
            final(self).current == old(self).current + if matched {
                1int
            } else {
                0int
            },
            final(self).source == old(self).source,
            final(self).tokens == old(self).tokens,
            final(self).start == old(self).start,
            final(self).line == old(self).line,
            final(self).errors == old(self).errors,
    {
        if self.is_at_end() {
            return false;
        }
        if self.source[self.current] != expected {
            return false;
        }
        assert(self.source@.len() == self.source.len());
        self.current += 1;
        true
    }

    /// The next byte, or zero at the end of the source.
    fn peek(&self) -> (c: u8)
        ensures
            c == if self.current < self.source@.len() {
                self.source@[self.current as int]
            } else {
                0u8
            },
    {
        if self.is_at_end() {
            return 0;
        }
        self.source[self.current]
    }

    /// The byte after the next, or zero past the end of the source.
    fn peek_next(&self) -> (c: u8)
        ensures
            c == if self.current + 1 < self.source@.len() {
                self.source@[self.current + 1]
            } else {
                0u8
            },
    {
        if self.current >= self.source.len() || self.current + 1 >= self.source.len() {
            return 0;
        }
        self.source[self.current + 1]
    }

    /// Consumes the next byte.
    fn advance(&mut self) -> (c: u8)
        requires
            old(self).current < old(self).source@.len(),
        ensures
            c == old(self).source@[old(self).current as int],
            final(self).current == old(self).current + 1,
            final(self).source == old(self).source,
            final(self).tokens == old(self).tokens,
            final(self).start == old(self).start,
            final(self).line == old(self).line,
            final(self).errors == old(self).errors,
    {
        let c = self.source[self.current];
        assert(self.source@.len() == self.source.len());
        self.current += 1;
        c
    }

    /// The bytes of the current piece.
    fn lexeme(&self) -> (bytes: Vec<u8>)
        requires
            self.start <= self.current <= self.source@.len(),
        ensures
            bytes@ == self.source@.subrange(self.start as int, self.current as int),
    {
        slice_to_vec(slice_subrange(self.source.as_slice(), self.start, self.current))
    }

    fn add_token(&mut self, token_type: TokenType)
        requires
            old(self).start <= old(self).current <= old(self).source@.len(),
        ensures
            final(self).stepped(
                *old(self),
                plain_step(
                    token_type,
                    old(self).source@,
                    old(self).start as int,
                    old(self).current as int,
                    old(self).line,
                ),
            ),
    {
        self.add_token_literal(token_type, None);
    }

    fn add_token_literal(&mut self, token_type: TokenType, literal: Option<Literal>)
        requires
            old(self).start <= old(self).current <= old(self).source@.len(),
        ensures
            final(self).stepped(
                *old(self),
                Scanned {
                    next: old(self).current as int,
                    line: old(self).line,
                    token: Some(
                        TokenView {
                            t_type: token_type,
                            lexeme: old(self).source@.subrange(
                                old(self).start as int,
                                old(self).current as int,
                            ),
                            line: old(self).line,
                            literal: match literal {
                                Some(payload) => Some(payload@),
                                None => None,
                            },
                        },
                    ),
                    error: None,
                },
            ),
    {
        let token = Token {
            t_type: token_type,
            literal,
            line: self.line,
            lexeme: self.lexeme(),
        };
        proof {
            lemma_token_views_push(self.tokens@, token);
            assert(token_views(self.tokens@) + seq![token@] =~= token_views(self.tokens@).push(
                token@,
            ));
        }
        self.tokens.push(token);
    }

    /// Records an error of the given kind on the line where the scan stands.
    fn add_error(&mut self, kind: LexErrorKind)
        ensures
            final(self).stepped(
                *old(self),
                Scanned {
                    next: old(self).current as int,
                    line: old(self).line,
                    token: None,
                    error: Some(LexError { kind, line: old(self).line, col: UNKNOWN_COLUMN }),
                },
            ),
    {
        let error = LexError { kind, line: self.line, col: UNKNOWN_COLUMN };
        proof {
            assert(self.errors@ + seq![error] =~= self.errors@.push(error));
        }
        self.errors.push(error);
    }

    fn is_at_end(&self) -> (at_end: bool)
        ensures
            at_end == (self.current >= self.source@.len()),
    {
        self.current >= self.source.len()
    }
}

/// Scans `input`: its tokens, the last of them the end-of-input token, and
/// beside them the lexical errors, in the order in which they were met. A
/// byte that starts no token gives an error and no token, and the scan goes
/// on behind it.
pub fn scan_tokens(input: String) -> (found: (Vec<Token>, Vec<LexError>))
    ensures
        token_views(found.0@) == scan(encode_utf8(input@)).tokens,
        found.1@ == scan(encode_utf8(input@)).errors,
        well_formed_tokens(token_views(found.0@)),
{
    proof {
        lemma_scan_well_formed(encode_utf8(input@));
    }
    let mut scanner: Scanner = Default::default();
    scanner.scan_tokens(input);
    scanner.into_parts()
}

proof fn lemma_scan_from_well_formed(src: Seq<u8>, pos: int, line: usize)
    requires
        0 <= pos,
    ensures
        well_formed_tokens(scan_from(src, pos, line).tokens),
    decreases src.len() - pos,
{
    if pos < src.len() {
        lemma_step_advances(src, pos, line);
        let step = scan_step(src, pos, line);
        lemma_scan_from_well_formed(src, step.next, step.line);
        let rest = scan_from(src, step.next, step.line).tokens;
        let tokens = step_tokens(step) + rest;
        assert(forall|i: int|
            0 <= i < tokens.len() ==> well_formed_token(#[trigger] tokens[i]) && (tokens[i].t_type
                == TokenType::Eof <==> i == tokens.len() - 1));
    }
}

/// The tokens of every source are well formed: each literal token carries
/// its payload, and the end-of-input token comes last and only there.
pub proof fn lemma_scan_well_formed(src: Seq<u8>)
    ensures
        well_formed_tokens(scan(src).tokens),
{
    lemma_scan_from_well_formed(src, 0, 1);
}

/// What the scanner takes for a number is a numeral.
pub proof fn lemma_number_is_numeral(src: Seq<u8>, start: int)
    requires
        0 <= start < src.len(),
        is_digit(src[start]),
    ensures
        is_numeral(src.subrange(start, number_end(src, start))),
{
    let whole = digits_end(src, start);
    let end = number_end(src, start);
    lemma_digits_run(src, start);
    if whole + 1 < src.len() {
        lemma_digits_run(src, whole + 1);
    }
    let lexeme = src.subrange(start, end);
    assert(digits(lexeme, 0, whole - start));
    if end != whole {
        lemma_digits_run(src, whole + 2);
        assert(forall|k: int|
            whole - start + 1 <= k < lexeme.len() ==> is_digit(#[trigger] lexeme[k]));
    }
}

/// The number tokens of a step and of all steps behind it spell numerals,
/// and carry the text of their lexeme.
proof fn lemma_scan_from_numerals(src: Seq<u8>, pos: int, line: usize)
    requires
        0 <= pos,
    ensures
        ({
            let tokens = scan_from(src, pos, line).tokens;
            forall|i: int|
                0 <= i < tokens.len() && (#[trigger] tokens[i]).t_type == TokenType::Number
                    ==> is_numeral(tokens[i].lexeme) && tokens[i].literal == Some(
                    LiteralView::Number(decode_utf8(tokens[i].lexeme)),
                )
        }),
    decreases src.len() - pos,
{
    if pos < src.len() {
        lemma_step_advances(src, pos, line);
        if is_digit(src[pos]) {
            lemma_number_is_numeral(src, pos);
        }
        let step = scan_step(src, pos, line);
        lemma_scan_from_numerals(src, step.next, step.line);
        let rest = scan_from(src, step.next, step.line).tokens;
        let tokens = step_tokens(step) + rest;
        assert(forall|i: int|
            0 <= i < tokens.len() && (#[trigger] tokens[i]).t_type == TokenType::Number
                ==> is_numeral(tokens[i].lexeme) && tokens[i].literal == Some(
                LiteralView::Number(decode_utf8(tokens[i].lexeme)),
            ));
    }
}

/// Every number token of a source spells a numeral, one or more digits with
/// at most one fraction, and carries the text of that numeral.
pub proof fn lemma_scan_numerals(src: Seq<u8>)
    ensures
        ({
            let tokens = scan(src).tokens;
            forall|i: int|
                0 <= i < tokens.len() && (#[trigger] tokens[i]).t_type == TokenType::Number
                    ==> is_numeral(tokens[i].lexeme) && tokens[i].literal == Some(
                    LiteralView::Number(decode_utf8(tokens[i].lexeme)),
                )
        }),
{
    lemma_scan_from_numerals(src, 0, 1);
}

/// A byte that starts no token gives an error on its line and no token, and
/// the scan goes on with the byte behind it, on the same line.
pub proof fn lemma_invalid_byte_is_passed_over(src: Seq<u8>, pos: int, line: usize)
    requires
        0 <= pos < src.len(),
        scan_step(src, pos, line).error matches Some(error) && error.kind
            is InvalidCharacter,
    ensures
        scan_from(src, pos, line) == followed_by(
            Seq::empty(),
            seq![
                LexError {
                    kind: LexErrorKind::InvalidCharacter(src[pos]),
                    line,
                    col: UNKNOWN_COLUMN,
                },
            ],
            scan_from(src, pos + 1, line),
        ),
{
}

/// A string that is not closed gives an error on the line where the source
/// ends, and behind it the scan gives the end-of-input token alone.
pub proof fn lemma_open_string_ends_the_scan(src: Seq<u8>, pos: int, line: usize)
    requires
        0 <= pos < src.len(),
        scan_step(src, pos, line).error matches Some(error) && error.kind
            is UnterminatedString,
    ensures
        ({
            let last_line = scan_step(src, pos, line).line;
            scan_from(src, pos, line) == (Scan {
                tokens: seq![eof_token(last_line)],
                errors: seq![
                    LexError {
                        kind: LexErrorKind::UnterminatedString,
                        line: last_line,
                        col: UNKNOWN_COLUMN,
                    },
                ],
            })
        }),
{
    lemma_quote_position_bounds(src, pos + 1);
    let step = scan_step(src, pos, line);
    let rest = scan_from(src, step.next, step.line);
    assert(Seq::<TokenView>::empty() + rest.tokens =~= rest.tokens);
    assert(step_errors(step) + rest.errors =~= step_errors(step));
}

} // verus!
