//! From source text to statements: the scanner, then the parser.

use crate::expr::{stmt_views, Stmt, StmtView};
use crate::parser::{program, Error, ErrorView, Parser};
use crate::scanner::{scan, scan_tokens, LexError};
use vstd::prelude::*;
use vstd::utf8::*;

verus! {

/// The statements that the bytes of a source spell: the program of its
/// tokens, or the first error of the grammar. Lexical errors leave gaps in
/// the tokens and do not keep the tokens from being parsed.
pub open spec fn statements_of(source: Seq<u8>) -> Result<Seq<StmtView>, ErrorView> {
    match program(scan(source).tokens, 0) {
        Ok(stmts) => Ok(stmts),
        Err(failure) => Err(failure.error),
    }
}

/// Scans and parses `source`. The statements are handed out first, or the
/// error of the grammar in their place, so that nothing of a source that does
/// not parse can be evaluated; the lexical errors, all of them and in the
/// order of the source, are handed out beside.
pub fn parse_source(source: String) -> (parsed: (Result<Vec<Stmt>, Error>, Vec<LexError>))
    ensures
        match statements_of(encode_utf8(source@)) {
            Ok(stmts) => parsed.0 matches Ok(found) && stmt_views(found@) == stmts,
            Err(error) => parsed.0 matches Err(found) && found@ == error,
        },
        parsed.1@ == scan(encode_utf8(source@)).errors,
{
    let (tokens, errors) = scan_tokens(source);
    let mut parser = Parser { current: 0, tokens };
    (parser.parse(), errors)
}

} // verus!
