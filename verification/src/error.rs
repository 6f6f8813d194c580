//! Errors of a query, with their place in the source.

use crate::grammar::{peek, Expected, SyntaxError, SyntaxErrorKind};
use crate::lexer::{well_spaced, LexError, LexErrorKind};
use crate::token::{classes, TokClass, Token};
use vstd::prelude::*;

verus! {

/// The part of the library that found an error.
#[derive(Clone, Copy, Debug, PartialEq, Eq, Structural)]
pub enum Stage {
    Lexer,
    Parser,
    Fingerprinter,
}

/// What is wrong with a query.
#[derive(Clone, Copy, Debug, PartialEq, Eq, Structural)]
pub enum Cause {
    /// The text is no sequence of tokens.
    Lexical(LexErrorKind),
    /// A token fits no rule of the grammar where it stands.
    Unexpected { found: TokClass, expected: Expected },
    /// Constructs nest deeper than the parser follows them.
    DepthLimitExceeded,
    /// There is no statement to take a fingerprint of.
    EmptyInput,
}

/// An error and where it lies: the byte offset from the start of the
/// source, and the line and the column, in bytes, both counted from one.
#[derive(Clone, Copy, Debug, PartialEq, Eq, Structural)]
pub struct QueryError {
    pub cause: Cause,
    pub offset: usize,
    pub line: usize,
    pub column: usize,
}

/// The stage that finds errors of a cause.
pub open spec fn stage_of(cause: Cause) -> Stage {
    match cause {
        Cause::Lexical(_) => Stage::Lexer,
        Cause::Unexpected { .. } => Stage::Parser,
        Cause::DepthLimitExceeded => Stage::Parser,
        Cause::EmptyInput => Stage::Fingerprinter,
    }
}

impl QueryError {
    /// The stage that raised this error.
    pub fn stage(&self) -> (s: Stage)
        ensures
            s == stage_of(self.cause),
    {
        match self.cause {
            Cause::Lexical(_) => Stage::Lexer,
            Cause::Unexpected { .. } => Stage::Parser,
            Cause::DepthLimitExceeded => Stage::Parser,
            Cause::EmptyInput => Stage::Fingerprinter,
        }
    }
}

/// The number of line feeds before `offset`.
pub open spec fn line_breaks(src: Seq<u8>, offset: int) -> nat
    decreases offset,
{
    if offset <= 0 || offset > src.len() {
        0
    } else if src[offset - 1] == 0x0a {
        line_breaks(src, offset - 1) + 1
    } else {
        line_breaks(src, offset - 1)
    }
}

/// The offset at which the line of `offset` starts.
pub open spec fn line_start(src: Seq<u8>, offset: int) -> int
    decreases offset,
{
    if offset <= 0 || offset > src.len() {
        0
    } else if src[offset - 1] == 0x0a {
        offset
    } else {
        line_start(src, offset - 1)
    }
}

/// A count from zero as a number from one, held at the largest number
/// that the machine has.
pub open spec fn from_one(n: int) -> usize {
    if n < usize::MAX {
        (n + 1) as usize
    } else {
        usize::MAX
    }
}

/// The error of a cause at an offset, with its line and column.
pub open spec fn located(src: Seq<u8>, cause: Cause, offset: usize) -> QueryError {
    QueryError {
        cause,
        offset,
        line: from_one(line_breaks(src, offset as int) as int),
        column: from_one(offset - line_start(src, offset as int)),
    }
}

/// A lexical error as an error of the query.
pub open spec fn lexical_failure(src: Seq<u8>, e: LexError) -> QueryError {
    located(src, Cause::Lexical(e.kind), e.offset)
}

/// A syntax error as an error of the query: it lies where its token
/// starts, or at the end of the source where the tokens ran out.
pub open spec fn syntax_failure(src: Seq<u8>, tokens: Seq<Token>, e: SyntaxError) -> QueryError {
    let offset = if e.at < tokens.len() {
        tokens[e.at as int].start
    } else {
        src.len() as usize
    };
    let cause = match e.kind {
        SyntaxErrorKind::Unexpected(expected) => Cause::Unexpected {
            found: peek(classes(tokens), e.at as int),
            expected,
        },
        SyntaxErrorKind::DepthLimitExceeded => Cause::DepthLimitExceeded,
    };
    located(src, cause, offset)
}

/// Finds the line and the column of an offset. An offset past the end of
/// the source counts as lying in its first line.
pub fn locate(src: &[u8], cause: Cause, offset: usize) -> (e: QueryError)
    ensures
        e == located(src@, cause, offset),
{
    if offset > src.len() {
        let column: usize = if offset < usize::MAX {
            offset + 1
        } else {
            usize::MAX
        };
        return QueryError { cause, offset, line: 1, column };
    }
    let mut breaks: usize = 0;
    let mut start: usize = 0;
    let mut i: usize = 0;
    while i < offset
        invariant
            i <= offset <= src.len(),
            breaks == line_breaks(src@, i as int),
            start == line_start(src@, i as int),
            breaks <= i,
            start <= i,
        decreases offset - i,
    {
        if src[i] == 0x0a {
            breaks += 1;
            start = i + 1;
        }
        i += 1;
    }
    let line: usize = if breaks < usize::MAX {
        breaks + 1
    } else {
        usize::MAX
    };
    let column: usize = if offset - start < usize::MAX {
        offset - start + 1
    } else {
        usize::MAX
    };
    QueryError { cause, offset, line, column }
}

/// Places a lexical error.
pub fn lexical_error(src: &[u8], e: LexError) -> (r: QueryError)
    ensures
        r == lexical_failure(src@, e),
{
    locate(src, Cause::Lexical(e.kind), e.offset)
}

/// Places a syntax error.
pub(crate) fn syntax_error(src: &[u8], tokens: &Vec<Token>, e: SyntaxError) -> (r: QueryError)
    requires
        well_spaced(tokens@, src@.len()),
    ensures
        r == syntax_failure(src@, tokens@, e),
{
    let offset: usize = if e.at < tokens.len() {
        tokens[e.at].start
    } else {
        src.len()
    };
    let cause = match e.kind {
        SyntaxErrorKind::Unexpected(expected) => {
            let found = if e.at < tokens.len() {
                tokens[e.at].kind.class()
            } else {
                TokClass::End
            };
            Cause::Unexpected { found, expected }
        },
        SyntaxErrorKind::DepthLimitExceeded => Cause::DepthLimitExceeded,
    };
    locate(src, cause, offset)
}

} // verus!
