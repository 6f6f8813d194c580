//! Errors as text, and the error types of the string interface.

use crate::error::{from_one, line_start, stage_of, Cause, QueryError, Stage};
use crate::grammar::Expected;
use crate::lexer::LexErrorKind;
use crate::token::{Keyword, Symbol, TokClass};
use vstd::prelude::*;
use vstd::string::{StringExecFns, StringSliceAdditionalSpecFns};
use vstd::utf8::{
    encode_utf8, encode_utf8_valid_utf8, is_char_boundary,
    is_char_boundary_iff_not_is_continuation_byte, is_char_boundary_start_end_of_seq,
    length_of_first_scalar, pop_first_scalar, valid_first_scalar, valid_utf8, valid_utf8_split,
};

verus! {

/// The word of a keyword, in upper case.
pub open spec fn keyword_chars(x: Keyword) -> Seq<char> {
    match x {
        Keyword::All => "ALL"@,
        Keyword::And => "AND"@,
        Keyword::As => "AS"@,
        Keyword::Asc => "ASC"@,
        Keyword::Between => "BETWEEN"@,
        Keyword::By => "BY"@,
        Keyword::Case => "CASE"@,
        Keyword::Cross => "CROSS"@,
        Keyword::Default => "DEFAULT"@,
        Keyword::Delete => "DELETE"@,
        Keyword::Desc => "DESC"@,
        Keyword::Distinct => "DISTINCT"@,
        Keyword::Else => "ELSE"@,
        Keyword::End => "END"@,
        Keyword::Except => "EXCEPT"@,
        Keyword::Exists => "EXISTS"@,
        Keyword::False => "FALSE"@,
        Keyword::From => "FROM"@,
        Keyword::Full => "FULL"@,
        Keyword::Group => "GROUP"@,
        Keyword::Having => "HAVING"@,
        Keyword::In => "IN"@,
        Keyword::Inner => "INNER"@,
        Keyword::Insert => "INSERT"@,
        Keyword::Intersect => "INTERSECT"@,
        Keyword::Into => "INTO"@,
        Keyword::Is => "IS"@,
        Keyword::Join => "JOIN"@,
        Keyword::Left => "LEFT"@,
        Keyword::Like => "LIKE"@,
        Keyword::Limit => "LIMIT"@,
        Keyword::Not => "NOT"@,
        Keyword::Null => "NULL"@,
        Keyword::Offset => "OFFSET"@,
        Keyword::On => "ON"@,
        Keyword::Or => "OR"@,
        Keyword::Order => "ORDER"@,
        Keyword::Outer => "OUTER"@,
        Keyword::Over => "OVER"@,
        Keyword::Partition => "PARTITION"@,
        Keyword::Recursive => "RECURSIVE"@,
        Keyword::Right => "RIGHT"@,
        Keyword::Select => "SELECT"@,
        Keyword::SetKw => "SET"@,
        Keyword::Then => "THEN"@,
        Keyword::True => "TRUE"@,
        Keyword::Union => "UNION"@,
        Keyword::Update => "UPDATE"@,
        Keyword::Using => "USING"@,
        Keyword::Values => "VALUES"@,
        Keyword::When => "WHEN"@,
        Keyword::Where => "WHERE"@,
        Keyword::With => "WITH"@,
    }
}

/// The word of a keyword, in upper case.
pub fn keyword_text(x: Keyword) -> (text: &'static str)
    ensures
        text@ == keyword_chars(x),
{
    match x {
        Keyword::All => "ALL",
        Keyword::And => "AND",
        Keyword::As => "AS",
        Keyword::Asc => "ASC",
        Keyword::Between => "BETWEEN",
        Keyword::By => "BY",
        Keyword::Case => "CASE",
        Keyword::Cross => "CROSS",
        Keyword::Default => "DEFAULT",
        Keyword::Delete => "DELETE",
        Keyword::Desc => "DESC",
        Keyword::Distinct => "DISTINCT",
        Keyword::Else => "ELSE",
        Keyword::End => "END",
        Keyword::Except => "EXCEPT",
        Keyword::Exists => "EXISTS",
        Keyword::False => "FALSE",
        Keyword::From => "FROM",
        Keyword::Full => "FULL",
        Keyword::Group => "GROUP",
        Keyword::Having => "HAVING",
        Keyword::In => "IN",
        Keyword::Inner => "INNER",
        Keyword::Insert => "INSERT",
        Keyword::Intersect => "INTERSECT",
        Keyword::Into => "INTO",
        Keyword::Is => "IS",
        Keyword::Join => "JOIN",
        Keyword::Left => "LEFT",
        Keyword::Like => "LIKE",
        Keyword::Limit => "LIMIT",
        Keyword::Not => "NOT",
        Keyword::Null => "NULL",
        Keyword::Offset => "OFFSET",
        Keyword::On => "ON",
        Keyword::Or => "OR",
        Keyword::Order => "ORDER",
        Keyword::Outer => "OUTER",
        Keyword::Over => "OVER",
        Keyword::Partition => "PARTITION",
        Keyword::Recursive => "RECURSIVE",
        Keyword::Right => "RIGHT",
        Keyword::Select => "SELECT",
        Keyword::SetKw => "SET",
        Keyword::Then => "THEN",
        Keyword::True => "TRUE",
        Keyword::Union => "UNION",
        Keyword::Update => "UPDATE",
        Keyword::Using => "USING",
        Keyword::Values => "VALUES",
        Keyword::When => "WHEN",
        Keyword::Where => "WHERE",
        Keyword::With => "WITH",
    }
}

/// An operator or punctuation mark as it is written.
pub open spec fn symbol_chars(x: Symbol) -> Seq<char> {
    match x {
        Symbol::LParen => "("@,
        Symbol::RParen => ")"@,
        Symbol::Comma => ","@,
        Symbol::Semicolon => ";"@,
        Symbol::Dot => "."@,
        Symbol::Star => "*"@,
        Symbol::Plus => "+"@,
        Symbol::Minus => "-"@,
        Symbol::Slash => "/"@,
        Symbol::Percent => "%"@,
        Symbol::Caret => "^"@,
        Symbol::Eq => "="@,
        Symbol::NotEq => "<>"@,
        Symbol::Lt => "<"@,
        Symbol::LtEq => "<="@,
        Symbol::Gt => ">"@,
        Symbol::GtEq => ">="@,
        Symbol::Concat => "||"@,
        Symbol::Cast => "::"@,
    }
}

/// An operator or punctuation mark as it is written.
pub fn symbol_text(x: Symbol) -> (text: &'static str)
    ensures
        text@ == symbol_chars(x),
{
    match x {
        Symbol::LParen => "(",
        Symbol::RParen => ")",
        Symbol::Comma => ",",
        Symbol::Semicolon => ";",
        Symbol::Dot => ".",
        Symbol::Star => "*",
        Symbol::Plus => "+",
        Symbol::Minus => "-",
        Symbol::Slash => "/",
        Symbol::Percent => "%",
        Symbol::Caret => "^",
        Symbol::Eq => "=",
        Symbol::NotEq => "<>",
        Symbol::Lt => "<",
        Symbol::LtEq => "<=",
        Symbol::Gt => ">",
        Symbol::GtEq => ">=",
        Symbol::Concat => "||",
        Symbol::Cast => "::",
    }
}

/// What a lexical error is called.
pub open spec fn lexical_chars(x: LexErrorKind) -> Seq<char> {
    match x {
        LexErrorKind::UnexpectedCharacter => "unexpected character"@,
        LexErrorKind::UnterminatedString => "unterminated quoted string"@,
        LexErrorKind::UnterminatedIdentifier => "unterminated quoted identifier"@,
        LexErrorKind::EmptyIdentifier => "zero-length quoted identifier"@,
        LexErrorKind::UnterminatedDollarQuote => "unterminated dollar-quoted string"@,
        LexErrorKind::UnterminatedComment => "unterminated comment"@,
        LexErrorKind::InvalidEscape => "invalid escape sequence"@,
        LexErrorKind::ParameterOutOfRange => "parameter number out of range"@,
    }
}

/// What a lexical error is called.
pub fn lexical_text(x: LexErrorKind) -> (text: &'static str)
    ensures
        text@ == lexical_chars(x),
{
    match x {
        LexErrorKind::UnexpectedCharacter => "unexpected character",
        LexErrorKind::UnterminatedString => "unterminated quoted string",
        LexErrorKind::UnterminatedIdentifier => "unterminated quoted identifier",
        LexErrorKind::EmptyIdentifier => "zero-length quoted identifier",
        LexErrorKind::UnterminatedDollarQuote => "unterminated dollar-quoted string",
        LexErrorKind::UnterminatedComment => "unterminated comment",
        LexErrorKind::InvalidEscape => "invalid escape sequence",
        LexErrorKind::ParameterOutOfRange => "parameter number out of range",
    }
}

/// What a class of token is called.
pub open spec fn class_chars(t: TokClass) -> Seq<char> {
    match t {
        TokClass::Keyword(k) => keyword_chars(k),
        TokClass::Ident => "identifier"@,
        TokClass::Literal => "constant"@,
        TokClass::Symbol(s) => symbol_chars(s),
        TokClass::End => "end of input"@,
    }
}

/// What a class of token is called.
pub fn class_text(t: TokClass) -> (text: &'static str)
    ensures
        text@ == class_chars(t),
{
    match t {
        TokClass::Keyword(k) => keyword_text(k),
        TokClass::Ident => "identifier",
        TokClass::Literal => "constant",
        TokClass::Symbol(s) => symbol_text(s),
        TokClass::End => "end of input",
    }
}

/// What the parser would have accepted, in words.
pub open spec fn expected_chars(x: Expected) -> Seq<char> {
    match x {
        Expected::Statement => "statement"@,
        Expected::Query => "query"@,
        Expected::Expression => "expression"@,
        Expected::Identifier => "identifier"@,
        Expected::TruthValue => "NULL, TRUE or FALSE"@,
        Expected::JoinCondition => "ON or USING"@,
        Expected::EndOfStatement => "; or end of input"@,
        Expected::Word(k) => keyword_chars(k),
        Expected::Mark(s) => symbol_chars(s),
    }
}

/// What the parser would have accepted, in words.
pub fn expected_text(x: Expected) -> (text: &'static str)
    ensures
        text@ == expected_chars(x),
{
    match x {
        Expected::Statement => "statement",
        Expected::Query => "query",
        Expected::Expression => "expression",
        Expected::Identifier => "identifier",
        Expected::TruthValue => "NULL, TRUE or FALSE",
        Expected::JoinCondition => "ON or USING",
        Expected::EndOfStatement => "; or end of input",
        Expected::Word(k) => keyword_text(k),
        Expected::Mark(s) => symbol_text(s),
    }
}

/// The message of an error: what is wrong, and for a syntax error what
/// was found and what could have stood there.
pub open spec fn message_chars(cause: Cause) -> Seq<char> {
    match cause {
        Cause::Lexical(kind) => lexical_chars(kind),
        Cause::Unexpected { found, expected } => "syntax error: found "@ + class_chars(found)
            + ", expected "@ + expected_chars(expected),
        Cause::DepthLimitExceeded => "statement nests too deeply"@,
        Cause::EmptyInput => "no statement in input"@,
    }
}

/// The offset at which the line of `offset` ends: that of the next line
/// feed, or the length of the source.
pub open spec fn line_end(src: Seq<u8>, offset: int) -> int
    decreases src.len() - offset,
{
    if offset < 0 || offset >= src.len() {
        src.len() as int
    } else if src[offset] == 0x0a {
        offset
    } else {
        line_end(src, offset + 1)
    }
}

/// The bytes of the line in which `offset` lies, without its line feed.
pub open spec fn line_bytes(src: Seq<u8>, offset: int) -> Seq<u8> {
    src.subrange(line_start(src, offset), line_end(src, offset))
}

/// In a text, what follows a byte below `0x80` starts a character or ends
/// the text.
proof fn lemma_boundary_after_ascii(bytes: Seq<u8>, i: int)
    requires
        valid_utf8(bytes),
        0 <= i < bytes.len(),
        bytes[i] < 0x80,
    ensures
        is_char_boundary(bytes, i + 1),
{
    is_char_boundary_iff_not_is_continuation_byte(bytes, i);
    valid_utf8_split(bytes, i);
    let s = bytes.subrange(i, bytes.len() as int);
    assert(valid_utf8(s));
    assert(s[0] == bytes[i]);
    assert(valid_first_scalar(s) && valid_utf8(pop_first_scalar(s)));
    assert(length_of_first_scalar(s) == 1);
    let t = pop_first_scalar(s);
    assert(t =~= bytes.subrange(i + 1, bytes.len() as int));
    if i + 1 < bytes.len() {
        assert(t[0] == bytes[i + 1]);
        assert(valid_first_scalar(t));
        is_char_boundary_iff_not_is_continuation_byte(bytes, i + 1);
    } else {
        is_char_boundary_start_end_of_seq(bytes);
    }
}

/// The line of a text in which an offset lies, without its line feed.
pub fn line_text(query: &str, offset: usize) -> (line: String)
    ensures
        encode_utf8(line@) == line_bytes(query.spec_bytes(), offset as int),
{
    let src = query.as_bytes();
    let n: usize = src.len();
    let ghost bytes = query.spec_bytes();
    let mut start: usize = 0;
    if offset <= n {
        let mut i: usize = 0;
        while i < offset
            invariant
                i <= offset <= n,
                n == src@.len(),
                start == line_start(src@, i as int),
                start <= i,
                start == 0 || src@[start - 1] == 0x0a,
            decreases offset - i,
        {
            if src[i] == 0x0a {
                start = i + 1;
            }
            i += 1;
        }
    }
    let mut end: usize = if offset <= n {
        offset
    } else {
        n
    };
    while end < n && src[end] != 0x0a
        invariant
            start <= end <= n,
            n == src@.len(),
            line_end(src@, offset as int) == line_end(src@, end as int),
        decreases n - end,
    {
        end += 1;
    }
    proof {
        encode_utf8_valid_utf8(query@);
        if end < n {
            is_char_boundary_iff_not_is_continuation_byte(bytes, end as int);
        } else {
            is_char_boundary_start_end_of_seq(bytes);
        }
    }
    let (head, _) = query.split_at(end);
    proof {
        let front = head.spec_bytes();
        encode_utf8_valid_utf8(head@);
        assert(front =~= bytes.subrange(0, end as int));
        if start == 0 || start == end {
            is_char_boundary_start_end_of_seq(front);
        } else {
            assert(front[start - 1] == bytes[start - 1]);
            lemma_boundary_after_ascii(front, start - 1);
        }
    }
    let (_, line) = head.split_at(start);
    proof {
        assert(line.spec_bytes() =~= bytes.subrange(start as int, end as int));
    }
    String::from_str(line)
}

/// An error of a query for a caller that reads text: the message, the
/// place, and as context a piece of the query around the place, where
/// there is one. `cursorpos` is the byte position in the query, `line` and
/// `column` the place in lines, all counted from one; each is zero where
/// it is not known.
#[derive(Debug)]
pub struct PgQueryError {
    pub message: String,
    pub cursorpos: usize,
    pub line: usize,
    pub column: usize,
    pub context: Option<String>,
    /// The stage that raised the error; none where the error was handed
    /// in from outside.
    pub stage: Option<Stage>,
}

/// What a failed call hands back: the error of the query, and what was
/// written to the diagnostic log, where there is either.
#[derive(Debug)]
pub struct ParseErrors {
    pub query_error: Option<PgQueryError>,
    pub stderr_buffer: Option<String>,
}

impl PgQueryError {
    /// Whether this is the error `e` of the text `src`, put in text: the
    /// message of its cause, its place, and as context the line of the
    /// text in which it lies. An error of a text without statements has no
    /// context.
    pub open spec fn reports(&self, e: QueryError, src: Seq<u8>) -> bool {
        &&& self.message@ == message_chars(e.cause)
        &&& self.cursorpos == from_one(e.offset as int)
        &&& self.line == e.line
        &&& self.column == e.column
        &&& self.stage == Some(stage_of(e.cause))
        &&& match e.cause {
            Cause::EmptyInput => self.context is None,
            _ => self.context matches Some(c) && encode_utf8(c@) == line_bytes(
                src,
                e.offset as int,
            ),
        }
    }

    /// Puts an error of a text in text.
    pub fn from_query_error(e: QueryError, query: &str) -> (r: PgQueryError)
        ensures
            r.reports(e, query.spec_bytes()),
    {
        let message = match e.cause {
            Cause::Lexical(kind) => String::from_str(lexical_text(kind)),
            Cause::Unexpected { found, expected } => {
                let mut m = String::from_str("syntax error: found ");
                m.append(class_text(found));
                m.append(", expected ");
                m.append(expected_text(expected));
                m
            },
            Cause::DepthLimitExceeded => String::from_str("statement nests too deeply"),
            Cause::EmptyInput => String::from_str("no statement in input"),
        };
        let context = match e.cause {
            Cause::EmptyInput => None,
            _ => Some(line_text(query, e.offset)),
        };
        let cursorpos: usize = if e.offset < usize::MAX {
            e.offset + 1
        } else {
            usize::MAX
        };
        PgQueryError {
            message,
            cursorpos,
            line: e.line,
            column: e.column,
            context,
            stage: Some(e.stage()),
        }
    }
}

/// What a call hands back, from what it produced: failure where there is an
/// error or something in the diagnostic log, with both; else the text that
/// was produced, or the empty text where none was.
pub fn outcome(
    text: Option<String>,
    query_error: Option<PgQueryError>,
    stderr_buffer: Option<String>,
) -> (r: Result<String, ParseErrors>)
    ensures
        (query_error is Some || stderr_buffer is Some) ==> r == Err::<String, ParseErrors>(
            ParseErrors { query_error, stderr_buffer },
        ),
        (query_error is None && stderr_buffer is None) ==> match text {
            Some(s) => r == Ok::<String, ParseErrors>(s),
            None => r matches Ok(s) && s@.len() == 0,
        },
{
    if query_error.is_some() || stderr_buffer.is_some() {
        Err(ParseErrors { query_error, stderr_buffer })
    } else {
        match text {
            Some(s) => Ok(s),
            None => Ok(String::new()),
        }
    }
}

} // verus!
