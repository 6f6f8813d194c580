//! The lexer: one forward pass from source bytes to tokens.
//!
//! White space and comments separate tokens and are left out of the result.
//! Every function that scans has a specification function that says, by
//! recursion on the position, where the scan ends; the executable loops are
//! proved to end there.

use crate::token::{keyword_of, lookup_keyword, Symbol, Token, TokenKind};
use vstd::prelude::*;

verus! {

pub const BANG: u8 = 0x21;

pub const DOUBLE_QUOTE: u8 = 0x22;

pub const DOLLAR: u8 = 0x24;

pub const PERCENT: u8 = 0x25;

pub const QUOTE: u8 = 0x27;

pub const OPEN: u8 = 0x28;

pub const CLOSE: u8 = 0x29;

pub const STAR: u8 = 0x2a;

pub const PLUS: u8 = 0x2b;

pub const COMMA: u8 = 0x2c;

pub const MINUS: u8 = 0x2d;

pub const POINT: u8 = 0x2e;

pub const SLASH: u8 = 0x2f;

pub const DIGIT_0: u8 = 0x30;

pub const DIGIT_7: u8 = 0x37;

pub const DIGIT_9: u8 = 0x39;

pub const COLON: u8 = 0x3a;

pub const SEMICOLON: u8 = 0x3b;

pub const LESS: u8 = 0x3c;

pub const EQUALS: u8 = 0x3d;

pub const GREATER: u8 = 0x3e;

pub const UPPER_A: u8 = 0x41;

pub const UPPER_E: u8 = 0x45;

pub const UPPER_U: u8 = 0x55;

pub const UPPER_Z: u8 = 0x5a;

pub const BACKSLASH: u8 = 0x5c;

pub const CARET: u8 = 0x5e;

pub const UNDERSCORE: u8 = 0x5f;

pub const LOWER_A: u8 = 0x61;

pub const LOWER_B: u8 = 0x62;

pub const LOWER_E: u8 = 0x65;

pub const LOWER_F: u8 = 0x66;

pub const LOWER_N: u8 = 0x6e;

pub const LOWER_R: u8 = 0x72;

pub const LOWER_T: u8 = 0x74;

pub const LOWER_U: u8 = 0x75;

pub const LOWER_X: u8 = 0x78;

pub const LOWER_Z: u8 = 0x7a;

pub const BAR: u8 = 0x7c;

/// Why a source text has no token sequence.
#[derive(Clone, Copy, Debug, PartialEq, Eq, Structural)]
pub enum LexErrorKind {
    /// A byte that starts no token.
    UnexpectedCharacter,
    /// A string constant without its closing quote.
    UnterminatedString,
    /// A quoted identifier without its closing quote.
    UnterminatedIdentifier,
    /// A quoted identifier with nothing between the quotes.
    EmptyIdentifier,
    /// A dollar-quoted string whose closing tag never comes.
    UnterminatedDollarQuote,
    /// A block comment that is still open at the end of the text.
    UnterminatedComment,
    /// A backslash in an escape string that no known escape follows.
    InvalidEscape,
    /// A parameter placeholder whose index does not fit in 32 bits.
    ParameterOutOfRange,
}

/// A lexical error and the byte offset at which it was found.
#[derive(Clone, Copy, Debug, PartialEq, Eq, Structural)]
pub struct LexError {
    pub kind: LexErrorKind,
    pub offset: usize,
}

/// Classes of bytes of which a token may hold a run.
#[derive(Clone, Copy, Debug, PartialEq, Eq, Structural)]
pub enum ByteClass {
    Digit,
    /// What may follow the first byte of an identifier.
    IdentPart,
    /// What the tag of a dollar quote may hold.
    TagPart,
    /// Anything but a line feed.
    LineBody,
}

#[verifier::allow_in_spec]
pub fn is_space(b: u8) -> bool
    returns
        (b == 0x20 || (0x09 <= b && b <= 0x0d)),
{
    b == 0x20 || (0x09 <= b && b <= 0x0d)
}

#[verifier::allow_in_spec]
pub fn is_digit(b: u8) -> bool
    returns
        (DIGIT_0 <= b && b <= DIGIT_9),
{
    DIGIT_0 <= b && b <= DIGIT_9
}

/// Letters, the underscore and every byte of a multi-byte character.
#[verifier::allow_in_spec]
pub fn is_ident_start(b: u8) -> bool
    returns
        ((LOWER_A <= b && b <= LOWER_Z) || (UPPER_A <= b && b <= UPPER_Z) || b == UNDERSCORE || b >= 0x80),
{
    (LOWER_A <= b && b <= LOWER_Z) || (UPPER_A <= b && b <= UPPER_Z) || b == UNDERSCORE || b >= 0x80
}

#[verifier::allow_in_spec]
pub fn in_class(c: ByteClass, b: u8) -> bool
    returns
        (match c {
            ByteClass::Digit => is_digit(b),
            ByteClass::IdentPart => is_ident_start(b) || is_digit(b) || b == DOLLAR,
            ByteClass::TagPart => is_ident_start(b) || is_digit(b),
            ByteClass::LineBody => b != 0x0a,
        }),
{
    match c {
        ByteClass::Digit => is_digit(b),
        ByteClass::IdentPart => is_ident_start(b) || is_digit(b) || b == DOLLAR,
        ByteClass::TagPart => is_ident_start(b) || is_digit(b),
        ByteClass::LineBody => b != 0x0a,
    }
}

/// The bytes that may follow a backslash in an escape string.
#[verifier::allow_in_spec]
pub fn is_escape(b: u8) -> bool
    returns
        (b == BACKSLASH || b == QUOTE || b == DOUBLE_QUOTE || b == LOWER_B || b == LOWER_F || b == LOWER_N || b == LOWER_R
            || b == LOWER_T || b == LOWER_X || b == LOWER_U || b == UPPER_U || (DIGIT_0 <= b && b <= DIGIT_7)),
{
    b == BACKSLASH || b == QUOTE || b == DOUBLE_QUOTE || b == LOWER_B || b == LOWER_F || b == LOWER_N || b == LOWER_R || b
        == LOWER_T || b == LOWER_X || b == LOWER_U || b == UPPER_U || (DIGIT_0 <= b && b <= DIGIT_7)
}

/// An upper-case letter becomes lower case; every other byte stays.
#[verifier::allow_in_spec]
pub fn lower(b: u8) -> u8
    returns
        (if UPPER_A <= b && b <= UPPER_Z {
            (b + 32) as u8
        } else {
            b
        }),
{
    if UPPER_A <= b && b <= UPPER_Z {
        b + 32
    } else {
        b
    }
}

/// Whether byte `i` of the source exists and is `b`.
pub open spec fn at(src: Seq<u8>, i: int, b: u8) -> bool {
    0 <= i < src.len() && src[i] == b
}

/// A text with its upper-case letters made lower case.
pub open spec fn folded(text: Seq<u8>) -> Seq<u8> {
    Seq::new(text.len(), |i: int| lower(text[i]))
}

/// The end of the longest run of bytes of class `c` that starts at `pos`.
pub open spec fn run_end(src: Seq<u8>, pos: int, c: ByteClass) -> int
    decreases src.len() - pos,
{
    if 0 <= pos < src.len() && in_class(c, src[pos]) {
        run_end(src, pos + 1, c)
    } else {
        pos
    }
}

pub proof fn lemma_run_end_bounds(src: Seq<u8>, pos: int, c: ByteClass)
    requires
        0 <= pos <= src.len(),
    ensures
        pos <= run_end(src, pos, c) <= src.len(),
    decreases src.len() - pos,
{
    if pos < src.len() && in_class(c, src[pos]) {
        lemma_run_end_bounds(src, pos + 1, c);
    }
}

/// Where a block comment ends that is open `nesting` levels deep at `pos`:
/// the offset after the `*/` that closes the outermost level. Comments nest.
pub open spec fn comment_end(src: Seq<u8>, pos: int, nesting: nat) -> Option<int>
    decreases src.len() - pos,
{
    if pos < 0 || pos >= src.len() {
        None
    } else if src[pos] == STAR && at(src, pos + 1, SLASH) {
        if nesting <= 1 {
            Some(pos + 2)
        } else {
            comment_end(src, pos + 2, (nesting - 1) as nat)
        }
    } else if src[pos] == SLASH && at(src, pos + 1, STAR) {
        comment_end(src, pos + 2, nesting + 1)
    } else {
        comment_end(src, pos + 1, nesting)
    }
}

pub proof fn lemma_comment_end_bounds(src: Seq<u8>, pos: int, nesting: nat)
    requires
        0 <= pos <= src.len(),
    ensures
        comment_end(src, pos, nesting) matches Some(e) ==> pos < e <= src.len(),
    decreases src.len() - pos,
{
    if pos < src.len() {
        if src[pos] == STAR && at(src, pos + 1, SLASH) {
            if nesting > 1 {
                lemma_comment_end_bounds(src, pos + 2, (nesting - 1) as nat);
            }
        } else if src[pos] == SLASH && at(src, pos + 1, STAR) {
            lemma_comment_end_bounds(src, pos + 2, nesting + 1);
        } else {
            lemma_comment_end_bounds(src, pos + 1, nesting);
        }
    }
}

/// Where the white space and comments end that start at `pos`: the offset of
/// the next token, or the length of the source.
#[verifier::opaque]
pub open spec fn trivia_end(src: Seq<u8>, pos: int) -> Result<int, LexError>
    decreases src.len() - pos,
{
    if pos < 0 || pos >= src.len() {
        Ok(pos)
    } else if is_space(src[pos]) {
        trivia_end(src, pos + 1)
    } else if src[pos] == MINUS && at(src, pos + 1, MINUS) {
        proof {
            lemma_run_end_bounds(src, pos + 2, ByteClass::LineBody);
        }
        trivia_end(src, run_end(src, pos + 2, ByteClass::LineBody))
    } else if src[pos] == SLASH && at(src, pos + 1, STAR) {
        proof {
            lemma_comment_end_bounds(src, pos + 2, 1);
        }
        match comment_end(src, pos + 2, 1) {
            Some(e) => trivia_end(src, e),
            None => Err(LexError { kind: LexErrorKind::UnterminatedComment, offset: pos as usize }),
        }
    } else {
        Ok(pos)
    }
}

/// Where a quoted text ends whose body is being read at `pos`: the offset
/// after the closing quote `q`. Two quotes in a row stand for one and close
/// nothing.
pub open spec fn quoted_end(src: Seq<u8>, pos: int, q: u8) -> Option<int>
    decreases src.len() - pos,
{
    if pos < 0 || pos >= src.len() {
        None
    } else if src[pos] == q {
        if at(src, pos + 1, q) {
            quoted_end(src, pos + 2, q)
        } else {
            Some(pos + 1)
        }
    } else {
        quoted_end(src, pos + 1, q)
    }
}

/// Where an escape string ends whose body is being read at `pos`, or the
/// first backslash that no known escape follows. `start` is where the
/// token began.
pub open spec fn escape_end(src: Seq<u8>, start: int, pos: int) -> Result<int, LexError>
    decreases src.len() - pos,
{
    if pos < 0 || pos >= src.len() {
        Err(LexError { kind: LexErrorKind::UnterminatedString, offset: start as usize })
    } else if src[pos] == BACKSLASH {
        if pos + 1 < src.len() && is_escape(src[pos + 1]) {
            escape_end(src, start, pos + 2)
        } else {
            Err(LexError { kind: LexErrorKind::InvalidEscape, offset: pos as usize })
        }
    } else if src[pos] == QUOTE {
        if at(src, pos + 1, QUOTE) {
            escape_end(src, start, pos + 2)
        } else {
            Ok(pos + 1)
        }
    } else {
        escape_end(src, start, pos + 1)
    }
}

/// Where a dollar-quoted string ends: the offset after the first copy, at
/// or after `pos`, of the `len` bytes at `open`, which are its opening tag.
pub open spec fn dollar_end(src: Seq<u8>, open: int, len: int, pos: int) -> Option<int>
    decreases src.len() - pos,
{
    if open < 0 || len <= 0 || pos < open + len || pos + len > src.len() {
        None
    } else if src.subrange(pos, pos + len) == src.subrange(open, open + len) {
        Some(pos + len)
    } else {
        dollar_end(src, open, len, pos + 1)
    }
}

/// The number that a run of decimal digits spells.
pub open spec fn decimal(digits: Seq<u8>) -> nat
    decreases digits.len(),
{
    if digits.len() == 0 {
        0
    } else {
        10 * decimal(digits.drop_last()) + (digits.last() - DIGIT_0) as nat
    }
}

/// The kind and end of the number that starts at `p`: digits, then maybe a
/// point and more digits, then maybe an exponent. An `e` that no digit
/// follows, after an optional sign, is not part of the number.
pub open spec fn number_at(src: Seq<u8>, p: int) -> (TokenKind, int) {
    let i = run_end(src, p, ByteClass::Digit);
    let point = at(src, i, POINT);
    let j = if point {
        run_end(src, i + 1, ByteClass::Digit)
    } else {
        i
    };
    let s = if at(src, j + 1, PLUS) || at(src, j + 1, MINUS) {
        j + 2
    } else {
        j + 1
    };
    if (at(src, j, LOWER_E) || at(src, j, UPPER_E)) && 0 <= s < src.len() && is_digit(src[s]) {
        (TokenKind::Float, run_end(src, s, ByteClass::Digit))
    } else if point {
        (TokenKind::Float, j)
    } else {
        (TokenKind::Integer, j)
    }
}

/// The token that starts with the `$` at `p`: a parameter placeholder where
/// a digit follows, else a dollar-quoted string.
pub open spec fn dollar_at(src: Seq<u8>, p: int) -> Result<(TokenKind, int), LexError> {
    if 0 <= p + 1 < src.len() && is_digit(src[p + 1]) {
        let e = run_end(src, p + 1, ByteClass::Digit);
        let index = decimal(src.subrange(p + 1, e));
        if index <= u32::MAX {
            Ok((TokenKind::Param(index as u32), e))
        } else {
            Err(LexError { kind: LexErrorKind::ParameterOutOfRange, offset: p as usize })
        }
    } else {
        let t = run_end(src, p + 1, ByteClass::TagPart);
        if at(src, t, DOLLAR) {
            match dollar_end(src, p, t + 1 - p, t + 1) {
                Some(e) => Ok((TokenKind::Str, e)),
                None => Err(
                    LexError { kind: LexErrorKind::UnterminatedDollarQuote, offset: p as usize },
                ),
            }
        } else {
            Err(LexError { kind: LexErrorKind::UnexpectedCharacter, offset: p as usize })
        }
    }
}

/// The operator or punctuation mark that starts at `p`: the longest one.
pub open spec fn symbol_at(src: Seq<u8>, p: int) -> Result<(TokenKind, int), LexError> {
    let b = src[p];
    if b == LESS && at(src, p + 1, GREATER) {
        Ok((TokenKind::Symbol(Symbol::NotEq), p + 2))
    } else if b == LESS && at(src, p + 1, EQUALS) {
        Ok((TokenKind::Symbol(Symbol::LtEq), p + 2))
    } else if b == GREATER && at(src, p + 1, EQUALS) {
        Ok((TokenKind::Symbol(Symbol::GtEq), p + 2))
    } else if b == BANG && at(src, p + 1, EQUALS) {
        Ok((TokenKind::Symbol(Symbol::NotEq), p + 2))
    } else if b == BAR && at(src, p + 1, BAR) {
        Ok((TokenKind::Symbol(Symbol::Concat), p + 2))
    } else if b == COLON && at(src, p + 1, COLON) {
        Ok((TokenKind::Symbol(Symbol::Cast), p + 2))
    } else if b == OPEN {
        Ok((TokenKind::Symbol(Symbol::LParen), p + 1))
    } else if b == CLOSE {
        Ok((TokenKind::Symbol(Symbol::RParen), p + 1))
    } else if b == COMMA {
        Ok((TokenKind::Symbol(Symbol::Comma), p + 1))
    } else if b == SEMICOLON {
        Ok((TokenKind::Symbol(Symbol::Semicolon), p + 1))
    } else if b == POINT {
        Ok((TokenKind::Symbol(Symbol::Dot), p + 1))
    } else if b == STAR {
        Ok((TokenKind::Symbol(Symbol::Star), p + 1))
    } else if b == PLUS {
        Ok((TokenKind::Symbol(Symbol::Plus), p + 1))
    } else if b == MINUS {
        Ok((TokenKind::Symbol(Symbol::Minus), p + 1))
    } else if b == SLASH {
        Ok((TokenKind::Symbol(Symbol::Slash), p + 1))
    } else if b == PERCENT {
        Ok((TokenKind::Symbol(Symbol::Percent), p + 1))
    } else if b == CARET {
        Ok((TokenKind::Symbol(Symbol::Caret), p + 1))
    } else if b == EQUALS {
        Ok((TokenKind::Symbol(Symbol::Eq), p + 1))
    } else if b == LESS {
        Ok((TokenKind::Symbol(Symbol::Lt), p + 1))
    } else if b == GREATER {
        Ok((TokenKind::Symbol(Symbol::Gt), p + 1))
    } else {
        Err(LexError { kind: LexErrorKind::UnexpectedCharacter, offset: p as usize })
    }
}

/// The kind of a word: a keyword if its lower-case form spells one, else an
/// identifier.
pub open spec fn word_kind(word: Seq<u8>) -> TokenKind {
    match keyword_of(folded(word)) {
        Some(k) => TokenKind::Keyword(k),
        None => TokenKind::Ident,
    }
}

/// The kind and end of the token that starts at `p`, where a byte stands
/// that is neither white space nor the start of a comment.
#[verifier::opaque]
pub open spec fn token_at(src: Seq<u8>, p: int) -> Result<(TokenKind, int), LexError> {
    let b = src[p];
    if (b == LOWER_E || b == UPPER_E) && at(src, p + 1, QUOTE) {
        match escape_end(src, p, p + 2) {
            Ok(e) => Ok((TokenKind::Str, e)),
            Err(x) => Err(x),
        }
    } else if is_ident_start(b) {
        let e = run_end(src, p + 1, ByteClass::IdentPart);
        Ok((word_kind(src.subrange(p, e)), e))
    } else if is_digit(b) || (b == POINT && 0 <= p + 1 < src.len() && is_digit(src[p + 1])) {
        Ok(number_at(src, p))
    } else if b == QUOTE {
        match quoted_end(src, p + 1, QUOTE) {
            Some(e) => Ok((TokenKind::Str, e)),
            None => Err(LexError { kind: LexErrorKind::UnterminatedString, offset: p as usize }),
        }
    } else if b == DOUBLE_QUOTE {
        match quoted_end(src, p + 1, DOUBLE_QUOTE) {
            Some(e) => if e == p + 2 {
                Err(LexError { kind: LexErrorKind::EmptyIdentifier, offset: p as usize })
            } else {
                Ok((TokenKind::QuotedIdent, e))
            },
            None => Err(
                LexError { kind: LexErrorKind::UnterminatedIdentifier, offset: p as usize },
            ),
        }
    } else if b == DOLLAR {
        dollar_at(src, p)
    } else {
        symbol_at(src, p)
    }
}

proof fn lemma_quoted_end_bounds(src: Seq<u8>, pos: int, q: u8)
    requires
        0 <= pos <= src.len(),
    ensures
        quoted_end(src, pos, q) matches Some(e) ==> pos < e <= src.len(),
    decreases src.len() - pos,
{
    if pos < src.len() {
        if src[pos] == q {
            if pos + 1 < src.len() && src[pos + 1] == q {
                lemma_quoted_end_bounds(src, pos + 2, q);
            }
        } else {
            lemma_quoted_end_bounds(src, pos + 1, q);
        }
    }
}

proof fn lemma_escape_end_bounds(src: Seq<u8>, start: int, pos: int)
    requires
        0 <= pos <= src.len(),
    ensures
        escape_end(src, start, pos) matches Ok(e) ==> pos < e <= src.len(),
    decreases src.len() - pos,
{
    if pos < src.len() {
        if src[pos] == BACKSLASH {
            if pos + 1 < src.len() && is_escape(src[pos + 1]) {
                lemma_escape_end_bounds(src, start, pos + 2);
            }
        } else if src[pos] == QUOTE {
            if pos + 1 < src.len() && src[pos + 1] == QUOTE {
                lemma_escape_end_bounds(src, start, pos + 2);
            }
        } else {
            lemma_escape_end_bounds(src, start, pos + 1);
        }
    }
}

proof fn lemma_dollar_end_bounds(src: Seq<u8>, open: int, len: int, pos: int)
    requires
        0 <= pos,
    ensures
        dollar_end(src, open, len, pos) matches Some(e) ==> pos < e <= src.len(),
    decreases src.len() - pos,
{
    if !(open < 0 || len <= 0 || pos < open + len || pos + len > src.len()) {
        if src.subrange(pos, pos + len) != src.subrange(open, open + len) {
            lemma_dollar_end_bounds(src, open, len, pos + 1);
        }
    }
}

proof fn lemma_number_at_bounds(src: Seq<u8>, p: int)
    requires
        0 <= p < src.len(),
        is_digit(src[p]) || (src[p] == POINT && p + 1 < src.len() && is_digit(src[p + 1])),
    ensures
        p < number_at(src, p).1 <= src.len(),
{
    let i = run_end(src, p, ByteClass::Digit);
    lemma_run_end_bounds(src, p, ByteClass::Digit);
    if is_digit(src[p]) {
        assert(i == run_end(src, p + 1, ByteClass::Digit));
        lemma_run_end_bounds(src, p + 1, ByteClass::Digit);
    } else {
        assert(i == p);
    }
    let point = at(src, i, POINT);
    let j = if point {
        run_end(src, i + 1, ByteClass::Digit)
    } else {
        i
    };
    if point {
        lemma_run_end_bounds(src, i + 1, ByteClass::Digit);
        if !is_digit(src[p]) {
            assert(run_end(src, p + 1, ByteClass::Digit) == run_end(
                src,
                p + 2,
                ByteClass::Digit,
            ));
            lemma_run_end_bounds(src, p + 2, ByteClass::Digit);
        }
    }
    assert(p < j <= src.len());
    let s = if at(src, j + 1, PLUS) || at(
        src,
        j + 1,
        MINUS,
    ) {
        j + 2
    } else {
        j + 1
    };
    if 0 <= s < src.len() {
        lemma_run_end_bounds(src, s, ByteClass::Digit);
    }
}

/// Every token is at least one byte long and ends inside the source.
pub proof fn token_at_advances(src: Seq<u8>, p: int)
    requires
        0 <= p < src.len(),
    ensures
        token_at(src, p) matches Ok(t) ==> p < t.1 <= src.len(),
{
    reveal(token_at);
    if p + 2 <= src.len() {
        lemma_escape_end_bounds(src, p, p + 2);
    }
    lemma_run_end_bounds(src, p + 1, ByteClass::IdentPart);
    lemma_quoted_end_bounds(src, p + 1, QUOTE);
    lemma_quoted_end_bounds(src, p + 1, DOUBLE_QUOTE);
    if is_digit(src[p]) || (src[p] == POINT && p + 1 < src.len() && is_digit(src[p + 1])) {
        lemma_number_at_bounds(src, p);
    }
    lemma_run_end_bounds(src, p + 1, ByteClass::Digit);
    let t = run_end(src, p + 1, ByteClass::TagPart);
    lemma_run_end_bounds(src, p + 1, ByteClass::TagPart);
    lemma_dollar_end_bounds(src, p, t + 1 - p, t + 1);
}

/// White space and comments end at or after where they start, inside the
/// source.
pub proof fn trivia_end_in_bounds(src: Seq<u8>, pos: int)
    requires
        0 <= pos <= src.len(),
    ensures
        trivia_end(src, pos) matches Ok(p) ==> pos <= p <= src.len(),
    decreases src.len() - pos,
{
    reveal(trivia_end);
    if pos < src.len() {
        if is_space(src[pos]) {
            trivia_end_in_bounds(src, pos + 1);
        } else if src[pos] == MINUS && at(
            src,
            pos + 1,
            MINUS,
        ) {
            lemma_run_end_bounds(src, pos + 2, ByteClass::LineBody);
            trivia_end_in_bounds(src, run_end(src, pos + 2, ByteClass::LineBody));
        } else if src[pos] == SLASH && at(
            src,
            pos + 1,
            STAR,
        ) {
            lemma_comment_end_bounds(src, pos + 2, 1);
            match comment_end(src, pos + 2, 1) {
                Some(e) => {
                    trivia_end_in_bounds(src, e);
                },
                None => {},
            }
        }
    }
}

/// The tokens of the source from `pos` on, after those in `acc`.
pub open spec fn lex_from(src: Seq<u8>, pos: int, acc: Seq<Token>) -> Result<Seq<Token>, LexError>
    decreases src.len() - pos,
    when 0 <= pos <= src.len()
{
    match trivia_end(src, pos) {
        Err(e) => Err(e),
        Ok(p) => if p >= src.len() {
            Ok(acc)
        } else {
            match token_at(src, p) {
                Err(e) => Err(e),
                Ok((kind, end)) => {
                    proof {
                        trivia_end_in_bounds(src, pos);
                        token_at_advances(src, p);
                    }
                    lex_from(src, end, acc.push(Token { kind, start: p as usize, end: end as usize }))
                },
            }
        },
    }
}

/// The token sequence of a source text, or its first lexical error.
pub open spec fn lex(src: Seq<u8>) -> Result<Seq<Token>, LexError> {
    lex_from(src, 0, Seq::empty())
}

/// Tokens lie in the source in order, none empty, none overlapping.
pub open spec fn well_spaced(tokens: Seq<Token>, len: nat) -> bool {
    &&& forall|i: int| 0 <= i < tokens.len() ==> (#[trigger] tokens[i]).start < tokens[i].end <= len
    &&& forall|i: int, j: int|
        0 <= i < j < tokens.len() ==> (#[trigger] tokens[i]).end <= (#[trigger] tokens[j]).start
}

/// An executable scan result that is the one the specification names.
pub open spec fn is_found(r: Option<usize>, s: Option<int>) -> bool {
    match s {
        Some(e) => r == Some(e as usize) && 0 <= e <= usize::MAX,
        None => r is None,
    }
}

/// An executable scan result that is the one the specification names.
pub open spec fn is_end(r: Result<usize, LexError>, s: Result<int, LexError>) -> bool {
    match s {
        Ok(e) => r == Ok::<usize, LexError>(e as usize) && 0 <= e <= usize::MAX,
        Err(x) => r == Err::<usize, LexError>(x),
    }
}

/// An executable token scan that is the one the specification names.
pub open spec fn is_token(
    r: Result<(TokenKind, usize), LexError>,
    s: Result<(TokenKind, int), LexError>,
) -> bool {
    match s {
        Ok((k, e)) => r == Ok::<(TokenKind, usize), LexError>((k, e as usize)) && 0 <= e
            <= usize::MAX,
        Err(x) => r == Err::<(TokenKind, usize), LexError>(x),
    }
}

fn scan_run(src: &[u8], pos: usize, c: ByteClass) -> (end: usize)
    requires
        pos <= src.len(),
    ensures
        end == run_end(src@, pos as int, c),
        pos <= end <= src.len(),
{
    let n: usize = src.len();
    let mut i: usize = pos;
    while i < n && in_class(c, src[i])
        invariant
            pos <= i <= n,
            n == src.len(),
            run_end(src@, pos as int, c) == run_end(src@, i as int, c),
        decreases n - i,
    {
        i += 1;
    }
    i
}

fn scan_comment(src: &[u8], pos: usize) -> (r: Option<usize>)
    requires
        pos <= src.len(),
    ensures
        is_found(r, comment_end(src@, pos as int, 1)),
        r matches Some(e) ==> pos < e <= src.len(),
{
    let n: usize = src.len();
    let mut i: usize = pos;
    let mut nesting: usize = 1;
    while i < n
        invariant
            pos <= i <= n,
            n == src.len(),
            1 <= nesting <= i - pos + 1,
            comment_end(src@, pos as int, 1) == comment_end(src@, i as int, nesting as nat),
        decreases n - i,
    {
        if src[i] == STAR && i + 1 < n && src[i + 1] == SLASH {
            if nesting <= 1 {
                return Some(i + 2);
            }
            nesting -= 1;
            i += 2;
        } else if src[i] == SLASH && i + 1 < n && src[i + 1] == STAR {
            nesting += 1;
            i += 2;
        } else {
            i += 1;
        }
    }
    None
}

fn skip_trivia(src: &[u8], pos: usize) -> (r: Result<usize, LexError>)
    requires
        pos <= src.len(),
    ensures
        is_end(r, trivia_end(src@, pos as int)),
        r matches Ok(p) ==> pos <= p <= src.len(),
        r matches Err(e) ==> e.offset < src.len(),
{
    reveal(trivia_end);
    let n: usize = src.len();
    let mut i: usize = pos;
    while i < n
        invariant
            pos <= i <= n,
            n == src.len(),
            trivia_end(src@, pos as int) == trivia_end(src@, i as int),
        decreases n - i,
    {
        reveal(trivia_end);
        if is_space(src[i]) {
            i += 1;
        } else if src[i] == MINUS && i + 1 < n && src[i + 1] == MINUS {
            i = scan_run(src, i + 2, ByteClass::LineBody);
        } else if src[i] == SLASH && i + 1 < n && src[i + 1] == STAR {
            match scan_comment(src, i + 2) {
                Some(e) => {
                    i = e;
                },
                None => {
                    return Err(LexError { kind: LexErrorKind::UnterminatedComment, offset: i });
                },
            }
        } else {
            return Ok(i);
        }
    }
    Ok(i)
}

fn scan_quoted(src: &[u8], pos: usize, q: u8) -> (r: Option<usize>)
    requires
        pos <= src.len(),
    ensures
        is_found(r, quoted_end(src@, pos as int, q)),
        r matches Some(e) ==> pos < e <= src.len(),
{
    let n: usize = src.len();
    let mut i: usize = pos;
    while i < n
        invariant
            pos <= i <= n,
            n == src.len(),
            quoted_end(src@, pos as int, q) == quoted_end(src@, i as int, q),
        decreases n - i,
    {
        if src[i] == q {
            if i + 1 < n && src[i + 1] == q {
                i += 2;
            } else {
                return Some(i + 1);
            }
        } else {
            i += 1;
        }
    }
    None
}

fn scan_escape(src: &[u8], start: usize, pos: usize) -> (r: Result<usize, LexError>)
    requires
        start < pos <= src.len(),
    ensures
        is_end(r, escape_end(src@, start as int, pos as int)),
        r matches Ok(e) ==> pos < e <= src.len(),
        r matches Err(e) ==> e.offset < src.len(),
{
    let n: usize = src.len();
    let mut i: usize = pos;
    while i < n
        invariant
            pos <= i <= n,
            n == src.len(),
            escape_end(src@, start as int, pos as int) == escape_end(
                src@,
                start as int,
                i as int,
            ),
        decreases n - i,
    {
        if src[i] == BACKSLASH {
            if i + 1 < n && is_escape(src[i + 1]) {
                i += 2;
            } else {
                return Err(LexError { kind: LexErrorKind::InvalidEscape, offset: i });
            }
        } else if src[i] == QUOTE {
            if i + 1 < n && src[i + 1] == QUOTE {
                i += 2;
            } else {
                return Ok(i + 1);
            }
        } else {
            i += 1;
        }
    }
    Err(LexError { kind: LexErrorKind::UnterminatedString, offset: start })
}

/// Whether the `len` bytes at `a` are those at `b`.
fn same_bytes(src: &[u8], a: usize, b: usize, len: usize) -> (r: bool)
    requires
        a + len <= src.len(),
        b + len <= src.len(),
    ensures
        r == (src@.subrange(a as int, a + len) == src@.subrange(b as int, b + len)),
{
    let mut k: usize = 0;
    while k < len
        invariant
            k <= len,
            a + len <= src.len(),
            b + len <= src.len(),
            src@.subrange(a as int, a + k) =~= src@.subrange(b as int, b + k),
        decreases len - k,
    {
        if src[a + k] != src[b + k] {
            assert(src@.subrange(a as int, a + len)[k as int] != src@.subrange(
                b as int,
                b + len,
            )[k as int]);
            return false;
        }
        assert(src@.subrange(a as int, a + k + 1) =~= src@.subrange(a as int, a + k).push(
            src@[a + k],
        ));
        assert(src@.subrange(b as int, b + k + 1) =~= src@.subrange(b as int, b + k).push(
            src@[b + k],
        ));
        k += 1;
    }
    true
}

fn scan_dollar(src: &[u8], open: usize, len: usize, pos: usize) -> (r: Option<usize>)
    requires
        open + len <= pos <= src.len(),
        len > 0,
    ensures
        is_found(r, dollar_end(src@, open as int, len as int, pos as int)),
        r matches Some(e) ==> pos < e <= src.len(),
{
    let n: usize = src.len();
    let mut i: usize = pos;
    while len <= n - i
        invariant
            pos <= i <= n,
            n == src.len(),
            open + len <= pos,
            len > 0,
            dollar_end(src@, open as int, len as int, pos as int) == dollar_end(
                src@,
                open as int,
                len as int,
                i as int,
            ),
        decreases n - i,
    {
        if same_bytes(src, i, open, len) {
            return Some(i + len);
        }
        i += 1;
    }
    None
}

pub proof fn lemma_decimal_grows(digits: Seq<u8>, k: int)
    requires
        0 <= k <= digits.len(),
        forall|i: int| 0 <= i < digits.len() ==> is_digit(#[trigger] digits[i]),
    ensures
        decimal(digits.subrange(0, k)) <= decimal(digits),
    decreases digits.len() - k,
{
    if k < digits.len() {
        let longer = digits.subrange(0, k + 1);
        assert(longer.drop_last() =~= digits.subrange(0, k));
        assert(is_digit(digits[k]));
        lemma_decimal_grows(digits, k + 1);
    } else {
        assert(digits.subrange(0, k) =~= digits);
    }
}

pub proof fn lemma_run_is_class(src: Seq<u8>, pos: int, c: ByteClass, i: int)
    requires
        0 <= pos <= i < run_end(src, pos, c),
    ensures
        i < src.len(),
        in_class(c, src[i]),
    decreases i - pos,
{
    if i > pos {
        lemma_run_is_class(src, pos + 1, c, i);
    }
}

/// The index that the digits `from..to` spell, if it fits in 32 bits.
fn param_index(src: &[u8], from: usize, to: usize) -> (r: Option<u32>)
    requires
        from <= to <= src.len(),
        forall|i: int| from <= i < to ==> is_digit(#[trigger] src@[i]),
    ensures
        r matches Some(v) ==> v == decimal(src@.subrange(from as int, to as int)),
        r is None ==> decimal(src@.subrange(from as int, to as int)) > u32::MAX,
{
    let ghost digits = src@.subrange(from as int, to as int);
    let mut acc: u64 = 0;
    let mut i: usize = from;
    while i < to
        invariant
            from <= i <= to <= src.len(),
            digits == src@.subrange(from as int, to as int),
            forall|j: int| from <= j < to ==> is_digit(#[trigger] src@[j]),
            acc <= u32::MAX,
            acc == decimal(digits.subrange(0, i - from)),
        decreases to - i,
    {
        assert(is_digit(src@[i as int]));
        let d: u64 = (src[i] - DIGIT_0) as u64;
        let next: u64 = acc * 10 + d;
        proof {
            let longer = digits.subrange(0, i + 1 - from);
            assert(longer.drop_last() =~= digits.subrange(0, i - from));
            assert(longer.last() == src@[i as int]);
        }
        if next > 0xffff_ffff {
            proof {
                lemma_decimal_grows(digits, i + 1 - from);
            }
            return None;
        }
        acc = next;
        i += 1;
    }
    assert(digits.subrange(0, to - from) =~= digits);
    Some(acc as u32)
}

fn scan_dollar_token(src: &[u8], p: usize) -> (r: Result<(TokenKind, usize), LexError>)
    requires
        p < src.len(),
        src@[p as int] == DOLLAR,
    ensures
        is_token(r, dollar_at(src@, p as int)),
        r matches Ok(t) ==> p < t.1 <= src.len(),
        r matches Err(e) ==> e.offset < src.len(),
{
    let n: usize = src.len();
    if p + 1 < n && is_digit(src[p + 1]) {
        let e = scan_run(src, p + 1, ByteClass::Digit);
        proof {
            assert forall|i: int| p + 1 <= i < e implies is_digit(#[trigger] src@[i]) by {
                lemma_run_is_class(src@, p + 1, ByteClass::Digit, i);
            }
        }
        match param_index(src, p + 1, e) {
            Some(v) => Ok((TokenKind::Param(v), e)),
            None => Err(LexError { kind: LexErrorKind::ParameterOutOfRange, offset: p }),
        }
    } else {
        let t = scan_run(src, p + 1, ByteClass::TagPart);
        if t < n && src[t] == DOLLAR {
            match scan_dollar(src, p, t + 1 - p, t + 1) {
                Some(e) => Ok((TokenKind::Str, e)),
                None => Err(LexError { kind: LexErrorKind::UnterminatedDollarQuote, offset: p }),
            }
        } else {
            Err(LexError { kind: LexErrorKind::UnexpectedCharacter, offset: p })
        }
    }
}

fn scan_number(src: &[u8], p: usize) -> (r: (TokenKind, usize))
    requires
        p < src.len(),
        is_digit(src@[p as int]) || (src@[p as int] == POINT && p + 1 < src.len() && is_digit(
            src@[p + 1],
        )),
    ensures
        r.0 == number_at(src@, p as int).0,
        r.1 == number_at(src@, p as int).1,
        p < r.1 <= src.len(),
{
    let n: usize = src.len();
    let i = scan_run(src, p, ByteClass::Digit);
    let point = i < n && src[i] == POINT;
    let j = if point {
        scan_run(src, i + 1, ByteClass::Digit)
    } else {
        i
    };
    assert(p < j) by {
        if is_digit(src@[p as int]) {
            assert(run_end(src@, p as int, ByteClass::Digit) == run_end(
                src@,
                p + 1,
                ByteClass::Digit,
            ));
            lemma_run_end_bounds(src@, p + 1, ByteClass::Digit);
        }
    }
    if j < n && (src[j] == LOWER_E || src[j] == UPPER_E) {
        let s: usize = if j + 1 < n && (src[j + 1] == PLUS || src[j + 1] == MINUS) {
            j + 2
        } else {
            j + 1
        };
        if s < n && is_digit(src[s]) {
            let e = scan_run(src, s, ByteClass::Digit);
            return (TokenKind::Float, e);
        }
    }
    if point {
        (TokenKind::Float, j)
    } else {
        (TokenKind::Integer, j)
    }
}

fn scan_symbol(src: &[u8], p: usize) -> (r: Result<(TokenKind, usize), LexError>)
    requires
        p < src.len(),
    ensures
        is_token(r, symbol_at(src@, p as int)),
        r matches Ok(t) ==> p < t.1 <= src.len(),
        r matches Err(e) ==> e.offset < src.len(),
{
    let n: usize = src.len();
    let b = src[p];
    let next: u8 = if p + 1 < n {
        src[p + 1]
    } else {
        0
    };
    let more = p + 1 < n;
    if b == LESS && more && next == GREATER {
        Ok((TokenKind::Symbol(Symbol::NotEq), p + 2))
    } else if b == LESS && more && next == EQUALS {
        Ok((TokenKind::Symbol(Symbol::LtEq), p + 2))
    } else if b == GREATER && more && next == EQUALS {
        Ok((TokenKind::Symbol(Symbol::GtEq), p + 2))
    } else if b == BANG && more && next == EQUALS {
        Ok((TokenKind::Symbol(Symbol::NotEq), p + 2))
    } else if b == BAR && more && next == BAR {
        Ok((TokenKind::Symbol(Symbol::Concat), p + 2))
    } else if b == COLON && more && next == COLON {
        Ok((TokenKind::Symbol(Symbol::Cast), p + 2))
    } else if b == OPEN {
        Ok((TokenKind::Symbol(Symbol::LParen), p + 1))
    } else if b == CLOSE {
        Ok((TokenKind::Symbol(Symbol::RParen), p + 1))
    } else if b == COMMA {
        Ok((TokenKind::Symbol(Symbol::Comma), p + 1))
    } else if b == SEMICOLON {
        Ok((TokenKind::Symbol(Symbol::Semicolon), p + 1))
    } else if b == POINT {
        Ok((TokenKind::Symbol(Symbol::Dot), p + 1))
    } else if b == STAR {
        Ok((TokenKind::Symbol(Symbol::Star), p + 1))
    } else if b == PLUS {
        Ok((TokenKind::Symbol(Symbol::Plus), p + 1))
    } else if b == MINUS {
        Ok((TokenKind::Symbol(Symbol::Minus), p + 1))
    } else if b == SLASH {
        Ok((TokenKind::Symbol(Symbol::Slash), p + 1))
    } else if b == PERCENT {
        Ok((TokenKind::Symbol(Symbol::Percent), p + 1))
    } else if b == CARET {
        Ok((TokenKind::Symbol(Symbol::Caret), p + 1))
    } else if b == EQUALS {
        Ok((TokenKind::Symbol(Symbol::Eq), p + 1))
    } else if b == LESS {
        Ok((TokenKind::Symbol(Symbol::Lt), p + 1))
    } else if b == GREATER {
        Ok((TokenKind::Symbol(Symbol::Gt), p + 1))
    } else {
        Err(LexError { kind: LexErrorKind::UnexpectedCharacter, offset: p })
    }
}

/// The bytes `from..to` of the source in lower case.
pub(crate) fn fold_word(src: &[u8], from: usize, to: usize) -> (word: Vec<u8>)
    requires
        from <= to <= src.len(),
    ensures
        word@ == folded(src@.subrange(from as int, to as int)),
{
    let mut word: Vec<u8> = Vec::new();
    let mut i: usize = from;
    while i < to
        invariant
            from <= i <= to <= src.len(),
            word@ == folded(src@.subrange(from as int, i as int)),
        decreases to - i,
    {
        word.push(lower(src[i]));
        assert(word@ =~= folded(src@.subrange(from as int, i + 1)));
        i += 1;
    }
    word
}

fn scan_token(src: &[u8], p: usize) -> (r: Result<(TokenKind, usize), LexError>)
    requires
        p < src.len(),
    ensures
        is_token(r, token_at(src@, p as int)),
        r matches Ok(t) ==> p < t.1 <= src.len(),
        r matches Err(e) ==> e.offset < src.len(),
{
    reveal(token_at);
    let n: usize = src.len();
    let b = src[p];
    if (b == LOWER_E || b == UPPER_E) && p + 1 < n && src[p + 1] == QUOTE {
        match scan_escape(src, p, p + 2) {
            Ok(e) => Ok((TokenKind::Str, e)),
            Err(x) => Err(x),
        }
    } else if is_ident_start(b) {
        let e = scan_run(src, p + 1, ByteClass::IdentPart);
        let word = fold_word(src, p, e);
        match lookup_keyword(&word) {
            Some(k) => Ok((TokenKind::Keyword(k), e)),
            None => Ok((TokenKind::Ident, e)),
        }
    } else if is_digit(b) || (b == POINT && p + 1 < n && is_digit(src[p + 1])) {
        Ok(scan_number(src, p))
    } else if b == QUOTE {
        match scan_quoted(src, p + 1, QUOTE) {
            Some(e) => Ok((TokenKind::Str, e)),
            None => Err(LexError { kind: LexErrorKind::UnterminatedString, offset: p }),
        }
    } else if b == DOUBLE_QUOTE {
        match scan_quoted(src, p + 1, DOUBLE_QUOTE) {
            Some(e) => if e == p + 2 {
                Err(LexError { kind: LexErrorKind::EmptyIdentifier, offset: p })
            } else {
                Ok((TokenKind::QuotedIdent, e))
            },
            None => Err(LexError { kind: LexErrorKind::UnterminatedIdentifier, offset: p }),
        }
    } else if b == DOLLAR {
        scan_dollar_token(src, p)
    } else {
        scan_symbol(src, p)
    }
}

/// Splits a source text into its tokens, or finds its first lexical error.
///
/// The result is exactly `lex` of the source. The tokens of a success lie in
/// the source in order and cover none of its bytes twice; the offset of an
/// error lies inside the source.
pub fn tokenize(src: &[u8]) -> (r: Result<Vec<Token>, LexError>)
    ensures
        match lex(src@) {
            Ok(tokens) => r matches Ok(v) && v@ == tokens,
            Err(e) => r matches Err(x) && x == e,
        },
        r matches Ok(v) ==> well_spaced(v@, src@.len()),
        r matches Err(e) ==> e.offset < src@.len(),
{
    let n: usize = src.len();
    let mut tokens: Vec<Token> = Vec::new();
    let mut pos: usize = 0;
    loop
        invariant
            pos <= n,
            n == src.len(),
            lex(src@) == lex_from(src@, pos as int, tokens@),
            well_spaced(tokens@, src@.len()),
            forall|i: int| 0 <= i < tokens@.len() ==> (#[trigger] tokens@[i]).end <= pos,
        decreases n - pos,
    {
        let p = match skip_trivia(src, pos) {
            Ok(p) => p,
            Err(e) => {
                return Err(e);
            },
        };
        if p >= n {
            return Ok(tokens);
        }
        match scan_token(src, p) {
            Err(e) => {
                return Err(e);
            },
            Ok((kind, end)) => {
                tokens.push(Token { kind, start: p, end });
                pos = end;
            },
        }
    }
}

} // verus!
