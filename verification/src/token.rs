//! Tokens: what the lexer hands to the parser.

use vstd::prelude::*;
use vstd::string::StringSliceAdditionalSpecFns;

verus! {

/// The reserved words of the dialect. None of them can serve as an unquoted
/// identifier.
#[derive(Clone, Copy, Debug, PartialEq, Eq, Structural)]
pub enum Keyword {
    All,
    And,
    As,
    Asc,
    Between,
    By,
    Case,
    Cross,
    Default,
    Delete,
    Desc,
    Distinct,
    Else,
    End,
    Except,
    Exists,
    False,
    From,
    Full,
    Group,
    Having,
    In,
    Inner,
    Insert,
    Intersect,
    Into,
    Is,
    Join,
    Left,
    Like,
    Limit,
    Not,
    Null,
    Offset,
    On,
    Or,
    Order,
    Outer,
    Over,
    Partition,
    Recursive,
    Right,
    Select,
    /// The word `SET`.
    SetKw,
    Then,
    True,
    Union,
    Update,
    Using,
    Values,
    When,
    Where,
    With,
}

/// Operators and punctuation.
#[derive(Clone, Copy, Debug, PartialEq, Eq, Structural)]
pub enum Symbol {
    LParen,
    RParen,
    Comma,
    Semicolon,
    Dot,
    Star,
    Plus,
    Minus,
    Slash,
    Percent,
    Caret,
    Eq,
    NotEq,
    Lt,
    LtEq,
    Gt,
    GtEq,
    Concat,
    Cast,
}

/// The kind of a token, as the lexer tells it from the text.
#[derive(Clone, Copy, Debug, PartialEq, Eq, Structural)]
pub enum TokenKind {
    Keyword(Keyword),
    /// An unquoted identifier: its name is its text in lower case.
    Ident,
    /// A double-quoted identifier: its name is the text between the quotes.
    QuotedIdent,
    Integer,
    Float,
    /// A string constant: quoted, escape-quoted or dollar-quoted.
    Str,
    /// A parameter placeholder with its index, as in `$1`.
    Param(u32),
    Symbol(Symbol),
}

/// A token: its kind and the bytes `start..end` of the source that it covers.
#[derive(Clone, Copy, Debug, PartialEq, Eq, Structural)]
pub struct Token {
    pub kind: TokenKind,
    pub start: usize,
    pub end: usize,
}

/// What the grammar can tell of a token. All constants, parameter
/// placeholders included, are one class: the parser cannot tell `1` from
/// `'a'` or `$2`, and identifiers are a class whether quoted or not.
#[derive(Clone, Copy, Debug, PartialEq, Eq, Structural)]
pub enum TokClass {
    Keyword(Keyword),
    Ident,
    Literal,
    Symbol(Symbol),
    /// Past the last token.
    End,
}

/// The class of a token kind.
pub open spec fn class_of(kind: TokenKind) -> TokClass {
    match kind {
        TokenKind::Keyword(k) => TokClass::Keyword(k),
        TokenKind::Ident => TokClass::Ident,
        TokenKind::QuotedIdent => TokClass::Ident,
        TokenKind::Integer => TokClass::Literal,
        TokenKind::Float => TokClass::Literal,
        TokenKind::Str => TokClass::Literal,
        TokenKind::Param(_) => TokClass::Literal,
        TokenKind::Symbol(s) => TokClass::Symbol(s),
    }
}

impl TokenKind {
    /// The class of this kind.
    pub fn class(&self) -> (c: TokClass)
        ensures
            c == class_of(*self),
    {
        match self {
            TokenKind::Keyword(k) => TokClass::Keyword(*k),
            TokenKind::Ident => TokClass::Ident,
            TokenKind::QuotedIdent => TokClass::Ident,
            TokenKind::Integer => TokClass::Literal,
            TokenKind::Float => TokClass::Literal,
            TokenKind::Str => TokClass::Literal,
            TokenKind::Param(_) => TokClass::Literal,
            TokenKind::Symbol(s) => TokClass::Symbol(*s),
        }
    }
}

/// The classes of a token sequence, one for one.
pub open spec fn classes(tokens: Seq<Token>) -> Seq<TokClass> {
    Seq::new(tokens.len(), |i: int| class_of(tokens[i].kind))
}

/// The keyword that a word in lower case spells, if it spells one.
#[verifier::opaque]
pub open spec fn keyword_of(word: Seq<u8>) -> Option<Keyword> {
    if word == "all".spec_bytes() {
        Some(Keyword::All)
    } else if word == "and".spec_bytes() {
        Some(Keyword::And)
    } else if word == "as".spec_bytes() {
        Some(Keyword::As)
    } else if word == "asc".spec_bytes() {
        Some(Keyword::Asc)
    } else if word == "between".spec_bytes() {
        Some(Keyword::Between)
    } else if word == "by".spec_bytes() {
        Some(Keyword::By)
    } else if word == "case".spec_bytes() {
        Some(Keyword::Case)
    } else if word == "cross".spec_bytes() {
        Some(Keyword::Cross)
    } else if word == "default".spec_bytes() {
        Some(Keyword::Default)
    } else if word == "delete".spec_bytes() {
        Some(Keyword::Delete)
    } else if word == "desc".spec_bytes() {
        Some(Keyword::Desc)
    } else if word == "distinct".spec_bytes() {
        Some(Keyword::Distinct)
    } else if word == "else".spec_bytes() {
        Some(Keyword::Else)
    } else if word == "end".spec_bytes() {
        Some(Keyword::End)
    } else if word == "except".spec_bytes() {
        Some(Keyword::Except)
    } else if word == "exists".spec_bytes() {
        Some(Keyword::Exists)
    } else if word == "false".spec_bytes() {
        Some(Keyword::False)
    } else if word == "from".spec_bytes() {
        Some(Keyword::From)
    } else if word == "full".spec_bytes() {
        Some(Keyword::Full)
    } else if word == "group".spec_bytes() {
        Some(Keyword::Group)
    } else if word == "having".spec_bytes() {
        Some(Keyword::Having)
    } else if word == "in".spec_bytes() {
        Some(Keyword::In)
    } else if word == "inner".spec_bytes() {
        Some(Keyword::Inner)
    } else if word == "insert".spec_bytes() {
        Some(Keyword::Insert)
    } else if word == "intersect".spec_bytes() {
        Some(Keyword::Intersect)
    } else if word == "into".spec_bytes() {
        Some(Keyword::Into)
    } else if word == "is".spec_bytes() {
        Some(Keyword::Is)
    } else if word == "join".spec_bytes() {
        Some(Keyword::Join)
    } else if word == "left".spec_bytes() {
        Some(Keyword::Left)
    } else if word == "like".spec_bytes() {
        Some(Keyword::Like)
    } else if word == "limit".spec_bytes() {
        Some(Keyword::Limit)
    } else if word == "not".spec_bytes() {
        Some(Keyword::Not)
    } else if word == "null".spec_bytes() {
        Some(Keyword::Null)
    } else if word == "offset".spec_bytes() {
        Some(Keyword::Offset)
    } else if word == "on".spec_bytes() {
        Some(Keyword::On)
    } else if word == "or".spec_bytes() {
        Some(Keyword::Or)
    } else if word == "order".spec_bytes() {
        Some(Keyword::Order)
    } else if word == "outer".spec_bytes() {
        Some(Keyword::Outer)
    } else if word == "over".spec_bytes() {
        Some(Keyword::Over)
    } else if word == "partition".spec_bytes() {
        Some(Keyword::Partition)
    } else if word == "recursive".spec_bytes() {
        Some(Keyword::Recursive)
    } else if word == "right".spec_bytes() {
        Some(Keyword::Right)
    } else if word == "select".spec_bytes() {
        Some(Keyword::Select)
    } else if word == "set".spec_bytes() {
        Some(Keyword::SetKw)
    } else if word == "then".spec_bytes() {
        Some(Keyword::Then)
    } else if word == "true".spec_bytes() {
        Some(Keyword::True)
    } else if word == "union".spec_bytes() {
        Some(Keyword::Union)
    } else if word == "update".spec_bytes() {
        Some(Keyword::Update)
    } else if word == "using".spec_bytes() {
        Some(Keyword::Using)
    } else if word == "values".spec_bytes() {
        Some(Keyword::Values)
    } else if word == "when".spec_bytes() {
        Some(Keyword::When)
    } else if word == "where".spec_bytes() {
        Some(Keyword::Where)
    } else if word == "with".spec_bytes() {
        Some(Keyword::With)
    } else {
        None
    }
}

/// Whether a word is, byte for byte, the given text.
pub fn word_is(word: &Vec<u8>, text: &str) -> (r: bool)
    ensures
        r == (word@ == text.spec_bytes()),
{
    let bytes = text.as_bytes();
    if bytes.len() != word.len() {
        return false;
    }
    let mut i: usize = 0;
    while i < word.len()
        invariant
            i <= word.len(),
            bytes@.len() == word@.len(),
            bytes@ == text.spec_bytes(),
            forall|j: int| 0 <= j < i ==> word@[j] == bytes@[j],
        decreases word.len() - i,
    {
        if word[i] != bytes[i] {
            return false;
        }
        i += 1;
    }
    assert(word@ =~= bytes@);
    true
}

/// Looks a word in lower case up among the keywords.
pub fn lookup_keyword(word: &Vec<u8>) -> (r: Option<Keyword>)
    ensures
        r == keyword_of(word@),
{
    reveal(keyword_of);
    if word_is(word, "all") {
        Some(Keyword::All)
    } else if word_is(word, "and") {
        Some(Keyword::And)
    } else if word_is(word, "as") {
        Some(Keyword::As)
    } else if word_is(word, "asc") {
        Some(Keyword::Asc)
    } else if word_is(word, "between") {
        Some(Keyword::Between)
    } else if word_is(word, "by") {
        Some(Keyword::By)
    } else if word_is(word, "case") {
        Some(Keyword::Case)
    } else if word_is(word, "cross") {
        Some(Keyword::Cross)
    } else if word_is(word, "default") {
        Some(Keyword::Default)
    } else if word_is(word, "delete") {
        Some(Keyword::Delete)
    } else if word_is(word, "desc") {
        Some(Keyword::Desc)
    } else if word_is(word, "distinct") {
        Some(Keyword::Distinct)
    } else if word_is(word, "else") {
        Some(Keyword::Else)
    } else if word_is(word, "end") {
        Some(Keyword::End)
    } else if word_is(word, "except") {
        Some(Keyword::Except)
    } else if word_is(word, "exists") {
        Some(Keyword::Exists)
    } else if word_is(word, "false") {
        Some(Keyword::False)
    } else if word_is(word, "from") {
        Some(Keyword::From)
    } else if word_is(word, "full") {
        Some(Keyword::Full)
    } else if word_is(word, "group") {
        Some(Keyword::Group)
    } else if word_is(word, "having") {
        Some(Keyword::Having)
    } else if word_is(word, "in") {
        Some(Keyword::In)
    } else if word_is(word, "inner") {
        Some(Keyword::Inner)
    } else if word_is(word, "insert") {
        Some(Keyword::Insert)
    } else if word_is(word, "intersect") {
        Some(Keyword::Intersect)
    } else if word_is(word, "into") {
        Some(Keyword::Into)
    } else if word_is(word, "is") {
        Some(Keyword::Is)
    } else if word_is(word, "join") {
        Some(Keyword::Join)
    } else if word_is(word, "left") {
        Some(Keyword::Left)
    } else if word_is(word, "like") {
        Some(Keyword::Like)
    } else if word_is(word, "limit") {
        Some(Keyword::Limit)
    } else if word_is(word, "not") {
        Some(Keyword::Not)
    } else if word_is(word, "null") {
        Some(Keyword::Null)
    } else if word_is(word, "offset") {
        Some(Keyword::Offset)
    } else if word_is(word, "on") {
        Some(Keyword::On)
    } else if word_is(word, "or") {
        Some(Keyword::Or)
    } else if word_is(word, "order") {
        Some(Keyword::Order)
    } else if word_is(word, "outer") {
        Some(Keyword::Outer)
    } else if word_is(word, "over") {
        Some(Keyword::Over)
    } else if word_is(word, "partition") {
        Some(Keyword::Partition)
    } else if word_is(word, "recursive") {
        Some(Keyword::Recursive)
    } else if word_is(word, "right") {
        Some(Keyword::Right)
    } else if word_is(word, "select") {
        Some(Keyword::Select)
    } else if word_is(word, "set") {
        Some(Keyword::SetKw)
    } else if word_is(word, "then") {
        Some(Keyword::Then)
    } else if word_is(word, "true") {
        Some(Keyword::True)
    } else if word_is(word, "union") {
        Some(Keyword::Union)
    } else if word_is(word, "update") {
        Some(Keyword::Update)
    } else if word_is(word, "using") {
        Some(Keyword::Using)
    } else if word_is(word, "values") {
        Some(Keyword::Values)
    } else if word_is(word, "when") {
        Some(Keyword::When)
    } else if word_is(word, "where") {
        Some(Keyword::Where)
    } else if word_is(word, "with") {
        Some(Keyword::With)
    } else {
        None
    }
}

} // verus!
