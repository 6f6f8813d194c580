use pg_query_parser::lexer::{tokenize, LexError, LexErrorKind};
use pg_query_parser::token::{Keyword, Symbol, Token, TokenKind};

fn tok(kind: TokenKind, start: usize, end: usize) -> Token {
    Token { kind, start, end }
}

#[test]
fn tokens_of_select_one() {
    assert_eq!(
        tokenize(b"SELECT 1").unwrap(),
        vec![tok(TokenKind::Keyword(Keyword::Select), 0, 6), tok(TokenKind::Integer, 7, 8)]
    );
}

#[test]
fn tokens_of_nothing() {
    assert_eq!(tokenize(b"").unwrap(), vec![]);
    assert_eq!(tokenize(b" \t\r\n\x0b\x0c").unwrap(), vec![]);
    assert_eq!(tokenize(b"-- only a comment").unwrap(), vec![]);
    assert_eq!(tokenize(b"/**/").unwrap(), vec![]);
}

#[test]
fn keywords_in_any_case() {
    let tokens = tokenize(b"SeLeCt select SELECT selects").unwrap();
    assert_eq!(tokens[0].kind, TokenKind::Keyword(Keyword::Select));
    assert_eq!(tokens[1].kind, TokenKind::Keyword(Keyword::Select));
    assert_eq!(tokens[2].kind, TokenKind::Keyword(Keyword::Select));
    assert_eq!(tokens[3].kind, TokenKind::Ident);
    assert_eq!(tokens.len(), 4);
}

#[test]
fn every_keyword_is_known() {
    let words = "all and as asc between by case cross default delete desc distinct else end \
                 except exists false from full group having in inner insert intersect into is \
                 join left like limit not null offset on or order outer over partition \
                 recursive right select set then true union update using values when where with";
    let tokens = tokenize(words.as_bytes()).unwrap();
    assert_eq!(tokens.len(), 53);
    for t in &tokens {
        assert!(matches!(t.kind, TokenKind::Keyword(_)), "{:?}", t);
    }
    assert_eq!(tokens[0].kind, TokenKind::Keyword(Keyword::All));
    assert_eq!(tokens[43].kind, TokenKind::Keyword(Keyword::SetKw));
    assert_eq!(tokens[52].kind, TokenKind::Keyword(Keyword::With));
}

#[test]
fn identifiers_and_marks() {
    assert_eq!(
        tokenize(b"a.b::int").unwrap(),
        vec![
            tok(TokenKind::Ident, 0, 1),
            tok(TokenKind::Symbol(Symbol::Dot), 1, 2),
            tok(TokenKind::Ident, 2, 3),
            tok(TokenKind::Symbol(Symbol::Cast), 3, 5),
            tok(TokenKind::Ident, 5, 8),
        ]
    );
    assert_eq!(tokenize(b"a1$b _x").unwrap(), vec![
        tok(TokenKind::Ident, 0, 4),
        tok(TokenKind::Ident, 5, 7),
    ]);
    assert_eq!(tokenize("\u{e9}t\u{e9}".as_bytes()).unwrap(), vec![tok(TokenKind::Ident, 0, 5)]);
}

#[test]
fn every_mark_is_known() {
    let kinds: Vec<TokenKind> = tokenize(b"( ) , ; . * + - / % ^ = <> != < <= > >= || ::")
        .unwrap()
        .iter()
        .map(|t| t.kind)
        .collect();
    let marks = [
        Symbol::LParen, Symbol::RParen, Symbol::Comma, Symbol::Semicolon, Symbol::Dot,
        Symbol::Star, Symbol::Plus, Symbol::Minus, Symbol::Slash, Symbol::Percent,
        Symbol::Caret, Symbol::Eq, Symbol::NotEq, Symbol::NotEq, Symbol::Lt, Symbol::LtEq,
        Symbol::Gt, Symbol::GtEq, Symbol::Concat, Symbol::Cast,
    ];
    let expected: Vec<TokenKind> = marks.iter().map(|m| TokenKind::Symbol(*m)).collect();
    assert_eq!(kinds, expected);
}

#[test]
fn marks_take_the_longest_match() {
    assert_eq!(tokenize(b"<=>").unwrap(), vec![
        tok(TokenKind::Symbol(Symbol::LtEq), 0, 2),
        tok(TokenKind::Symbol(Symbol::Gt), 2, 3),
    ]);
    assert_eq!(tokenize(b"<<>").unwrap(), vec![
        tok(TokenKind::Symbol(Symbol::Lt), 0, 1),
        tok(TokenKind::Symbol(Symbol::NotEq), 1, 3),
    ]);
}

#[test]
fn numbers_whole_and_floating() {
    assert_eq!(
        tokenize(b"1 1.5 .5 1e10 1.5E-3 1. 1e 1e+").unwrap(),
        vec![
            tok(TokenKind::Integer, 0, 1),
            tok(TokenKind::Float, 2, 5),
            tok(TokenKind::Float, 6, 8),
            tok(TokenKind::Float, 9, 13),
            tok(TokenKind::Float, 14, 20),
            tok(TokenKind::Float, 21, 23),
            tok(TokenKind::Integer, 24, 25),
            tok(TokenKind::Ident, 25, 26),
            tok(TokenKind::Integer, 27, 28),
            tok(TokenKind::Ident, 28, 29),
            tok(TokenKind::Symbol(Symbol::Plus), 29, 30),
        ]
    );
}

#[test]
fn strings_of_every_form() {
    assert_eq!(
        tokenize(b"'it''s' E'a\\'b' $$x$$ $t$ $ $t$").unwrap(),
        vec![
            tok(TokenKind::Str, 0, 7),
            tok(TokenKind::Str, 8, 15),
            tok(TokenKind::Str, 16, 21),
            tok(TokenKind::Str, 22, 31),
        ]
    );
}

#[test]
fn dollar_quote_closes_on_its_own_tag_only() {
    assert_eq!(
        tokenize(b"$a$ $b$ $$ $a$x").unwrap(),
        vec![tok(TokenKind::Str, 0, 14), tok(TokenKind::Ident, 14, 15)]
    );
}

#[test]
fn quoted_identifiers() {
    assert_eq!(tokenize(b"\"a\"\"b\" \"select\"").unwrap(), vec![
        tok(TokenKind::QuotedIdent, 0, 6),
        tok(TokenKind::QuotedIdent, 7, 15),
    ]);
}

#[test]
fn parameters_carry_their_index() {
    assert_eq!(tokenize(b"$1 $42").unwrap(), vec![
        tok(TokenKind::Param(1), 0, 2),
        tok(TokenKind::Param(42), 3, 6),
    ]);
    assert_eq!(
        tokenize(b"$4294967295").unwrap(),
        vec![tok(TokenKind::Param(4294967295), 0, 11)]
    );
    assert_eq!(
        tokenize(b"$0004").unwrap(),
        vec![tok(TokenKind::Param(4), 0, 5)]
    );
}

#[test]
fn comments_are_left_out_and_nest() {
    assert_eq!(
        tokenize(b"a /* x /* y */ z */ b -- c\nd").unwrap(),
        vec![
            tok(TokenKind::Ident, 0, 1),
            tok(TokenKind::Ident, 20, 21),
            tok(TokenKind::Ident, 27, 28),
        ]
    );
    assert_eq!(tokenize(b"1-- minus\n-2").unwrap(), vec![
        tok(TokenKind::Integer, 0, 1),
        tok(TokenKind::Symbol(Symbol::Minus), 10, 11),
        tok(TokenKind::Integer, 11, 12),
    ]);
}

#[test]
fn each_lexical_error_and_its_offset() {
    let err = |src: &[u8]| tokenize(src).unwrap_err();
    assert_eq!(err(b"'abc"), LexError { kind: LexErrorKind::UnterminatedString, offset: 0 });
    assert_eq!(err(b"a 'b''"), LexError { kind: LexErrorKind::UnterminatedString, offset: 2 });
    assert_eq!(err(b"E'abc"), LexError { kind: LexErrorKind::UnterminatedString, offset: 0 });
    assert_eq!(err(b"a \"bc"), LexError { kind: LexErrorKind::UnterminatedIdentifier, offset: 2 });
    assert_eq!(err(b"\"\""), LexError { kind: LexErrorKind::EmptyIdentifier, offset: 0 });
    assert_eq!(err(b"x /* a"), LexError { kind: LexErrorKind::UnterminatedComment, offset: 2 });
    assert_eq!(
        err(b"/* a /* b */"),
        LexError { kind: LexErrorKind::UnterminatedComment, offset: 0 }
    );
    assert_eq!(err(b"$a$ b"), LexError { kind: LexErrorKind::UnterminatedDollarQuote, offset: 0 });
    assert_eq!(err(b"$a$ b $A$"), LexError { kind: LexErrorKind::UnterminatedDollarQuote, offset: 0 });
    assert_eq!(err(b"E'\\q'"), LexError { kind: LexErrorKind::InvalidEscape, offset: 2 });
    assert_eq!(err(b"E'ab\\"), LexError { kind: LexErrorKind::InvalidEscape, offset: 4 });
    assert_eq!(err(b"a ? b"), LexError { kind: LexErrorKind::UnexpectedCharacter, offset: 2 });
    assert_eq!(err(b"$ a"), LexError { kind: LexErrorKind::UnexpectedCharacter, offset: 0 });
    assert_eq!(err(b"a | b"), LexError { kind: LexErrorKind::UnexpectedCharacter, offset: 2 });
    assert_eq!(err(b"a : b"), LexError { kind: LexErrorKind::UnexpectedCharacter, offset: 2 });
    assert_eq!(err(b"a\0b"), LexError { kind: LexErrorKind::UnexpectedCharacter, offset: 1 });
    assert_eq!(
        err(b"x $4294967296"),
        LexError { kind: LexErrorKind::ParameterOutOfRange, offset: 2 }
    );
    assert_eq!(
        err(b"$99999999999999999999999999"),
        LexError { kind: LexErrorKind::ParameterOutOfRange, offset: 0 }
    );
}

#[test]
fn escapes_that_are_known() {
    assert_eq!(
        tokenize(b"E'\\\\ \\' \\\" \\b \\f \\n \\r \\t \\x41 \\u0041 \\U00000041 \\101'").unwrap().len(),
        1
    );
}

#[test]
fn tokens_lie_in_order_and_apart() {
    let src = b"SELECT a, 'b' FROM t /* c */ WHERE $1 <> 2.5 -- d\n ORDER BY \"e\"";
    let tokens = tokenize(src).unwrap();
    assert_eq!(tokens.len(), 13);
    let mut last = 0;
    for t in &tokens {
        assert!(last <= t.start && t.start < t.end && t.end <= src.len());
        last = t.end;
    }
}
