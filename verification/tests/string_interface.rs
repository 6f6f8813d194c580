use pg_query_parser::{pg_fingerprint, pg_query_parse, ParseErrors};

#[test]
fn parse_query_valid() {
    let result = pg_query_parse("SELECT 1");

    match result {
        Ok(parsed) => println!("{:?}", parsed),
        Err(ParseErrors {
            query_error,
            stderr_buffer,
        }) => panic!(
            "query_error: {:?}, stderr_buffer: {:?}",
            query_error, stderr_buffer
        ),
    }
}

#[test]
fn parse_query_invalid() {
    let result = pg_query_parse("INSERT FROM DOES NOT WORK");

    match result {
        Ok(parsed) => panic!("got unexpected result {:?}", parsed),
        Err(ParseErrors {
            query_error,
            stderr_buffer,
        }) => println!(
            "query_error: {:?}, stderr_buffer: {:?}",
            query_error, stderr_buffer
        ),
    }
}

#[test]
fn fingerprint_query_valid() {
    let result = pg_fingerprint("SELECT 1");

    match result {
        Ok(fingerprint) => {
            assert_eq!("02a281c251c3a43d2fe7457dff01f76c5cc523f8c8", fingerprint)
        }
        Err(ParseErrors {
            query_error,
            stderr_buffer,
        }) => panic!(
            "query_error: {:?}, stderr_buffer: {:?}",
            query_error, stderr_buffer
        ),
    }
}

#[test]
fn fingerprint_query_invalid() {
    let result = pg_fingerprint("INSERT FROM DOES NOT WORK");

    match result {
        Ok(parsed) => panic!("got unexpected result {:?}", parsed),
        Err(ParseErrors {
            query_error,
            stderr_buffer,
        }) => println!(
            "query_error: {:?}, stderr_buffer: {:?}",
            query_error, stderr_buffer
        ),
    }
}

#[test]
fn parse_writes_one_row_for_each_node() {
    let table = pg_query_parse("SELECT 1").unwrap();
    assert_eq!(
        table,
        "A_Const 7 8 0\nResTarget 7 8 0\ntargetList 7 8 0\nSelectStmt 0 8 0\nRawStmt 0 8 0\n"
    );
}

#[test]
fn parse_table_counts_subtrees_from_their_first_node() {
    let table = pg_query_parse("SELECT a, 12 FROM t").unwrap();
    assert_eq!(
        table,
        "String 7 8 0\nColumnRef 7 8 0\nResTarget 7 8 0\nA_Const 10 12 3\nResTarget 10 12 3\n\
         targetList 7 12 0\nString 18 19 6\nRangeVar 18 19 6\nfromClause 13 19 6\n\
         SelectStmt 0 19 0\nRawStmt 0 19 0\n"
    );
}

#[test]
fn parse_of_nothing_is_the_empty_table() {
    assert_eq!(pg_query_parse("").unwrap(), "");
    assert_eq!(pg_query_parse("  -- nothing here\n ;; ").unwrap(), "");
}

#[test]
fn parse_failure_carries_message_place_and_context() {
    let errors = pg_query_parse("INSERT FROM DOES NOT WORK").unwrap_err();
    assert!(errors.stderr_buffer.is_none());
    let error = errors.query_error.unwrap();
    assert_eq!(error.message, "syntax error: found FROM, expected INTO");
    assert_eq!(error.cursorpos, 8);
    assert_eq!(error.line, 1);
    assert_eq!(error.column, 8);
    assert_eq!(error.context.unwrap(), "INSERT FROM DOES NOT WORK");
    assert_eq!(error.stage, Some(pg_query_parser::error::Stage::Parser));
}

#[test]
fn parse_failure_is_the_same_every_time() {
    let first = pg_query_parse("INSERT FROM DOES NOT WORK").unwrap_err();
    let second = pg_query_parse("INSERT FROM DOES NOT WORK").unwrap_err();
    let a = first.query_error.unwrap();
    let b = second.query_error.unwrap();
    assert_eq!(a.message, b.message);
    assert_eq!(a.cursorpos, b.cursorpos);
    assert_eq!(a.line, b.line);
    assert_eq!(a.column, b.column);
    assert_eq!(a.context, b.context);
}

#[test]
fn lexical_failure_has_its_line_as_context() {
    let errors = pg_query_parse("SELECT 1,\n  'abc\nFROM t").unwrap_err();
    let error = errors.query_error.unwrap();
    assert_eq!(error.message, "unterminated quoted string");
    assert_eq!(error.cursorpos, 13);
    assert_eq!((error.line, error.column), (2, 3));
    assert_eq!(error.context.unwrap(), "  'abc");
    assert_eq!(error.stage, Some(pg_query_parser::error::Stage::Lexer));
}

#[test]
fn fingerprint_of_nothing_fails() {
    let errors = pg_fingerprint("").unwrap_err();
    let error = errors.query_error.unwrap();
    assert_eq!(error.message, "no statement in input");
    assert!(error.context.is_none());
    assert_eq!(error.cursorpos, 1);
    assert_eq!(error.line, 1);
    assert_eq!(error.column, 1);
    assert_eq!(error.stage, Some(pg_query_parser::error::Stage::Fingerprinter));
}

#[test]
fn message_of_each_lexical_error() {
    let message = |q: &str| pg_query_parse(q).unwrap_err().query_error.unwrap().message;
    assert_eq!(message("SELECT ?"), "unexpected character");
    assert_eq!(message("SELECT 'a"), "unterminated quoted string");
    assert_eq!(message("SELECT \"a"), "unterminated quoted identifier");
    assert_eq!(message("SELECT \"\""), "zero-length quoted identifier");
    assert_eq!(message("SELECT $x$ a"), "unterminated dollar-quoted string");
    assert_eq!(message("SELECT /* a"), "unterminated comment");
    assert_eq!(message("SELECT E'\\q'"), "invalid escape sequence");
    assert_eq!(message("SELECT $4294967296"), "parameter number out of range");
}

#[test]
fn message_of_deep_nesting() {
    let mut q = String::from("SELECT ");
    for _ in 0..200 {
        q.push('(');
    }
    q.push('1');
    for _ in 0..200 {
        q.push(')');
    }
    let error = pg_query_parse(&q).unwrap_err().query_error.unwrap();
    assert_eq!(error.message, "statement nests too deeply");
    assert_eq!(error.context.unwrap(), q);
}

#[test]
fn context_is_the_line_of_the_error() {
    let context = |q: &str| pg_query_parse(q).unwrap_err().query_error.unwrap().context.unwrap();
    assert_eq!(context("SELECT a\nFROM\nWHERE b"), "WHERE b");
    assert_eq!(context("SELECT a\nFROM t WHERE\n"), "");
    assert_eq!(context("SELECT a FROM t WHERE"), "SELECT a FROM t WHERE");
    assert_eq!(context("SELECT a\n\nFROM 1\n\n"), "FROM 1");
    assert_eq!(context("SELECT 'caf\u{e9}'\nFROM \u{e9}t\u{e9} WHERE ?"), "FROM \u{e9}t\u{e9} WHERE ?");
    assert_eq!(context("\u{1f600}\n\u{1f600} ?"), "\u{1f600} ?");
}

#[test]
fn message_names_what_was_found_and_expected() {
    let message = |q: &str| pg_query_parse(q).unwrap_err().query_error.unwrap().message;
    assert_eq!(message("SELECT"), "syntax error: found end of input, expected expression");
    assert_eq!(message("SELECT (1"), "syntax error: found end of input, expected )");
    assert_eq!(message("SELECT 1 2"), "syntax error: found constant, expected ; or end of input");
    assert_eq!(message("SELECT * FROM 1"), "syntax error: found constant, expected identifier");
    assert_eq!(message("FROM t"), "syntax error: found FROM, expected statement");
    assert_eq!(message("SELECT 1 UNION 2"), "syntax error: found constant, expected query");
    assert_eq!(message("SELECT a IS b"), "syntax error: found identifier, expected NULL, TRUE or FALSE");
    assert_eq!(message("SELECT * FROM a JOIN b"), "syntax error: found end of input, expected ON or USING");
    assert_eq!(message("SELECT a >= <= b"), "syntax error: found <=, expected expression");
}
