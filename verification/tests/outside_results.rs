use pg_query_parser::foreign::{
    convert_query_error, fingerprint_outcome, non_zero_string, parse_outcome, PgQueryError,
    PgQueryFingerprintResult, PgQueryParseResult,
};
use pg_query_parser::outcome;

fn outside_error() -> PgQueryError {
    PgQueryError {
        message: "syntax error at or near \"FROM\"".to_string(),
        funcname: "scanner_yyerror".to_string(),
        filename: "scan.l".to_string(),
        lineno: 1087,
        cursorpos: 8,
        context: None,
    }
}

#[test]
fn empty_text_counts_as_none() {
    assert_eq!(non_zero_string(None), None);
    assert_eq!(non_zero_string(Some(String::new())), None);
    assert_eq!(non_zero_string(Some("a".to_string())), Some("a".to_string()));
    assert_eq!(non_zero_string(Some(" ".to_string())), Some(" ".to_string()));
}

#[test]
fn outside_error_keeps_message_position_and_context() {
    assert!(convert_query_error(None).is_none());
    let e = convert_query_error(Some(outside_error())).unwrap();
    assert_eq!(e.message, "syntax error at or near \"FROM\"");
    assert_eq!(e.cursorpos, 8);
    assert_eq!(e.line, 0);
    assert_eq!(e.column, 0);
    assert_eq!(e.context, None);
    assert_eq!(e.stage, None);
    let mut with_context = outside_error();
    with_context.context = Some("while parsing".to_string());
    with_context.cursorpos = -1;
    let e = convert_query_error(Some(with_context)).unwrap();
    assert_eq!(e.context, Some("while parsing".to_string()));
    assert_eq!(e.cursorpos, 0);
}

#[test]
fn a_tree_alone_is_success() {
    let r = parse_outcome(PgQueryParseResult {
        parse_tree: Some("[{}]".to_string()),
        stderr_buffer: None,
        error: None,
    });
    assert_eq!(r.unwrap(), "[{}]");
    let r = parse_outcome(PgQueryParseResult {
        parse_tree: Some("[{}]".to_string()),
        stderr_buffer: Some(String::new()),
        error: None,
    });
    assert_eq!(r.unwrap(), "[{}]");
}

#[test]
fn nothing_at_all_is_the_empty_text() {
    let r = parse_outcome(PgQueryParseResult { parse_tree: None, stderr_buffer: None, error: None });
    assert_eq!(r.unwrap(), "");
    let r = fingerprint_outcome(PgQueryFingerprintResult {
        hexdigest: Some(String::new()),
        stderr_buffer: None,
        error: None,
    });
    assert_eq!(r.unwrap(), "");
}

#[test]
fn an_error_is_failure_even_with_a_tree() {
    let r = parse_outcome(PgQueryParseResult {
        parse_tree: Some("[{}]".to_string()),
        stderr_buffer: None,
        error: Some(outside_error()),
    });
    let errors = r.unwrap_err();
    assert_eq!(errors.query_error.unwrap().cursorpos, 8);
    assert!(errors.stderr_buffer.is_none());
}

#[test]
fn a_log_entry_is_failure_even_without_an_error() {
    let r = fingerprint_outcome(PgQueryFingerprintResult {
        hexdigest: Some("02a281c251c3a43d2fe7457dff01f76c5cc523f8c8".to_string()),
        stderr_buffer: Some("WARNING: something".to_string()),
        error: None,
    });
    let errors = r.unwrap_err();
    assert!(errors.query_error.is_none());
    assert_eq!(errors.stderr_buffer.unwrap(), "WARNING: something");
}

#[test]
fn a_digest_alone_is_success() {
    let r = fingerprint_outcome(PgQueryFingerprintResult {
        hexdigest: Some("02a281c251c3a43d2fe7457dff01f76c5cc523f8c8".to_string()),
        stderr_buffer: None,
        error: None,
    });
    assert_eq!(r.unwrap(), "02a281c251c3a43d2fe7457dff01f76c5cc523f8c8");
}

#[test]
fn outcome_of_the_three_parts() {
    assert_eq!(outcome(Some("t".to_string()), None, None).unwrap(), "t");
    assert_eq!(outcome(None, None, None).unwrap(), "");
    let e = outcome(Some("t".to_string()), None, Some("log".to_string())).unwrap_err();
    assert!(e.query_error.is_none());
    assert_eq!(e.stderr_buffer.unwrap(), "log");
    let e = outcome(None, convert_query_error(Some(outside_error())), Some("log".to_string()))
        .unwrap_err();
    assert_eq!(e.query_error.unwrap().message, "syntax error at or near \"FROM\"");
    assert_eq!(e.stderr_buffer.unwrap(), "log");
}
