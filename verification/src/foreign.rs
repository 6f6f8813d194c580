//! The results of an outside parser, as plain values, and what a caller is
//! handed for them.
//!
//! An outside parser reports a text, an error and a diagnostic log, each of
//! which may be absent. The functions here decide, as the library does for
//! its own results, what the caller gets: an absent or empty text counts
//! as none, and an error or a log entry makes the call a failure.

use crate::report::{outcome, ParseErrors};
use vstd::prelude::*;

verus! {

/// An error as an outside parser reports it. `funcname`, `filename` and
/// `lineno` name the place in the outside parser's own source that raised
/// the error; `cursorpos` is the position in the query, counted from one,
/// or zero.
#[derive(Debug)]
pub struct PgQueryError {
    pub message: String,
    pub funcname: String,
    pub filename: String,
    pub lineno: i32,
    pub cursorpos: i32,
    pub context: Option<String>,
}

/// What an outside parser hands back for a query.
#[derive(Debug)]
pub struct PgQueryParseResult {
    pub parse_tree: Option<String>,
    pub stderr_buffer: Option<String>,
    pub error: Option<PgQueryError>,
}

/// What an outside fingerprinter hands back for a query.
#[derive(Debug)]
pub struct PgQueryFingerprintResult {
    pub hexdigest: Option<String>,
    pub stderr_buffer: Option<String>,
    pub error: Option<PgQueryError>,
}

/// A text that is there and not empty.
pub open spec fn filled(buf: Option<String>) -> Option<String> {
    match buf {
        Some(s) => if s@.len() == 0 {
            None
        } else {
            Some(s)
        },
        None => None,
    }
}

/// The position of an outside error as the library counts it: zero where
/// the outside parser gave none.
pub open spec fn position(cursorpos: i32) -> usize {
    if cursorpos > 0 {
        cursorpos as usize
    } else {
        0
    }
}

/// An outside error as an error of the library: the message, the position
/// in the query and the context are kept; what names the outside parser's
/// own source is dropped; line, column and stage are not known.
pub open spec fn converted(error: Option<PgQueryError>) -> Option<crate::report::PgQueryError> {
    match error {
        Some(e) => Some(
            crate::report::PgQueryError {
                message: e.message,
                cursorpos: position(e.cursorpos),
                line: 0,
                column: 0,
                context: e.context,
                stage: None,
            },
        ),
        None => None,
    }
}

/// What the caller is handed for a text, an error and a log from outside.
pub open spec fn handed(
    text: Option<String>,
    error: Option<PgQueryError>,
    log: Option<String>,
    r: Result<String, ParseErrors>,
) -> bool {
    if error is Some || filled(log) is Some {
        r == Err::<String, ParseErrors>(
            ParseErrors { query_error: converted(error), stderr_buffer: filled(log) },
        )
    } else {
        match filled(text) {
            Some(s) => r == Ok::<String, ParseErrors>(s),
            None => r matches Ok(s) && s@.len() == 0,
        }
    }
}

/// Keeps a text that is there and not empty.
pub fn non_zero_string(buf: Option<String>) -> (r: Option<String>)
    ensures
        r == filled(buf),
{
    match buf {
        Some(s) => if s.as_str().is_empty() {
            None
        } else {
            Some(s)
        },
        None => None,
    }
}

/// Turns an outside error into an error of the library.
pub fn convert_query_error(error: Option<PgQueryError>) -> (r: Option<crate::report::PgQueryError>)
    ensures
        r == converted(error),
{
    match error {
        Some(e) => {
            let cursorpos: usize = if e.cursorpos > 0 {
                e.cursorpos as usize
            } else {
                0
            };
            Some(
                crate::report::PgQueryError {
                    message: e.message,
                    cursorpos,
                    line: 0,
                    column: 0,
                    context: e.context,
                    stage: None,
                },
            )
        },
        None => None,
    }
}

/// What the caller is handed for the result of an outside parser.
pub fn parse_outcome(result: PgQueryParseResult) -> (r: Result<String, ParseErrors>)
    ensures
        handed(result.parse_tree, result.error, result.stderr_buffer, r),
{
    let parse_tree = non_zero_string(result.parse_tree);
    let query_error = convert_query_error(result.error);
    let stderr_buffer = non_zero_string(result.stderr_buffer);
    outcome(parse_tree, query_error, stderr_buffer)
}

/// What the caller is handed for the result of an outside fingerprinter.
pub fn fingerprint_outcome(result: PgQueryFingerprintResult) -> (r: Result<String, ParseErrors>)
    ensures
        handed(result.hexdigest, result.error, result.stderr_buffer, r),
{
    let fingerprint = non_zero_string(result.hexdigest);
    let query_error = convert_query_error(result.error);
    let stderr_buffer = non_zero_string(result.stderr_buffer);
    outcome(fingerprint, query_error, stderr_buffer)
}

} // verus!
