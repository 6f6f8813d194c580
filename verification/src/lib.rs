//! A SQL lexer, parser and query fingerprinter with machine-checked contracts.
//!
//! `parse` turns the text of a query into a `ParseTree`; `fingerprint` gives
//! the digest of a query's shape, which does not change with the values of
//! its constants. Both are functions of the text alone: they keep no state
//! and touch nothing outside their arguments.
//!
//! The way of a text through the library:
//!
//! - `lexer` splits the bytes into tokens (`token`), or finds the first
//!   lexical error;
//! - `grammar` says, as specification functions, which tree a sequence of
//!   tokens has; `parser` and `statements` build that tree and are proved to
//!   build exactly it;
//! - `tree` holds the tree, flat and in post-order; `walk` goes from a node
//!   to its children;
//! - `fingerprint` writes the canonical form of a tree and `sha1` digests
//!   it;
//! - `error` gives errors their place in the text; `report` and `render`
//!   put errors and trees in text for the string interface,
//!   `pg_query_parse` and `pg_fingerprint`;
//! - `foreign` decides what a caller is handed for the result of an
//!   outside parser;
//! - `laws` holds what is proved of all this together.
//!
//! What this library takes to be SQL is a fixed part of the PostgreSQL
//! dialect, which the module `grammar` writes out. Its keywords are
//! reserved. Constructs nest at most `grammar::MAX_DEPTH` deep. Nothing is
//! looked up in a catalog, and no query is run.
//!
//! In fingerprints, aliases count as names do: two queries that differ in
//! an alias differ in their fingerprints. Constants of every form and
//! parameter placeholders do not count at all.

pub mod error;
pub mod fingerprint;
pub mod foreign;
pub mod grammar;
pub mod laws;
pub mod lexer;
pub mod parser;
pub mod render;
pub mod report;
pub mod sha1;
pub mod statements;
pub mod token;
pub mod tree;
pub mod walk;

use crate::error::{
    lexical_error, lexical_failure, locate, located, syntax_error, syntax_failure, Cause,
    QueryError,
};
use crate::fingerprint::{
    canonical, canonical_bytes, fingerprint_string, fingerprint_text, names_of,
};
use crate::grammar::{statements_ok, statements_read, tree_of};
use crate::lexer::{lex, tokenize, well_spaced};
use crate::render::{table, table_chars};
pub use crate::report::{outcome, ParseErrors, PgQueryError};
use crate::sha1::digest;
use crate::statements::{parse_tokens, parse_tokens_keeping};
use crate::token::{classes, Token};
use crate::tree::{forest_ok, Node};
use crate::walk::{children, children_of, roots, statements_of};
use vstd::prelude::*;
use vstd::slice::{slice_subrange, slice_to_vec};
use vstd::string::StringSliceAdditionalSpecFns;

verus! {

/// A parsed query: the source, its tokens, and the nodes of its statements
/// in post-order. Nodes name tokens by index and tokens name bytes of the
/// source by offset, so the tree holds the place of everything in it.
#[derive(Debug)]
pub struct ParseTree {
    pub source: Vec<u8>,
    pub tokens: Vec<Token>,
    pub nodes: Vec<Node>,
}

/// The tokens and nodes of a source text, or its first error.
pub open spec fn analysis(src: Seq<u8>) -> Result<(Seq<Token>, Seq<Node>), QueryError> {
    match lex(src) {
        Err(e) => Err(lexical_failure(src, e)),
        Ok(tokens) => match tree_of(classes(tokens)) {
            Err(e) => Err(syntax_failure(src, tokens, e)),
            Ok(nodes) => Ok((tokens, nodes)),
        },
    }
}

/// The bytes of the source that token `i` covers; none for an index that
/// names no token of the source.
pub open spec fn token_bytes(src: Seq<u8>, tokens: Seq<Token>, i: int) -> Seq<u8> {
    if 0 <= i < tokens.len() && tokens[i].start <= tokens[i].end <= src.len() {
        src.subrange(tokens[i].start as int, tokens[i].end as int)
    } else {
        Seq::empty()
    }
}

/// The fingerprint of a tree; an error where the tree has no statement.
pub open spec fn tree_fingerprint(
    src: Seq<u8>,
    tokens: Seq<Token>,
    nodes: Seq<Node>,
) -> Result<Seq<char>, QueryError> {
    if nodes.len() == 0 {
        Err(located(src, Cause::EmptyInput, 0))
    } else {
        Ok(fingerprint_text(canonical(names_of(src, tokens), nodes, nodes.len())))
    }
}

/// Whether an outcome is the one that the specification names: the text
/// itself, or the error.
pub open spec fn is_text(r: Result<String, QueryError>, s: Result<Seq<char>, QueryError>) -> bool {
    match s {
        Ok(text) => r matches Ok(t) && t@ == text,
        Err(e) => r matches Err(x) && x == e,
    }
}

/// The fingerprint of a source text, or its first error.
pub open spec fn fingerprint_of(src: Seq<u8>) -> Result<Seq<char>, QueryError> {
    match analysis(src) {
        Err(e) => Err(e),
        Ok((tokens, nodes)) => tree_fingerprint(src, tokens, nodes),
    }
}

impl ParseTree {
    /// Whether this is the tree of its source.
    pub open spec fn wf(&self) -> bool {
        analysis(self.source@) == Ok::<(Seq<Token>, Seq<Node>), QueryError>(
            (self.tokens@, self.nodes@),
        )
    }

    /// The fingerprint of the tree. It fails on a tree without statements,
    /// and on no other.
    pub fn fingerprint(&self) -> (r: Result<String, QueryError>)
        ensures
            is_text(r, tree_fingerprint(self.source@, self.tokens@, self.nodes@)),
    {
        if self.nodes.len() == 0 {
            return Err(locate(self.source.as_slice(), Cause::EmptyInput, 0));
        }
        let canon = canonical_bytes(self.source.as_slice(), &self.tokens, &self.nodes);
        let sum = digest(canon.as_slice());
        Ok(fingerprint_string(&sum))
    }

    /// The canonical form of the tree: what its fingerprint is the digest
    /// of.
    pub fn canonical(&self) -> (bytes: Vec<u8>)
        ensures
            bytes@ == canonical(names_of(self.source@, self.tokens@), self.nodes@, self.nodes@.len()),
    {
        canonical_bytes(self.source.as_slice(), &self.tokens, &self.nodes)
    }

    /// Whether two trees are the same but for what a fingerprint leaves
    /// out: the values of constants, the indexes of parameters, the layout
    /// and the case of unquoted names.
    pub fn same_shape(&self, other: &ParseTree) -> (same: bool)
        ensures
            same == (canonical(
                names_of(self.source@, self.tokens@),
                self.nodes@,
                self.nodes@.len(),
            ) == canonical(
                names_of(other.source@, other.tokens@),
                other.nodes@,
                other.nodes@.len(),
            )),
    {
        let a = self.canonical();
        let b = other.canonical();
        if a.len() != b.len() {
            return false;
        }
        let mut i: usize = 0;
        while i < a.len()
            invariant
                i <= a.len(),
                a@.len() == b@.len(),
                a@.subrange(0, i as int) == b@.subrange(0, i as int),
                a@ == canonical(
                    names_of(self.source@, self.tokens@),
                    self.nodes@,
                    self.nodes@.len(),
                ),
                b@ == canonical(
                    names_of(other.source@, other.tokens@),
                    other.nodes@,
                    other.nodes@.len(),
                ),
            decreases a.len() - i,
        {
            if a[i] != b[i] {
                assert(a@[i as int] != b@[i as int]);
                return false;
            }
            assert(a@.subrange(0, i + 1) =~= a@.subrange(0, i as int).push(a@[i as int]));
            assert(b@.subrange(0, i + 1) =~= b@.subrange(0, i as int).push(b@[i as int]));
            i += 1;
        }
        assert(a@ =~= a@.subrange(0, a@.len() as int));
        assert(b@ =~= b@.subrange(0, b@.len() as int));
        true
    }

    /// The text of the token at `i` as it stands in the source; nothing
    /// for an index that names no token of the source.
    pub fn token_text(&self, i: usize) -> (text: Vec<u8>)
        ensures
            text@ == token_bytes(self.source@, self.tokens@, i as int),
    {
        if i < self.tokens.len() && self.tokens[i].start <= self.tokens[i].end
            && self.tokens[i].end <= self.source.len() {
            slice_to_vec(
                slice_subrange(self.source.as_slice(), self.tokens[i].start, self.tokens[i].end),
            )
        } else {
            Vec::new()
        }
    }

    /// The children of the node at `i`, in source order.
    pub fn children(&self, i: usize) -> (out: Vec<usize>)
        ensures
            out@ == children_of(self.nodes@, i as int),
    {
        children(&self.nodes, i)
    }

    /// The statements of the tree: the indexes of the nodes that close
    /// them, in source order.
    pub fn statements(&self) -> (out: Vec<usize>)
        ensures
            out@ == statements_of(self.nodes@),
    {
        roots(&self.nodes, 0, self.nodes.len())
    }

    /// The tree as a table: a row for each node, in post-order.
    pub fn serialize(&self) -> (s: String)
        ensures
            s@ == table_chars(self.tokens@, self.nodes@, self.nodes@.len()),
    {
        table(&self.tokens, &self.nodes)
    }
}

/// Parses the text of a query.
///
/// The result is exactly `analysis` of the text's bytes: the tree, or the
/// first error with its place. A tree is the tree of its source; its
/// tokens lie in the source in order; each of its nodes closes a subtree
/// whose tokens lie inside its own; and it is a row of statements, each of
/// the kind that its first token announces. The empty text, and one of
/// white space and comments, has the tree without statements. An error
/// lies inside the text or at its end.
pub fn parse(query: &str) -> (r: Result<ParseTree, QueryError>)
    ensures
        match analysis(query.spec_bytes()) {
            Ok((tokens, nodes)) => r matches Ok(tree) && tree.source@ == query.spec_bytes()
                && tree.tokens@ == tokens && tree.nodes@ == nodes,
            Err(e) => r matches Err(x) && x == e,
        },
        r matches Ok(tree) ==> tree.wf() && well_spaced(tree.tokens@, tree.source@.len())
            && forest_ok(tree.nodes@, tree.tokens@.len()) && statements_ok(
            tree.nodes@,
            classes(tree.tokens@),
            tree.nodes@.len() as int,
        ),
        r matches Err(e) ==> e.offset <= query.spec_bytes().len(),
{
    let src = query.as_bytes();
    let tokens = match tokenize(src) {
        Ok(tokens) => tokens,
        Err(e) => {
            return Err(lexical_error(src, e));
        },
    };
    let nodes = match parse_tokens(&tokens) {
        Ok(nodes) => nodes,
        Err(e) => {
            return Err(syntax_error(src, &tokens, e));
        },
    };
    Ok(ParseTree { source: slice_to_vec(src), tokens, nodes })
}

/// What is known of a text that has no tree: its error, and the tree of
/// the statements that were read before the error.
#[derive(Debug)]
pub struct Failure {
    pub error: QueryError,
    pub parsed: ParseTree,
}

/// The tokens and the nodes that are read of a text before its first
/// error: neither where the text is no sequence of tokens; else all
/// tokens, and the nodes of the statements before the error.
pub open spec fn read_before_error(src: Seq<u8>) -> (Seq<Token>, Seq<Node>) {
    match lex(src) {
        Err(_) => (Seq::empty(), Seq::empty()),
        Ok(tokens) => (tokens, statements_read(classes(tokens), 0, Seq::empty())),
    }
}

/// Parses the text of a query and keeps, where it fails, what was read
/// before the error.
///
/// Success and failure are those of `parse`, with the same tree and the
/// same error. A failure holds, beside the error, the tree of the
/// statements that were read before it, for a caller to show: exactly
/// `read_before_error` of the text's bytes. That tree is a row of whole
/// statements like any other.
pub fn diagnose(query: &str) -> (r: Result<ParseTree, Failure>)
    ensures
        match analysis(query.spec_bytes()) {
            Ok((tokens, nodes)) => r matches Ok(tree) && tree.source@ == query.spec_bytes()
                && tree.tokens@ == tokens && tree.nodes@ == nodes,
            Err(e) => r matches Err(f) && f.error == e && f.parsed.source@ == query.spec_bytes()
                && (f.parsed.tokens@, f.parsed.nodes@) == read_before_error(query.spec_bytes()),
        },
        r matches Ok(tree) ==> tree.wf() && well_spaced(tree.tokens@, tree.source@.len())
            && forest_ok(tree.nodes@, tree.tokens@.len()) && statements_ok(
            tree.nodes@,
            classes(tree.tokens@),
            tree.nodes@.len() as int,
        ),
        r matches Err(f) ==> f.error.offset <= query.spec_bytes().len() && well_spaced(
            f.parsed.tokens@,
            f.parsed.source@.len(),
        ) && forest_ok(f.parsed.nodes@, f.parsed.tokens@.len()) && statements_ok(
            f.parsed.nodes@,
            classes(f.parsed.tokens@),
            f.parsed.nodes@.len() as int,
        ),
{
    let src = query.as_bytes();
    let tokens = match tokenize(src) {
        Ok(tokens) => tokens,
        Err(e) => {
            let parsed = ParseTree {
                source: slice_to_vec(src),
                tokens: Vec::new(),
                nodes: Vec::new(),
            };
            return Err(Failure { error: lexical_error(src, e), parsed });
        },
    };
    let (nodes, failed) = parse_tokens_keeping(&tokens);
    match failed {
        None => Ok(ParseTree { source: slice_to_vec(src), tokens, nodes }),
        Some(e) => {
            let error = syntax_error(src, &tokens, e);
            Err(Failure { error, parsed: ParseTree { source: slice_to_vec(src), tokens, nodes } })
        },
    }
}

/// The fingerprint of the text of a query.
///
/// The result is exactly `fingerprint_of` of the text's bytes: an error of
/// the text comes out as `parse` gives it, a text without statements has
/// the error `EmptyInput`, and every other text has its fingerprint.
pub fn fingerprint(query: &str) -> (r: Result<String, QueryError>)
    ensures
        is_text(r, fingerprint_of(query.spec_bytes())),
{
    match parse(query) {
        Ok(tree) => tree.fingerprint(),
        Err(e) => Err(e),
    }
}

/// Parses the text of a query and writes its tree out as a table.
///
/// Success and failure are those of `parse`. On success the text is the
/// table of the tree, which is empty for a query without statements. On
/// failure the error is the one of `parse`, put in text with the line of
/// the query in which it lies, and the diagnostic log is absent: this
/// parser writes none.
pub fn pg_query_parse(input: &str) -> (r: Result<String, ParseErrors>)
    ensures
        match analysis(input.spec_bytes()) {
            Ok((tokens, nodes)) => r matches Ok(s) && s@ == table_chars(tokens, nodes, nodes.len()),
            Err(e) => r matches Err(errors) && errors.stderr_buffer is None && (
            errors.query_error matches Some(q) && q.reports(e, input.spec_bytes())),
        },
{
    match parse(input) {
        Ok(tree) => outcome(Some(tree.serialize()), None, None),
        Err(e) => outcome(None, Some(PgQueryError::from_query_error(e, input)), None),
    }
}

/// The fingerprint of the text of a query.
///
/// Success and failure are those of `fingerprint`. On failure the error is
/// the one of `fingerprint`, put in text, and the diagnostic log is absent.
pub fn pg_fingerprint(input: &str) -> (r: Result<String, ParseErrors>)
    ensures
        match fingerprint_of(input.spec_bytes()) {
            Ok(text) => r matches Ok(s) && s@ == text,
            Err(e) => r matches Err(errors) && errors.stderr_buffer is None && (
            errors.query_error matches Some(q) && q.reports(e, input.spec_bytes())),
        },
{
    match fingerprint(input) {
        Ok(text) => outcome(Some(text), None, None),
        Err(e) => outcome(None, Some(PgQueryError::from_query_error(e, input)), None),
    }
}

} // verus!
