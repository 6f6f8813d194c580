//! Statements: the top of the grammar, and the parser's entry.

use crate::grammar::{
    delete_stmt, insert_stmt, lemma_statements_kept, peek, statement, statement_kind,
    statements, statements_ok, statements_read, tree_of, update_stmt, Expected, Item,
    SyntaxError, MAX_DEPTH,
};
use crate::parser::{
    at_mark, at_word, class_at, parse_expr_clause, parse_list_clause, parse_name_list,
    parse_relation, parse_select_stmt, push_wrap, query_starts, reads, unexpected_at,
};
use crate::token::{classes, Keyword, Symbol, TokClass, Token};
use crate::tree::{
    closed, forest_ok, grown, lemma_grown_forest, lemma_grown_keeps, Node, NodeKind,
};
use vstd::prelude::*;

verus! {

broadcast use {crate::tree::lemma_shape_same, crate::tree::lemma_reach_none};

#[verifier::rlimit(50)]
fn parse_insert(
    toks: &Vec<Token>,
    pos: usize,
    depth: usize,
    out: &mut Vec<Node>,
    Ghost(origin): Ghost<Seq<Node>>,
    Ghost(lo): Ghost<int>,
) -> (r: Result<usize, SyntaxError>)
    requires
        lo <= pos < toks.len(),
        grown(origin, old(out)@, lo, pos as int),
    ensures
        reads(
            r,
            final(out)@,
            insert_stmt(classes(toks@), pos as int, depth as nat, old(out)@),
            origin,
            lo,
            pos as int,
            toks.len() as int,
        ),
        r matches Ok(p) ==> pos < p && closed(
            old(out)@,
            final(out)@,
            NodeKind::InsertStmt,
            pos as int,
            p as int,
        ),
{
    proof {
        reveal(insert_stmt);
    }
    if !at_word(toks, pos, 1, Keyword::Into) {
        return Err(unexpected_at(pos + 1, Expected::Word(Keyword::Into)));
    }
    let ghost o_in = out@;
    let base = out.len();
    let p1 = parse_relation(toks, pos + 2, out, false, Ghost(o_in), Ghost(pos as int))?;
    let p2: usize = if at_mark(toks, p1, 0, Symbol::LParen) {
        parse_name_list(toks, p1, out, NodeKind::ColumnList, Ghost(o_in), Ghost(pos as int))?
    } else {
        p1
    };
    if at_word(toks, p2, 0, Keyword::Default) {
        if !at_word(toks, p2, 1, Keyword::Values) {
            return Err(unexpected_at(p2 + 1, Expected::Word(Keyword::Values)));
        }
        let ghost o2 = out@;
        let mark = out.len();
        push_wrap(
            out,
            NodeKind::DefaultValues,
            p2,
            p2 + 2,
            mark,
            Ghost(o2),
            Ghost(o_in),
            Ghost(pos as int),
        );
        push_wrap(
            out,
            NodeKind::InsertStmt,
            pos,
            p2 + 2,
            base,
            Ghost(o_in),
            Ghost(origin),
            Ghost(lo),
        );
        Ok(p2 + 2)
    } else {
        let p3 = parse_select_stmt(toks, p2, depth, out, Ghost(o_in), Ghost(pos as int))?;
        push_wrap(out, NodeKind::InsertStmt, pos, p3, base, Ghost(o_in), Ghost(origin), Ghost(lo));
        Ok(p3)
    }
}

#[verifier::rlimit(50)]
fn parse_update(
    toks: &Vec<Token>,
    pos: usize,
    depth: usize,
    out: &mut Vec<Node>,
    Ghost(origin): Ghost<Seq<Node>>,
    Ghost(lo): Ghost<int>,
) -> (r: Result<usize, SyntaxError>)
    requires
        lo <= pos < toks.len(),
        grown(origin, old(out)@, lo, pos as int),
    ensures
        reads(
            r,
            final(out)@,
            update_stmt(classes(toks@), pos as int, depth as nat, old(out)@),
            origin,
            lo,
            pos as int,
            toks.len() as int,
        ),
        r matches Ok(p) ==> pos < p && closed(
            old(out)@,
            final(out)@,
            NodeKind::UpdateStmt,
            pos as int,
            p as int,
        ),
{
    proof {
        reveal(update_stmt);
    }
    let ghost o_in = out@;
    let base = out.len();
    let p1 = parse_relation(toks, pos + 1, out, true, Ghost(o_in), Ghost(pos as int))?;
    if !at_word(toks, p1, 0, Keyword::SetKw) {
        return Err(unexpected_at(p1, Expected::Word(Keyword::SetKw)));
    }
    let p2 = parse_list_clause(
        toks,
        p1,
        depth,
        out,
        Keyword::SetKw,
        false,
        Item::Assignment,
        NodeKind::SetClause,
        Ghost(o_in),
        Ghost(pos as int),
    )?;
    let p3 = parse_expr_clause(
        toks,
        p2,
        depth,
        out,
        Keyword::Where,
        NodeKind::WhereClause,
        Ghost(o_in),
        Ghost(pos as int),
    )?;
    push_wrap(out, NodeKind::UpdateStmt, pos, p3, base, Ghost(o_in), Ghost(origin), Ghost(lo));
    Ok(p3)
}

#[verifier::rlimit(50)]
fn parse_delete(
    toks: &Vec<Token>,
    pos: usize,
    depth: usize,
    out: &mut Vec<Node>,
    Ghost(origin): Ghost<Seq<Node>>,
    Ghost(lo): Ghost<int>,
) -> (r: Result<usize, SyntaxError>)
    requires
        lo <= pos < toks.len(),
        grown(origin, old(out)@, lo, pos as int),
    ensures
        reads(
            r,
            final(out)@,
            delete_stmt(classes(toks@), pos as int, depth as nat, old(out)@),
            origin,
            lo,
            pos as int,
            toks.len() as int,
        ),
        r matches Ok(p) ==> pos < p && closed(
            old(out)@,
            final(out)@,
            NodeKind::DeleteStmt,
            pos as int,
            p as int,
        ),
{
    proof {
        reveal(delete_stmt);
    }
    if !at_word(toks, pos, 1, Keyword::From) {
        return Err(unexpected_at(pos + 1, Expected::Word(Keyword::From)));
    }
    let ghost o_in = out@;
    let base = out.len();
    let p1 = parse_relation(toks, pos + 2, out, true, Ghost(o_in), Ghost(pos as int))?;
    let p2 = parse_expr_clause(
        toks,
        p1,
        depth,
        out,
        Keyword::Where,
        NodeKind::WhereClause,
        Ghost(o_in),
        Ghost(pos as int),
    )?;
    push_wrap(out, NodeKind::DeleteStmt, pos, p2, base, Ghost(o_in), Ghost(origin), Ghost(lo));
    Ok(p2)
}

/// Whether the nodes end with one statement over the tokens `pos..p`: its
/// node, of the kind that the token at `pos` announces, and the `RawStmt`
/// node that closes it, with nothing else after the first `base` nodes
/// that is not part of it.
pub open spec fn ends_with_statement(
    nodes: Seq<Node>,
    k: Seq<TokClass>,
    base: int,
    pos: int,
    p: int,
) -> bool {
    let root = nodes[nodes.len() - 1];
    let stmt = nodes[nodes.len() - 2];
    &&& base + 2 <= nodes.len()
    &&& root == (Node { kind: NodeKind::RawStmt, first: pos as usize, end: p as usize, low: base as usize })
    &&& stmt.low == base
    &&& stmt.first == pos
    &&& stmt.end == p
    &&& statement_kind(peek(k, pos)) == Some(stmt.kind)
}

#[verifier::rlimit(50)]
fn parse_statement(
    toks: &Vec<Token>,
    pos: usize,
    depth: usize,
    out: &mut Vec<Node>,
) -> (r: Result<usize, SyntaxError>)
    requires
        pos < toks.len(),
    ensures
        reads(
            r,
            final(out)@,
            statement(classes(toks@), pos as int, depth as nat, old(out)@),
            old(out)@,
            pos as int,
            pos as int,
            toks.len() as int,
        ),
        r matches Ok(p) ==> pos < p && ends_with_statement(
            final(out)@,
            classes(toks@),
            old(out)@.len() as int,
            pos as int,
            p as int,
        ),
{
    proof {
        reveal(statement);
    }
    let ghost o_in = out@;
    let base = out.len();
    let t = class_at(toks, pos, 0);
    let body = if query_starts(t) {
        parse_select_stmt(toks, pos, depth, out, Ghost(o_in), Ghost(pos as int))
    } else if t == TokClass::Keyword(Keyword::Insert) {
        parse_insert(toks, pos, depth, out, Ghost(o_in), Ghost(pos as int))
    } else if t == TokClass::Keyword(Keyword::Update) {
        parse_update(toks, pos, depth, out, Ghost(o_in), Ghost(pos as int))
    } else if t == TokClass::Keyword(Keyword::Delete) {
        parse_delete(toks, pos, depth, out, Ghost(o_in), Ghost(pos as int))
    } else {
        Err(unexpected_at(pos, Expected::Statement))
    };
    let p = match body {
        Ok(p) => p,
        Err(e) => {
            return Err(e);
        },
    };
    push_wrap(out, NodeKind::RawStmt, pos, p, base, Ghost(o_in), Ghost(o_in), Ghost(pos as int));
    Ok(p)
}

/// Parses a token sequence into the flat tree of its statements.
///
/// The result is exactly `tree_of` of the token classes: the tree where the
/// grammar derives one, else the first error, at a token index that is at
/// most the number of tokens. In a tree, every node closes a subtree whose
/// nodes cover tokens inside its own, and the tree is a row of whole
/// statements, each of the kind that its first token announces.
#[verifier::rlimit(50)]
pub fn parse_tokens(toks: &Vec<Token>) -> (r: Result<Vec<Node>, SyntaxError>)
    ensures
        match tree_of(classes(toks@)) {
            Ok(nodes) => r matches Ok(v) && v@ == nodes,
            Err(e) => r matches Err(x) && x == e,
        },
        r matches Ok(v) ==> forest_ok(v@, toks@.len()) && statements_ok(
            v@,
            classes(toks@),
            v@.len() as int,
        ),
        r matches Err(e) ==> e.at <= toks@.len(),
{
    let ghost k = classes(toks@);
    let n = toks.len();
    let mut out: Vec<Node> = Vec::new();
    let mut pos: usize = 0;
    loop
        invariant
            pos <= n,
            n == toks.len(),
            k == classes(toks@),
            forest_ok(out@, toks@.len()),
            statements_ok(out@, k, out@.len() as int),
            tree_of(k) == statements(k, pos as int, out@),
        decreases n - pos,
    {
        if pos >= n {
            return Ok(out);
        }
        if at_mark(toks, pos, 0, Symbol::Semicolon) {
            pos += 1;
        } else {
            let ghost o_in = out@;
            let p = parse_statement(toks, pos, MAX_DEPTH, &mut out)?;
            proof {
                lemma_grown_forest(o_in, out@, pos as int, p as int, toks@.len());
                lemma_grown_keeps(o_in, out@, pos as int, p as int);
                lemma_statements_kept(o_in, out@, k, o_in.len() as int);
            }
            if p >= n {
                return Ok(out);
            }
            if !at_mark(toks, p, 0, Symbol::Semicolon) {
                return Err(unexpected_at(p, Expected::EndOfStatement));
            }
            pos = p + 1;
        }
    }
}

/// Parses a token sequence and keeps, where it fails, the statements that
/// were read before the error.
///
/// The error is the one of `parse_tokens`, and there is none where that
/// succeeds. The nodes are exactly `statements_read` of the token classes:
/// the whole tree where there is no error, else the statements before it.
/// They are whole statements either way.
#[verifier::rlimit(50)]
pub fn parse_tokens_keeping(toks: &Vec<Token>) -> (r: (Vec<Node>, Option<SyntaxError>))
    ensures
        r.0@ == statements_read(classes(toks@), 0, Seq::empty()),
        match tree_of(classes(toks@)) {
            Ok(nodes) => r.1 is None && r.0@ == nodes,
            Err(e) => r.1 == Some(e),
        },
        forest_ok(r.0@, toks@.len()),
        statements_ok(r.0@, classes(toks@), r.0@.len() as int),
        r.1 matches Some(e) ==> e.at <= toks@.len(),
{
    let ghost k = classes(toks@);
    let n = toks.len();
    let mut out: Vec<Node> = Vec::new();
    let mut kept: Vec<Node> = Vec::new();
    let mut pos: usize = 0;
    loop
        invariant
            pos <= n,
            n == toks.len(),
            k == classes(toks@),
            kept@ == out@,
            forest_ok(out@, toks@.len()),
            statements_ok(out@, k, out@.len() as int),
            tree_of(k) == statements(k, pos as int, out@),
            statements_read(k, 0, Seq::empty()) == statements_read(k, pos as int, out@),
        decreases n - pos,
    {
        if pos >= n {
            return (kept, None);
        }
        if at_mark(toks, pos, 0, Symbol::Semicolon) {
            pos += 1;
        } else {
            let ghost o_in = out@;
            let p = match parse_statement(toks, pos, MAX_DEPTH, &mut out) {
                Ok(p) => p,
                Err(e) => {
                    return (kept, Some(e));
                },
            };
            proof {
                lemma_grown_forest(o_in, out@, pos as int, p as int, toks@.len());
                lemma_grown_keeps(o_in, out@, pos as int, p as int);
                lemma_statements_kept(o_in, out@, k, o_in.len() as int);
            }
            let mut i: usize = kept.len();
            while i < out.len()
                invariant
                    i <= out.len(),
                    kept@.len() == i,
                    forall|j: int| 0 <= j < i ==> kept@[j] == out@[j],
                decreases out.len() - i,
            {
                kept.push(out[i]);
                i += 1;
            }
            assert(kept@ =~= out@);
            if p >= n {
                return (kept, None);
            }
            if !at_mark(toks, p, 0, Symbol::Semicolon) {
                return (kept, Some(unexpected_at(p, Expected::EndOfStatement)));
            }
            pos = p + 1;
        }
    }
}

} // verus!
