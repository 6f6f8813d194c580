//! The parser: recursive descent over the tokens, appending to a flat tree.
//!
//! Every function here reads what the grammar function of the same name
//! describes and is proved to give exactly its result. Along the way each
//! proves that what it appends are whole subtrees over the tokens it read.

use crate::grammar::{
    alias_opt, assignment, binary_op, call, call_args, case_expr, case_whens,
    column_ref, cte, dotted_rest, exists_expr, expr, expr_clause, in_operand,
    is_ident, is_mark, is_word, item, join_at, join_qual, joins, list, list_clause,
    list_rest, name_list, names_rest, operator, operators, parenthesized, peek, prefix,
    primary, query_tail, relation, row, select_core, select_operand, select_stmt, select_tail,
    set_op_of, set_ops, sort_by, starts_query,
    table_expr, table_primary, target, truth_of, window_opt, with_clause, Expected,
    Item, Parsed, SyntaxError, SyntaxErrorKind, PREC_AND, PREC_CAST, PREC_COMPARE,
    PREC_CONCAT, PREC_IS, PREC_MATCH, PREC_NOT, PREC_OR, PREC_POWER, PREC_PRODUCT, PREC_SUM,
};
use crate::token::{classes, Keyword, Symbol, TokClass, Token};
use crate::tree::{
    closed, grown, leaf, lemma_grown_chain, lemma_grown_leaf,
    lemma_grown_wrap, wrap, BinaryOp, JoinKind, Node, NodeKind, SetOpKind, Truth,
};
use vstd::prelude::*;

verus! {

broadcast use {crate::tree::lemma_shape_same, crate::tree::lemma_reach_none};

/// What every reading function promises: the result that the grammar
/// names; on success, nodes that are `origin` with whole subtrees appended
/// over tokens from `lo` to the new position, which lies at or after `pos`;
/// on failure, an error at a position that exists.
pub open spec fn reads(
    r: Result<usize, SyntaxError>,
    new: Seq<Node>,
    s: Parsed,
    origin: Seq<Node>,
    lo: int,
    pos: int,
    len: int,
) -> bool {
    match s {
        Ok((o, p)) => r == Ok::<usize, SyntaxError>(p as usize) && new == o && pos <= p <= len
            && grown(origin, new, lo, p),
        Err(e) => r == Err::<usize, SyntaxError>(e) && e.at <= len,
    }
}

pub(crate) fn class_at(toks: &Vec<Token>, pos: usize, ahead: usize) -> (t: TokClass)
    ensures
        t == peek(classes(toks@), pos + ahead),
        t != TokClass::End ==> pos + ahead < toks.len(),
{
    if pos < toks.len() && ahead < toks.len() - pos {
        toks[pos + ahead].kind.class()
    } else {
        TokClass::End
    }
}

pub(crate) fn at_word(toks: &Vec<Token>, pos: usize, ahead: usize, w: Keyword) -> (b: bool)
    ensures
        b == is_word(classes(toks@), pos + ahead, w),
        b ==> pos + ahead < toks.len(),
{
    class_at(toks, pos, ahead) == TokClass::Keyword(w)
}

pub(crate) fn at_mark(toks: &Vec<Token>, pos: usize, ahead: usize, m: Symbol) -> (b: bool)
    ensures
        b == is_mark(classes(toks@), pos + ahead, m),
        b ==> pos + ahead < toks.len(),
{
    class_at(toks, pos, ahead) == TokClass::Symbol(m)
}

pub(crate) fn at_ident(toks: &Vec<Token>, pos: usize, ahead: usize) -> (b: bool)
    ensures
        b == is_ident(classes(toks@), pos + ahead),
        b ==> pos + ahead < toks.len(),
{
    class_at(toks, pos, ahead) == TokClass::Ident
}

pub(crate) fn query_starts(t: TokClass) -> (b: bool)
    ensures
        b == starts_query(t),
{
    t == TokClass::Keyword(Keyword::Select) || t == TokClass::Keyword(Keyword::Values) || t
        == TokClass::Keyword(Keyword::With)
}

pub(crate) fn unexpected_at(pos: usize, expected: Expected) -> (e: SyntaxError)
    ensures
        e == crate::grammar::unexpected(pos as int, expected),
        e.at == pos,
{
    SyntaxError { kind: SyntaxErrorKind::Unexpected(expected), at: pos }
}

fn too_deep_at(pos: usize) -> (e: SyntaxError)
    ensures
        e == crate::grammar::too_deep(pos as int),
        e.at == pos,
{
    SyntaxError { kind: SyntaxErrorKind::DepthLimitExceeded, at: pos }
}

pub(crate) fn push_leaf(
    out: &mut Vec<Node>,
    kind: NodeKind,
    at: usize,
    Ghost(origin): Ghost<Seq<Node>>,
    Ghost(lo): Ghost<int>,
)
    requires
        at < usize::MAX,
        lo <= at,
        grown(origin, old(out)@, lo, at + 1),
    ensures
        final(out)@ == leaf(old(out)@, kind, at as int),
        grown(origin, final(out)@, lo, at + 1),
{
    let low = out.len();
    proof {
        lemma_grown_leaf(out@, kind, at as int);
        lemma_grown_chain(origin, out@, leaf(out@, kind, at as int), lo, at + 1, at as int, at + 1);
    }
    out.push(Node { kind, first: at, end: at + 1, low });
}

pub(crate) fn push_wrap(
    out: &mut Vec<Node>,
    kind: NodeKind,
    first: usize,
    end: usize,
    base: usize,
    Ghost(prefix): Ghost<Seq<Node>>,
    Ghost(origin): Ghost<Seq<Node>>,
    Ghost(lo): Ghost<int>,
)
    requires
        prefix.len() == base,
        first < end,
        lo <= first,
        grown(prefix, old(out)@, first as int, end as int),
        grown(origin, prefix, lo, end as int),
    ensures
        final(out)@ == wrap(old(out)@, base as int, kind, first as int, end as int),
        grown(prefix, final(out)@, first as int, end as int),
        grown(origin, final(out)@, lo, end as int),
        closed(prefix, final(out)@, kind, first as int, end as int),
{
    let len = out.len();
    proof {
        lemma_grown_wrap(prefix, out@, kind, first as int, end as int, first as int, end as int);
        lemma_grown_chain(
            origin,
            prefix,
            wrap(out@, base as int, kind, first as int, end as int),
            lo,
            end as int,
            first as int,
            end as int,
        );
    }
    out.push(Node { kind, first, end, low: base });
}

#[verifier::rlimit(50)]
fn parse_dotted_rest(
    toks: &Vec<Token>,
    pos: usize,
    out: &mut Vec<Node>,
    Ghost(origin): Ghost<Seq<Node>>,
    Ghost(lo): Ghost<int>,
) -> (p: usize)
    requires
        lo <= pos <= toks.len(),
        grown(origin, old(out)@, lo, pos as int),
    ensures
        (final(out)@, p as int) == dotted_rest(classes(toks@), pos as int, old(out)@),
        pos <= p <= toks.len(),
        grown(origin, final(out)@, lo, p as int),
{
    proof {
        reveal(dotted_rest);
    }
    let ghost k = classes(toks@);
    let ghost o_in = out@;
    let mut p: usize = pos;
    loop
        invariant
            lo <= pos <= p <= toks.len(),
            k == classes(toks@),
            o_in == old(out)@,
            grown(origin, out@, lo, p as int),
            dotted_rest(k, pos as int, o_in) == dotted_rest(k, p as int, out@),
        decreases toks.len() - p,
    {
        proof {
            reveal(dotted_rest);
        }
        if !at_mark(toks, p, 0, Symbol::Dot) {
            return p;
        }
        if at_ident(toks, p, 1) {
            push_leaf(out, NodeKind::Name, p + 1, Ghost(origin), Ghost(lo));
            p = p + 2;
        } else if at_mark(toks, p, 1, Symbol::Star) {
            push_leaf(out, NodeKind::Star, p + 1, Ghost(origin), Ghost(lo));
            return p + 2;
        } else {
            return p;
        }
    }
}

#[verifier::rlimit(50)]
fn parse_column_ref(
    toks: &Vec<Token>,
    pos: usize,
    out: &mut Vec<Node>,
    Ghost(origin): Ghost<Seq<Node>>,
    Ghost(lo): Ghost<int>,
) -> (r: Result<usize, SyntaxError>)
    requires
        lo <= pos < toks.len(),
        grown(origin, old(out)@, lo, pos as int),
    ensures
        reads(
            r,
            final(out)@,
            column_ref(classes(toks@), pos as int, old(out)@),
            origin,
            lo,
            pos as int,
            toks.len() as int,
        ),
        r matches Ok(p) ==> pos < p,
{
    proof {
        reveal(column_ref);
    }
    let ghost o_in = out@;
    let base = out.len();
    push_leaf(out, NodeKind::Name, pos, Ghost(o_in), Ghost(pos as int));
    let p = parse_dotted_rest(toks, pos + 1, out, Ghost(o_in), Ghost(pos as int));
    push_wrap(out, NodeKind::ColumnRef, pos, p, base, Ghost(o_in), Ghost(origin), Ghost(lo));
    Ok(p)
}

#[verifier::rlimit(50)]
fn parse_names_rest(
    toks: &Vec<Token>,
    pos: usize,
    out: &mut Vec<Node>,
    Ghost(origin): Ghost<Seq<Node>>,
    Ghost(lo): Ghost<int>,
) -> (r: Result<usize, SyntaxError>)
    requires
        lo <= pos <= toks.len(),
        grown(origin, old(out)@, lo, pos as int),
    ensures
        reads(
            r,
            final(out)@,
            names_rest(classes(toks@), pos as int, old(out)@),
            origin,
            lo,
            pos as int,
            toks.len() as int,
        ),
{
    proof {
        reveal(names_rest);
    }
    let ghost k = classes(toks@);
    let ghost o_in = out@;
    let mut p: usize = pos;
    loop
        invariant
            lo <= pos <= p <= toks.len(),
            k == classes(toks@),
            o_in == old(out)@,
            grown(origin, out@, lo, p as int),
            names_rest(k, pos as int, o_in) == names_rest(k, p as int, out@),
        decreases toks.len() - p,
    {
        proof {
            reveal(names_rest);
        }
        if !at_mark(toks, p, 0, Symbol::Comma) {
            return Ok(p);
        }
        if !at_ident(toks, p, 1) {
            return Err(unexpected_at(p + 1, Expected::Identifier));
        }
        push_leaf(out, NodeKind::Name, p + 1, Ghost(origin), Ghost(lo));
        p = p + 2;
    }
}

#[verifier::rlimit(50)]
pub(crate) fn parse_name_list(
    toks: &Vec<Token>,
    pos: usize,
    out: &mut Vec<Node>,
    kind: NodeKind,
    Ghost(origin): Ghost<Seq<Node>>,
    Ghost(lo): Ghost<int>,
) -> (r: Result<usize, SyntaxError>)
    requires
        lo <= pos <= toks.len(),
        grown(origin, old(out)@, lo, pos as int),
    ensures
        reads(
            r,
            final(out)@,
            name_list(classes(toks@), pos as int, old(out)@, kind),
            origin,
            lo,
            pos as int,
            toks.len() as int,
        ),
        r matches Ok(p) ==> pos < p,
{
    proof {
        reveal(name_list);
    }
    let ghost o_in = out@;
    let base = out.len();
    if !at_mark(toks, pos, 0, Symbol::LParen) {
        return Err(unexpected_at(pos, Expected::Mark(Symbol::LParen)));
    }
    if !at_ident(toks, pos, 1) {
        return Err(unexpected_at(pos + 1, Expected::Identifier));
    }
    push_leaf(out, NodeKind::Name, pos + 1, Ghost(o_in), Ghost(pos as int));
    let p = parse_names_rest(toks, pos + 2, out, Ghost(o_in), Ghost(pos as int))?;
    if !at_mark(toks, p, 0, Symbol::RParen) {
        return Err(unexpected_at(p, Expected::Mark(Symbol::RParen)));
    }
    push_wrap(out, kind, pos, p + 1, base, Ghost(o_in), Ghost(origin), Ghost(lo));
    Ok(p + 1)
}

#[verifier::rlimit(50)]
fn parse_alias_opt(
    toks: &Vec<Token>,
    pos: usize,
    out: &mut Vec<Node>,
    Ghost(origin): Ghost<Seq<Node>>,
    Ghost(lo): Ghost<int>,
) -> (r: Result<usize, SyntaxError>)
    requires
        lo <= pos <= toks.len(),
        grown(origin, old(out)@, lo, pos as int),
    ensures
        reads(
            r,
            final(out)@,
            alias_opt(classes(toks@), pos as int, old(out)@),
            origin,
            lo,
            pos as int,
            toks.len() as int,
        ),
{
    proof {
        reveal(alias_opt);
    }
    if at_word(toks, pos, 0, Keyword::As) {
        if at_ident(toks, pos, 1) {
            push_leaf(out, NodeKind::Alias, pos + 1, Ghost(origin), Ghost(lo));
            Ok(pos + 2)
        } else {
            Err(unexpected_at(pos + 1, Expected::Identifier))
        }
    } else if at_ident(toks, pos, 0) {
        push_leaf(out, NodeKind::Alias, pos, Ghost(origin), Ghost(lo));
        Ok(pos + 1)
    } else {
        Ok(pos)
    }
}

#[verifier::rlimit(50)]
pub(crate) fn parse_relation(
    toks: &Vec<Token>,
    pos: usize,
    out: &mut Vec<Node>,
    aliased: bool,
    Ghost(origin): Ghost<Seq<Node>>,
    Ghost(lo): Ghost<int>,
) -> (r: Result<usize, SyntaxError>)
    requires
        lo <= pos <= toks.len(),
        grown(origin, old(out)@, lo, pos as int),
    ensures
        reads(
            r,
            final(out)@,
            relation(classes(toks@), pos as int, old(out)@, aliased),
            origin,
            lo,
            pos as int,
            toks.len() as int,
        ),
        r matches Ok(p) ==> pos < p,
{
    proof {
        reveal(relation);
    }
    let ghost o_in = out@;
    let base = out.len();
    if !at_ident(toks, pos, 0) {
        return Err(unexpected_at(pos, Expected::Identifier));
    }
    push_leaf(out, NodeKind::Name, pos, Ghost(o_in), Ghost(pos as int));
    let dotted = at_mark(toks, pos, 1, Symbol::Dot);
    if dotted && !at_ident(toks, pos, 2) {
        return Err(unexpected_at(pos + 2, Expected::Identifier));
    }
    let p1: usize = if dotted {
        push_leaf(out, NodeKind::Name, pos + 2, Ghost(o_in), Ghost(pos as int));
        pos + 3
    } else {
        pos + 1
    };
    let p2: usize = if aliased {
        parse_alias_opt(toks, p1, out, Ghost(o_in), Ghost(pos as int))?
    } else {
        p1
    };
    push_wrap(out, NodeKind::RangeVar, pos, p2, base, Ghost(o_in), Ghost(origin), Ghost(lo));
    Ok(p2)
}

#[verifier::rlimit(50)]
fn parse_case_whens(
    toks: &Vec<Token>,
    pos: usize,
    depth: usize,
    out: &mut Vec<Node>,
    Ghost(origin): Ghost<Seq<Node>>,
    Ghost(lo): Ghost<int>,
) -> (r: Result<usize, SyntaxError>)
    requires
        lo <= pos <= toks.len(),
        grown(origin, old(out)@, lo, pos as int),
    ensures
        reads(
            r,
            final(out)@,
            case_whens(classes(toks@), pos as int, depth as nat, old(out)@),
            origin,
            lo,
            pos as int,
            toks.len() as int,
        ),
    decreases depth, 0nat, toks.len() - pos,
{
    let ghost k = classes(toks@);
    let ghost o_in = out@;
    let mut p: usize = pos;
    loop
        invariant
            lo <= pos <= p <= toks.len(),
            k == classes(toks@),
            o_in == old(out)@,
            grown(origin, out@, lo, p as int),
            case_whens(k, pos as int, depth as nat, o_in) == case_whens(
                k,
                p as int,
                depth as nat,
                out@,
            ),
        decreases toks.len() - p,
    {
        if !at_word(toks, p, 0, Keyword::When) {
            return Ok(p);
        }
        if depth == 0 {
            return Err(too_deep_at(p));
        }
        let ghost o0 = out@;
        let base = out.len();
        let p1 = parse_expr(toks, p + 1, PREC_OR, depth - 1, out, Ghost(o0), Ghost(p as int))?;
        if !at_word(toks, p1, 0, Keyword::Then) {
            return Err(unexpected_at(p1, Expected::Word(Keyword::Then)));
        }
        let p2 = parse_expr(toks, p1 + 1, PREC_OR, depth - 1, out, Ghost(o0), Ghost(p as int))?;
        push_wrap(out, NodeKind::CaseWhen, p, p2, base, Ghost(o0), Ghost(origin), Ghost(lo));
        p = p2;
    }
}

#[verifier::rlimit(50)]
fn parse_case_expr(
    toks: &Vec<Token>,
    pos: usize,
    depth: usize,
    out: &mut Vec<Node>,
    Ghost(origin): Ghost<Seq<Node>>,
    Ghost(lo): Ghost<int>,
) -> (r: Result<usize, SyntaxError>)
    requires
        lo <= pos < toks.len(),
        grown(origin, old(out)@, lo, pos as int),
    ensures
        reads(
            r,
            final(out)@,
            case_expr(classes(toks@), pos as int, depth as nat, old(out)@),
            origin,
            lo,
            pos as int,
            toks.len() as int,
        ),
        r matches Ok(p) ==> pos < p,
    decreases depth, 1nat, toks.len() - pos,
{
    if depth == 0 {
        return Err(too_deep_at(pos));
    }
    let ghost o_in = out@;
    let base = out.len();
    let p1: usize = if at_word(toks, pos, 1, Keyword::When) {
        pos + 1
    } else {
        let p = parse_expr(toks, pos + 1, PREC_OR, depth - 1, out, Ghost(o_in), Ghost(pos + 1))?;
        push_wrap(
            out,
            NodeKind::CaseArg,
            pos + 1,
            p,
            base,
            Ghost(o_in),
            Ghost(o_in),
            Ghost(pos as int),
        );
        p
    };
    if !at_word(toks, p1, 0, Keyword::When) {
        return Err(unexpected_at(p1, Expected::Word(Keyword::When)));
    }
    let p2 = parse_case_whens(toks, p1, depth, out, Ghost(o_in), Ghost(pos as int))?;
    let p3: usize = if at_word(toks, p2, 0, Keyword::Else) {
        let ghost o2 = out@;
        let base2 = out.len();
        let p = parse_expr(toks, p2 + 1, PREC_OR, depth - 1, out, Ghost(o2), Ghost(p2 as int))?;
        push_wrap(
            out,
            NodeKind::CaseDefault,
            p2,
            p,
            base2,
            Ghost(o2),
            Ghost(o_in),
            Ghost(pos as int),
        );
        p
    } else {
        p2
    };
    if !at_word(toks, p3, 0, Keyword::End) {
        return Err(unexpected_at(p3, Expected::Word(Keyword::End)));
    }
    push_wrap(out, NodeKind::CaseExpr, pos, p3 + 1, base, Ghost(o_in), Ghost(origin), Ghost(lo));
    Ok(p3 + 1)
}

#[verifier::rlimit(50)]
fn parse_call_args(
    toks: &Vec<Token>,
    pos: usize,
    depth: usize,
    out: &mut Vec<Node>,
    Ghost(origin): Ghost<Seq<Node>>,
    Ghost(lo): Ghost<int>,
) -> (r: Result<usize, SyntaxError>)
    requires
        lo <= pos <= toks.len(),
        grown(origin, old(out)@, lo, pos as int),
    ensures
        reads(
            r,
            final(out)@,
            call_args(classes(toks@), pos as int, depth as nat, old(out)@),
            origin,
            lo,
            pos as int,
            toks.len() as int,
        ),
        r matches Ok(p) ==> pos < p,
    decreases depth, 0nat, toks.len() - pos,
{
    if at_mark(toks, pos, 0, Symbol::RParen) {
        return Ok(pos + 1);
    }
    if at_mark(toks, pos, 0, Symbol::Star) && at_mark(toks, pos, 1, Symbol::RParen) {
        push_leaf(out, NodeKind::Star, pos, Ghost(origin), Ghost(lo));
        return Ok(pos + 2);
    }
    if depth == 0 {
        return Err(too_deep_at(pos));
    }
    let distinct = at_word(toks, pos, 0, Keyword::Distinct);
    let p0: usize = if distinct {
        push_leaf(out, NodeKind::Distinct, pos, Ghost(origin), Ghost(lo));
        pos + 1
    } else {
        pos
    };
    let ghost o0 = out@;
    let base = out.len();
    let p1 = parse_list(toks, p0, depth - 1, out, Item::Expr, Ghost(o0), Ghost(p0 as int))?;
    if !at_mark(toks, p1, 0, Symbol::RParen) {
        return Err(unexpected_at(p1, Expected::Mark(Symbol::RParen)));
    }
    push_wrap(out, NodeKind::Args, p0, p1, base, Ghost(o0), Ghost(origin), Ghost(lo));
    Ok(p1 + 1)
}

#[verifier::rlimit(50)]
fn parse_window_opt(
    toks: &Vec<Token>,
    pos: usize,
    depth: usize,
    out: &mut Vec<Node>,
    Ghost(origin): Ghost<Seq<Node>>,
    Ghost(lo): Ghost<int>,
) -> (r: Result<usize, SyntaxError>)
    requires
        lo <= pos <= toks.len(),
        grown(origin, old(out)@, lo, pos as int),
    ensures
        reads(
            r,
            final(out)@,
            window_opt(classes(toks@), pos as int, depth as nat, old(out)@),
            origin,
            lo,
            pos as int,
            toks.len() as int,
        ),
    decreases depth, 0nat, toks.len() - pos,
{
    if !at_word(toks, pos, 0, Keyword::Over) {
        return Ok(pos);
    }
    if !at_mark(toks, pos, 1, Symbol::LParen) {
        return Err(unexpected_at(pos + 1, Expected::Mark(Symbol::LParen)));
    }
    if depth == 0 {
        return Err(too_deep_at(pos));
    }
    let ghost o_in = out@;
    let base = out.len();
    let p1 = parse_list_clause(
        toks,
        pos + 2,
        depth - 1,
        out,
        Keyword::Partition,
        true,
        Item::Expr,
        NodeKind::PartitionClause,
        Ghost(o_in),
        Ghost(pos as int),
    )?;
    let p2 = parse_list_clause(
        toks,
        p1,
        depth - 1,
        out,
        Keyword::Order,
        true,
        Item::SortBy,
        NodeKind::SortClause,
        Ghost(o_in),
        Ghost(pos as int),
    )?;
    if !at_mark(toks, p2, 0, Symbol::RParen) {
        return Err(unexpected_at(p2, Expected::Mark(Symbol::RParen)));
    }
    push_wrap(out, NodeKind::WindowDef, pos, p2 + 1, base, Ghost(o_in), Ghost(origin), Ghost(lo));
    Ok(p2 + 1)
}

#[verifier::rlimit(50)]
fn parse_call(
    toks: &Vec<Token>,
    pos: usize,
    depth: usize,
    out: &mut Vec<Node>,
    Ghost(origin): Ghost<Seq<Node>>,
    Ghost(lo): Ghost<int>,
) -> (r: Result<usize, SyntaxError>)
    requires
        lo <= pos,
        pos + 1 < toks.len(),
        grown(origin, old(out)@, lo, pos as int),
    ensures
        reads(
            r,
            final(out)@,
            call(classes(toks@), pos as int, depth as nat, old(out)@),
            origin,
            lo,
            pos as int,
            toks.len() as int,
        ),
        r matches Ok(p) ==> pos < p,
    decreases depth, 1nat, toks.len() - pos,
{
    let ghost o_in = out@;
    let base = out.len();
    push_leaf(out, NodeKind::Name, pos, Ghost(o_in), Ghost(pos as int));
    let p1 = parse_call_args(toks, pos + 2, depth, out, Ghost(o_in), Ghost(pos as int))?;
    let p2 = parse_window_opt(toks, p1, depth, out, Ghost(o_in), Ghost(pos as int))?;
    push_wrap(out, NodeKind::FuncCall, pos, p2, base, Ghost(o_in), Ghost(origin), Ghost(lo));
    Ok(p2)
}

#[verifier::rlimit(50)]
fn parse_parenthesized(
    toks: &Vec<Token>,
    pos: usize,
    depth: usize,
    out: &mut Vec<Node>,
    Ghost(origin): Ghost<Seq<Node>>,
    Ghost(lo): Ghost<int>,
) -> (r: Result<usize, SyntaxError>)
    requires
        lo <= pos < toks.len(),
        grown(origin, old(out)@, lo, pos as int),
    ensures
        reads(
            r,
            final(out)@,
            parenthesized(classes(toks@), pos as int, depth as nat, old(out)@),
            origin,
            lo,
            pos as int,
            toks.len() as int,
        ),
        r matches Ok(p) ==> pos < p,
    decreases depth, 1nat, toks.len() - pos,
{
    if depth == 0 {
        return Err(too_deep_at(pos));
    }
    if query_starts(class_at(toks, pos, 1)) {
        let ghost o_in = out@;
        let base = out.len();
        let p = parse_select_stmt(toks, pos + 1, depth - 1, out, Ghost(o_in), Ghost(pos as int))?;
        if !at_mark(toks, p, 0, Symbol::RParen) {
            return Err(unexpected_at(p, Expected::Mark(Symbol::RParen)));
        }
        push_wrap(out, NodeKind::SubLink, pos, p + 1, base, Ghost(o_in), Ghost(origin), Ghost(lo));
        Ok(p + 1)
    } else {
        let p = parse_expr(toks, pos + 1, PREC_OR, depth - 1, out, Ghost(origin), Ghost(lo))?;
        if !at_mark(toks, p, 0, Symbol::RParen) {
            return Err(unexpected_at(p, Expected::Mark(Symbol::RParen)));
        }
        Ok(p + 1)
    }
}

#[verifier::rlimit(50)]
fn parse_exists(
    toks: &Vec<Token>,
    pos: usize,
    depth: usize,
    out: &mut Vec<Node>,
    Ghost(origin): Ghost<Seq<Node>>,
    Ghost(lo): Ghost<int>,
) -> (r: Result<usize, SyntaxError>)
    requires
        lo <= pos < toks.len(),
        grown(origin, old(out)@, lo, pos as int),
    ensures
        reads(
            r,
            final(out)@,
            exists_expr(classes(toks@), pos as int, depth as nat, old(out)@),
            origin,
            lo,
            pos as int,
            toks.len() as int,
        ),
        r matches Ok(p) ==> pos < p,
    decreases depth, 1nat, toks.len() - pos,
{
    if !at_mark(toks, pos, 1, Symbol::LParen) {
        return Err(unexpected_at(pos + 1, Expected::Mark(Symbol::LParen)));
    }
    if depth == 0 {
        return Err(too_deep_at(pos));
    }
    let ghost o_in = out@;
    let base = out.len();
    let p = parse_select_stmt(toks, pos + 2, depth - 1, out, Ghost(o_in), Ghost(pos as int))?;
    if !at_mark(toks, p, 0, Symbol::RParen) {
        return Err(unexpected_at(p, Expected::Mark(Symbol::RParen)));
    }
    push_wrap(out, NodeKind::Exists, pos, p + 1, base, Ghost(o_in), Ghost(origin), Ghost(lo));
    Ok(p + 1)
}

#[verifier::rlimit(50)]
fn parse_primary(
    toks: &Vec<Token>,
    pos: usize,
    depth: usize,
    out: &mut Vec<Node>,
    Ghost(origin): Ghost<Seq<Node>>,
    Ghost(lo): Ghost<int>,
) -> (r: Result<usize, SyntaxError>)
    requires
        lo <= pos <= toks.len(),
        grown(origin, old(out)@, lo, pos as int),
    ensures
        reads(
            r,
            final(out)@,
            primary(classes(toks@), pos as int, depth as nat, old(out)@),
            origin,
            lo,
            pos as int,
            toks.len() as int,
        ),
        r matches Ok(p) ==> pos < p,
    decreases depth, 2nat, toks.len() - pos,
{
    let t = class_at(toks, pos, 0);
    if t == TokClass::Literal || t == TokClass::Keyword(Keyword::Null) || t == TokClass::Keyword(
        Keyword::True,
    ) || t == TokClass::Keyword(Keyword::False) {
        push_leaf(out, NodeKind::Const, pos, Ghost(origin), Ghost(lo));
        Ok(pos + 1)
    } else if t == TokClass::Symbol(Symbol::Star) {
        push_leaf(out, NodeKind::Star, pos, Ghost(origin), Ghost(lo));
        Ok(pos + 1)
    } else if t == TokClass::Ident {
        if at_mark(toks, pos, 1, Symbol::LParen) {
            parse_call(toks, pos, depth, out, Ghost(origin), Ghost(lo))
        } else {
            parse_column_ref(toks, pos, out, Ghost(origin), Ghost(lo))
        }
    } else if t == TokClass::Keyword(Keyword::Case) {
        parse_case_expr(toks, pos, depth, out, Ghost(origin), Ghost(lo))
    } else if t == TokClass::Keyword(Keyword::Exists) {
        parse_exists(toks, pos, depth, out, Ghost(origin), Ghost(lo))
    } else if t == TokClass::Symbol(Symbol::LParen) {
        parse_parenthesized(toks, pos, depth, out, Ghost(origin), Ghost(lo))
    } else {
        Err(unexpected_at(pos, Expected::Expression))
    }
}

#[verifier::rlimit(50)]
fn parse_prefix(
    toks: &Vec<Token>,
    pos: usize,
    min: usize,
    depth: usize,
    out: &mut Vec<Node>,
    Ghost(origin): Ghost<Seq<Node>>,
    Ghost(lo): Ghost<int>,
) -> (r: Result<usize, SyntaxError>)
    requires
        lo <= pos <= toks.len(),
        grown(origin, old(out)@, lo, pos as int),
    ensures
        reads(
            r,
            final(out)@,
            prefix(classes(toks@), pos as int, min, depth as nat, old(out)@),
            origin,
            lo,
            pos as int,
            toks.len() as int,
        ),
        r matches Ok(p) ==> pos < p,
    decreases depth, 3nat, toks.len() - pos,
{
    let t = class_at(toks, pos, 0);
    let sign = t == TokClass::Symbol(Symbol::Minus) || t == TokClass::Symbol(Symbol::Plus);
    if (t == TokClass::Keyword(Keyword::Not) && min <= PREC_NOT) || sign {
        if depth == 0 {
            return Err(too_deep_at(pos));
        }
        let kind = if t == TokClass::Keyword(Keyword::Not) {
            NodeKind::Not
        } else if t == TokClass::Symbol(Symbol::Minus) {
            NodeKind::Negate
        } else {
            NodeKind::UnaryPlus
        };
        let inner: usize = if sign {
            PREC_CAST
        } else {
            PREC_NOT
        };
        let ghost o_in = out@;
        let base = out.len();
        let p = parse_expr(toks, pos + 1, inner, depth - 1, out, Ghost(o_in), Ghost(pos as int))?;
        push_wrap(out, kind, pos, p, base, Ghost(o_in), Ghost(origin), Ghost(lo));
        Ok(p)
    } else {
        parse_primary(toks, pos, depth, out, Ghost(origin), Ghost(lo))
    }
}

#[verifier::rlimit(50)]
fn parse_in_operand(
    toks: &Vec<Token>,
    pos: usize,
    depth: usize,
    out: &mut Vec<Node>,
    Ghost(origin): Ghost<Seq<Node>>,
    Ghost(lo): Ghost<int>,
) -> (r: Result<usize, SyntaxError>)
    requires
        lo <= pos <= toks.len(),
        grown(origin, old(out)@, lo, pos as int),
    ensures
        reads(
            r,
            final(out)@,
            in_operand(classes(toks@), pos as int, depth as nat, old(out)@),
            origin,
            lo,
            pos as int,
            toks.len() as int,
        ),
        r matches Ok(p) ==> pos < p,
    decreases depth, 3nat, toks.len() - pos,
{
    if !at_mark(toks, pos, 0, Symbol::LParen) {
        return Err(unexpected_at(pos, Expected::Mark(Symbol::LParen)));
    }
    if depth == 0 {
        return Err(too_deep_at(pos));
    }
    let inner = if query_starts(class_at(toks, pos, 1)) {
        parse_select_stmt(toks, pos + 1, depth - 1, out, Ghost(origin), Ghost(lo))
    } else {
        parse_list(toks, pos + 1, depth - 1, out, Item::Expr, Ghost(origin), Ghost(lo))
    };
    let p = match inner {
        Ok(p) => p,
        Err(e) => {
            return Err(e);
        },
    };
    if !at_mark(toks, p, 0, Symbol::RParen) {
        return Err(unexpected_at(p, Expected::Mark(Symbol::RParen)));
    }
    Ok(p + 1)
}

fn read_binary_op(t: TokClass) -> (r: Option<(BinaryOp, usize)>)
    ensures
        r == binary_op(t),
        r matches Some(b) ==> b.1 <= PREC_POWER,
{
    match t {
        TokClass::Keyword(Keyword::Or) => Some((BinaryOp::Or, PREC_OR)),
        TokClass::Keyword(Keyword::And) => Some((BinaryOp::And, PREC_AND)),
        TokClass::Symbol(Symbol::Eq) => Some((BinaryOp::Eq, PREC_COMPARE)),
        TokClass::Symbol(Symbol::NotEq) => Some((BinaryOp::NotEq, PREC_COMPARE)),
        TokClass::Symbol(Symbol::Lt) => Some((BinaryOp::Lt, PREC_COMPARE)),
        TokClass::Symbol(Symbol::LtEq) => Some((BinaryOp::LtEq, PREC_COMPARE)),
        TokClass::Symbol(Symbol::Gt) => Some((BinaryOp::Gt, PREC_COMPARE)),
        TokClass::Symbol(Symbol::GtEq) => Some((BinaryOp::GtEq, PREC_COMPARE)),
        TokClass::Symbol(Symbol::Concat) => Some((BinaryOp::Concat, PREC_CONCAT)),
        TokClass::Symbol(Symbol::Plus) => Some((BinaryOp::Plus, PREC_SUM)),
        TokClass::Symbol(Symbol::Minus) => Some((BinaryOp::Minus, PREC_SUM)),
        TokClass::Symbol(Symbol::Star) => Some((BinaryOp::Times, PREC_PRODUCT)),
        TokClass::Symbol(Symbol::Slash) => Some((BinaryOp::Divide, PREC_PRODUCT)),
        TokClass::Symbol(Symbol::Percent) => Some((BinaryOp::Modulo, PREC_PRODUCT)),
        TokClass::Symbol(Symbol::Caret) => Some((BinaryOp::Power, PREC_POWER)),
        _ => None,
    }
}

fn read_truth(t: TokClass) -> (r: Option<Truth>)
    ensures
        r == truth_of(t),
{
    match t {
        TokClass::Keyword(Keyword::Null) => Some(Truth::Null),
        TokClass::Keyword(Keyword::True) => Some(Truth::True),
        TokClass::Keyword(Keyword::False) => Some(Truth::False),
        _ => None,
    }
}

fn read_set_op(t: TokClass) -> (r: Option<SetOpKind>)
    ensures
        r == set_op_of(t),
        r is Some ==> t != TokClass::End,
{
    match t {
        TokClass::Keyword(Keyword::Union) => Some(SetOpKind::Union),
        TokClass::Keyword(Keyword::Intersect) => Some(SetOpKind::Intersect),
        TokClass::Keyword(Keyword::Except) => Some(SetOpKind::Except),
        _ => None,
    }
}

fn read_join(toks: &Vec<Token>, pos: usize) -> (r: Option<(JoinKind, usize)>)
    ensures
        match join_at(classes(toks@), pos as int) {
            Some((kind, q)) => r == Some((kind, q as usize)) && pos < q <= toks.len(),
            None => r is None,
        },
{
    let outer: usize = if at_word(toks, pos, 1, Keyword::Outer) {
        2
    } else {
        1
    };
    if at_word(toks, pos, 0, Keyword::Join) {
        Some((JoinKind::Inner, pos + 1))
    } else if at_word(toks, pos, 0, Keyword::Inner) && at_word(toks, pos, 1, Keyword::Join) {
        Some((JoinKind::Inner, pos + 2))
    } else if at_word(toks, pos, 0, Keyword::Cross) && at_word(toks, pos, 1, Keyword::Join) {
        Some((JoinKind::Cross, pos + 2))
    } else if at_word(toks, pos, 0, Keyword::Left) && at_word(toks, pos, outer, Keyword::Join) {
        Some((JoinKind::Left, pos + outer + 1))
    } else if at_word(toks, pos, 0, Keyword::Right) && at_word(toks, pos, outer, Keyword::Join) {
        Some((JoinKind::Right, pos + outer + 1))
    } else if at_word(toks, pos, 0, Keyword::Full) && at_word(toks, pos, outer, Keyword::Join) {
        Some((JoinKind::Full, pos + outer + 1))
    } else {
        None
    }
}


#[verifier::rlimit(50)]
fn parse_operator(
    toks: &Vec<Token>,
    start: usize,
    base: usize,
    pos: usize,
    min: usize,
    depth: usize,
    out: &mut Vec<Node>,
    Ghost(prefix): Ghost<Seq<Node>>,
) -> (r: Result<usize, SyntaxError>)
    requires
        start < pos <= toks.len(),
        prefix.len() == base,
        grown(prefix, old(out)@, start as int, pos as int),
    ensures
        reads(
            r,
            final(out)@,
            operator(
                classes(toks@),
                start as int,
                base as int,
                pos as int,
                min,
                depth as nat,
                old(out)@,
            ),
            prefix,
            start as int,
            pos as int,
            toks.len() as int,
        ),
    decreases depth, 4nat, toks.len() - pos,
{
    let t = class_at(toks, pos, 0);
    let negated = t == TokClass::Keyword(Keyword::Not);
    let skip: usize = if negated {
        1
    } else {
        0
    };
    match read_binary_op(t) {
        Some((op, strength)) => {
            if strength < min {
                return Ok(pos);
            }
            if depth == 0 {
                return Err(too_deep_at(pos));
            }
            let p = parse_expr(
                toks,
                pos + 1,
                strength + 1,
                depth - 1,
                out,
                Ghost(prefix),
                Ghost(start as int),
            )?;
            push_wrap(
                out,
                NodeKind::Binary { op },
                start,
                p,
                base,
                Ghost(prefix),
                Ghost(prefix),
                Ghost(start as int),
            );
            Ok(p)
        },
        None => {
            if t == TokClass::Keyword(Keyword::Is) && PREC_IS >= min {
                let not = at_word(toks, pos, 1, Keyword::Not);
                let ahead: usize = if not {
                    2
                } else {
                    1
                };
                match read_truth(class_at(toks, pos, ahead)) {
                    Some(value) => {
                        push_wrap(
                            out,
                            NodeKind::IsTest { negated: not, value },
                            start,
                            pos + ahead + 1,
                            base,
                            Ghost(prefix),
                            Ghost(prefix),
                            Ghost(start as int),
                        );
                        Ok(pos + ahead + 1)
                    },
                    None => Err(unexpected_at(pos + ahead, Expected::TruthValue)),
                }
            } else if t == TokClass::Symbol(Symbol::Cast) && PREC_CAST >= min {
                if at_ident(toks, pos, 1) {
                    push_leaf(out, NodeKind::TypeName, pos + 1, Ghost(prefix), Ghost(start as int));
                    push_wrap(
                        out,
                        NodeKind::TypeCast,
                        start,
                        pos + 2,
                        base,
                        Ghost(prefix),
                        Ghost(prefix),
                        Ghost(start as int),
                    );
                    Ok(pos + 2)
                } else {
                    Err(unexpected_at(pos + 1, Expected::Identifier))
                }
            } else if PREC_MATCH < min {
                Ok(pos)
            } else if at_word(toks, pos, skip, Keyword::Like) {
                if depth == 0 {
                    return Err(too_deep_at(pos));
                }
                let p = parse_expr(
                    toks,
                    pos + skip + 1,
                    PREC_CONCAT,
                    depth - 1,
                    out,
                    Ghost(prefix),
                    Ghost(start as int),
                )?;
                push_wrap(
                    out,
                    NodeKind::Like { negated },
                    start,
                    p,
                    base,
                    Ghost(prefix),
                    Ghost(prefix),
                    Ghost(start as int),
                );
                Ok(p)
            } else if at_word(toks, pos, skip, Keyword::Between) {
                if depth == 0 {
                    return Err(too_deep_at(pos));
                }
                let p1 = parse_expr(
                    toks,
                    pos + skip + 1,
                    PREC_CONCAT,
                    depth - 1,
                    out,
                    Ghost(prefix),
                    Ghost(start as int),
                )?;
                if !at_word(toks, p1, 0, Keyword::And) {
                    return Err(unexpected_at(p1, Expected::Word(Keyword::And)));
                }
                let p2 = parse_expr(
                    toks,
                    p1 + 1,
                    PREC_CONCAT,
                    depth - 1,
                    out,
                    Ghost(prefix),
                    Ghost(start as int),
                )?;
                push_wrap(
                    out,
                    NodeKind::Between { negated },
                    start,
                    p2,
                    base,
                    Ghost(prefix),
                    Ghost(prefix),
                    Ghost(start as int),
                );
                Ok(p2)
            } else if at_word(toks, pos, skip, Keyword::In) {
                let p = parse_in_operand(
                    toks,
                    pos + skip + 1,
                    depth,
                    out,
                    Ghost(prefix),
                    Ghost(start as int),
                )?;
                push_wrap(
                    out,
                    NodeKind::InList { negated },
                    start,
                    p,
                    base,
                    Ghost(prefix),
                    Ghost(prefix),
                    Ghost(start as int),
                );
                Ok(p)
            } else {
                Ok(pos)
            }
        },
    }
}


#[verifier::rlimit(50)]
fn parse_expr(
    toks: &Vec<Token>,
    pos: usize,
    min: usize,
    depth: usize,
    out: &mut Vec<Node>,
    Ghost(origin): Ghost<Seq<Node>>,
    Ghost(lo): Ghost<int>,
) -> (r: Result<usize, SyntaxError>)
    requires
        lo <= pos <= toks.len(),
        grown(origin, old(out)@, lo, pos as int),
    ensures
        reads(
            r,
            final(out)@,
            expr(classes(toks@), pos as int, min, depth as nat, old(out)@),
            origin,
            lo,
            pos as int,
            toks.len() as int,
        ),
        r matches Ok(p) ==> pos < p,
    decreases depth, 6nat, toks.len() - pos,
{
    let ghost k = classes(toks@);
    let ghost o_in = out@;
    let base = out.len();
    let mut p: usize = parse_prefix(toks, pos, min, depth, out, Ghost(o_in), Ghost(pos as int))?;
    loop
        invariant
            lo <= pos < p <= toks.len(),
            k == classes(toks@),
            o_in == old(out)@,
            base == o_in.len(),
            grown(o_in, out@, pos as int, p as int),
            grown(origin, o_in, lo, pos as int),
            expr(k, pos as int, min, depth as nat, o_in) == operators(
                k,
                pos as int,
                base as int,
                p as int,
                min,
                depth as nat,
                out@,
            ),
        decreases toks.len() - p,
    {
        let q = parse_operator(toks, pos, base, p, min, depth, out, Ghost(o_in))?;
        if q == p {
            proof {
                lemma_grown_chain(origin, o_in, out@, lo, pos as int, pos as int, p as int);
            }
            return Ok(p);
        }
        p = q;
    }
}

#[verifier::rlimit(50)]
fn parse_table_primary(
    toks: &Vec<Token>,
    pos: usize,
    depth: usize,
    out: &mut Vec<Node>,
    Ghost(origin): Ghost<Seq<Node>>,
    Ghost(lo): Ghost<int>,
) -> (r: Result<usize, SyntaxError>)
    requires
        lo <= pos <= toks.len(),
        grown(origin, old(out)@, lo, pos as int),
    ensures
        reads(
            r,
            final(out)@,
            table_primary(classes(toks@), pos as int, depth as nat, old(out)@),
            origin,
            lo,
            pos as int,
            toks.len() as int,
        ),
        r matches Ok(p) ==> pos < p,
    decreases depth, 7nat, toks.len() - pos,
{
    if !at_mark(toks, pos, 0, Symbol::LParen) {
        return parse_relation(toks, pos, out, true, Ghost(origin), Ghost(lo));
    }
    if depth == 0 {
        return Err(too_deep_at(pos));
    }
    let ghost o_in = out@;
    let base = out.len();
    let p1 = parse_select_stmt(toks, pos + 1, depth - 1, out, Ghost(o_in), Ghost(pos as int))?;
    if !at_mark(toks, p1, 0, Symbol::RParen) {
        return Err(unexpected_at(p1, Expected::Mark(Symbol::RParen)));
    }
    let ahead: usize = if at_word(toks, p1, 1, Keyword::As) {
        2
    } else {
        1
    };
    if !at_ident(toks, p1, ahead) {
        return Err(unexpected_at(p1 + ahead, Expected::Identifier));
    }
    push_leaf(out, NodeKind::Alias, p1 + ahead, Ghost(o_in), Ghost(pos as int));
    push_wrap(
        out,
        NodeKind::RangeSubselect,
        pos,
        p1 + ahead + 1,
        base,
        Ghost(o_in),
        Ghost(origin),
        Ghost(lo),
    );
    Ok(p1 + ahead + 1)
}

#[verifier::rlimit(50)]
fn parse_join_qual(
    toks: &Vec<Token>,
    pos: usize,
    depth: usize,
    out: &mut Vec<Node>,
    kind: JoinKind,
    Ghost(origin): Ghost<Seq<Node>>,
    Ghost(lo): Ghost<int>,
) -> (r: Result<usize, SyntaxError>)
    requires
        lo <= pos <= toks.len(),
        grown(origin, old(out)@, lo, pos as int),
    ensures
        reads(
            r,
            final(out)@,
            join_qual(classes(toks@), pos as int, depth as nat, old(out)@, kind),
            origin,
            lo,
            pos as int,
            toks.len() as int,
        ),
    decreases depth, 7nat, toks.len() - pos,
{
    if kind == JoinKind::Cross {
        Ok(pos)
    } else if at_word(toks, pos, 0, Keyword::On) {
        let ghost o_in = out@;
        let base = out.len();
        let p = parse_expr(toks, pos + 1, PREC_OR, depth, out, Ghost(o_in), Ghost(pos as int))?;
        push_wrap(out, NodeKind::JoinOn, pos, p, base, Ghost(o_in), Ghost(origin), Ghost(lo));
        Ok(p)
    } else if at_word(toks, pos, 0, Keyword::Using) {
        parse_name_list(toks, pos + 1, out, NodeKind::UsingClause, Ghost(origin), Ghost(lo))
    } else {
        Err(unexpected_at(pos, Expected::JoinCondition))
    }
}

#[verifier::rlimit(50)]
fn parse_table_expr(
    toks: &Vec<Token>,
    pos: usize,
    depth: usize,
    out: &mut Vec<Node>,
    Ghost(origin): Ghost<Seq<Node>>,
    Ghost(lo): Ghost<int>,
) -> (r: Result<usize, SyntaxError>)
    requires
        lo <= pos <= toks.len(),
        grown(origin, old(out)@, lo, pos as int),
    ensures
        reads(
            r,
            final(out)@,
            table_expr(classes(toks@), pos as int, depth as nat, old(out)@),
            origin,
            lo,
            pos as int,
            toks.len() as int,
        ),
        r matches Ok(p) ==> pos < p,
    decreases depth, 9nat, toks.len() - pos,
{
    let ghost k = classes(toks@);
    let ghost o_in = out@;
    let base = out.len();
    let mut p: usize = parse_table_primary(toks, pos, depth, out, Ghost(o_in), Ghost(pos as int))?;
    loop
        invariant
            lo <= pos < p <= toks.len(),
            k == classes(toks@),
            o_in == old(out)@,
            base == o_in.len(),
            grown(o_in, out@, pos as int, p as int),
            grown(origin, o_in, lo, pos as int),
            table_expr(k, pos as int, depth as nat, o_in) == joins(
                k,
                pos as int,
                base as int,
                p as int,
                depth as nat,
                out@,
            ),
        decreases toks.len() - p,
    {
        match read_join(toks, p) {
            None => {
                proof {
                    lemma_grown_chain(origin, o_in, out@, lo, pos as int, pos as int, p as int);
                }
                return Ok(p);
            },
            Some((kind, q)) => {
                let p1 = parse_table_primary(toks, q, depth, out, Ghost(o_in), Ghost(pos as int))?;
                let p2 = parse_join_qual(
                    toks,
                    p1,
                    depth,
                    out,
                    kind,
                    Ghost(o_in),
                    Ghost(pos as int),
                )?;
                push_wrap(
                    out,
                    NodeKind::JoinExpr { join: kind },
                    pos,
                    p2,
                    base,
                    Ghost(o_in),
                    Ghost(o_in),
                    Ghost(pos as int),
                );
                p = p2;
            },
        }
    }
}

#[verifier::rlimit(50)]
fn parse_target(
    toks: &Vec<Token>,
    pos: usize,
    depth: usize,
    out: &mut Vec<Node>,
    Ghost(origin): Ghost<Seq<Node>>,
    Ghost(lo): Ghost<int>,
) -> (r: Result<usize, SyntaxError>)
    requires
        lo <= pos <= toks.len(),
        grown(origin, old(out)@, lo, pos as int),
    ensures
        reads(
            r,
            final(out)@,
            target(classes(toks@), pos as int, depth as nat, old(out)@),
            origin,
            lo,
            pos as int,
            toks.len() as int,
        ),
        r matches Ok(p) ==> pos < p,
    decreases depth, 9nat, toks.len() - pos,
{
    let ghost o_in = out@;
    let base = out.len();
    let p1 = parse_expr(toks, pos, PREC_OR, depth, out, Ghost(o_in), Ghost(pos as int))?;
    let p2 = parse_alias_opt(toks, p1, out, Ghost(o_in), Ghost(pos as int))?;
    push_wrap(out, NodeKind::ResTarget, pos, p2, base, Ghost(o_in), Ghost(origin), Ghost(lo));
    Ok(p2)
}

#[verifier::rlimit(50)]
fn parse_assignment(
    toks: &Vec<Token>,
    pos: usize,
    depth: usize,
    out: &mut Vec<Node>,
    Ghost(origin): Ghost<Seq<Node>>,
    Ghost(lo): Ghost<int>,
) -> (r: Result<usize, SyntaxError>)
    requires
        lo <= pos <= toks.len(),
        grown(origin, old(out)@, lo, pos as int),
    ensures
        reads(
            r,
            final(out)@,
            assignment(classes(toks@), pos as int, depth as nat, old(out)@),
            origin,
            lo,
            pos as int,
            toks.len() as int,
        ),
        r matches Ok(p) ==> pos < p,
    decreases depth, 9nat, toks.len() - pos,
{
    if !at_ident(toks, pos, 0) {
        return Err(unexpected_at(pos, Expected::Identifier));
    }
    if !at_mark(toks, pos, 1, Symbol::Eq) {
        return Err(unexpected_at(pos + 1, Expected::Mark(Symbol::Eq)));
    }
    let ghost o_in = out@;
    let base = out.len();
    push_leaf(out, NodeKind::Name, pos, Ghost(o_in), Ghost(pos as int));
    let p = parse_expr(toks, pos + 2, PREC_OR, depth, out, Ghost(o_in), Ghost(pos as int))?;
    push_wrap(out, NodeKind::Assignment, pos, p, base, Ghost(o_in), Ghost(origin), Ghost(lo));
    Ok(p)
}

#[verifier::rlimit(50)]
fn parse_sort_by(
    toks: &Vec<Token>,
    pos: usize,
    depth: usize,
    out: &mut Vec<Node>,
    Ghost(origin): Ghost<Seq<Node>>,
    Ghost(lo): Ghost<int>,
) -> (r: Result<usize, SyntaxError>)
    requires
        lo <= pos <= toks.len(),
        grown(origin, old(out)@, lo, pos as int),
    ensures
        reads(
            r,
            final(out)@,
            sort_by(classes(toks@), pos as int, depth as nat, old(out)@),
            origin,
            lo,
            pos as int,
            toks.len() as int,
        ),
        r matches Ok(p) ==> pos < p,
    decreases depth, 9nat, toks.len() - pos,
{
    let ghost o_in = out@;
    let base = out.len();
    let p = parse_expr(toks, pos, PREC_OR, depth, out, Ghost(o_in), Ghost(pos as int))?;
    let descending = at_word(toks, p, 0, Keyword::Desc);
    let p2: usize = if descending || at_word(toks, p, 0, Keyword::Asc) {
        p + 1
    } else {
        p
    };
    push_wrap(
        out,
        NodeKind::SortBy { descending },
        pos,
        p2,
        base,
        Ghost(o_in),
        Ghost(origin),
        Ghost(lo),
    );
    Ok(p2)
}

#[verifier::rlimit(50)]
fn parse_cte(
    toks: &Vec<Token>,
    pos: usize,
    depth: usize,
    out: &mut Vec<Node>,
    Ghost(origin): Ghost<Seq<Node>>,
    Ghost(lo): Ghost<int>,
) -> (r: Result<usize, SyntaxError>)
    requires
        lo <= pos <= toks.len(),
        grown(origin, old(out)@, lo, pos as int),
    ensures
        reads(
            r,
            final(out)@,
            cte(classes(toks@), pos as int, depth as nat, old(out)@),
            origin,
            lo,
            pos as int,
            toks.len() as int,
        ),
        r matches Ok(p) ==> pos < p,
    decreases depth, 9nat, toks.len() - pos,
{
    if !at_ident(toks, pos, 0) {
        return Err(unexpected_at(pos, Expected::Identifier));
    }
    if !at_word(toks, pos, 1, Keyword::As) {
        return Err(unexpected_at(pos + 1, Expected::Word(Keyword::As)));
    }
    if !at_mark(toks, pos, 2, Symbol::LParen) {
        return Err(unexpected_at(pos + 2, Expected::Mark(Symbol::LParen)));
    }
    if depth == 0 {
        return Err(too_deep_at(pos));
    }
    let ghost o_in = out@;
    let base = out.len();
    push_leaf(out, NodeKind::Name, pos, Ghost(o_in), Ghost(pos as int));
    let p = parse_select_stmt(toks, pos + 3, depth - 1, out, Ghost(o_in), Ghost(pos as int))?;
    if !at_mark(toks, p, 0, Symbol::RParen) {
        return Err(unexpected_at(p, Expected::Mark(Symbol::RParen)));
    }
    push_wrap(
        out,
        NodeKind::CommonTableExpr,
        pos,
        p + 1,
        base,
        Ghost(o_in),
        Ghost(origin),
        Ghost(lo),
    );
    Ok(p + 1)
}

#[verifier::rlimit(50)]
fn parse_row(
    toks: &Vec<Token>,
    pos: usize,
    depth: usize,
    out: &mut Vec<Node>,
    Ghost(origin): Ghost<Seq<Node>>,
    Ghost(lo): Ghost<int>,
) -> (r: Result<usize, SyntaxError>)
    requires
        lo <= pos <= toks.len(),
        grown(origin, old(out)@, lo, pos as int),
    ensures
        reads(
            r,
            final(out)@,
            row(classes(toks@), pos as int, depth as nat, old(out)@),
            origin,
            lo,
            pos as int,
            toks.len() as int,
        ),
        r matches Ok(p) ==> pos < p,
    decreases depth, 9nat, toks.len() - pos,
{
    if !at_mark(toks, pos, 0, Symbol::LParen) {
        return Err(unexpected_at(pos, Expected::Mark(Symbol::LParen)));
    }
    if depth == 0 {
        return Err(too_deep_at(pos));
    }
    let ghost o_in = out@;
    let base = out.len();
    let p = parse_list(toks, pos + 1, depth - 1, out, Item::Expr, Ghost(o_in), Ghost(pos as int))?;
    if !at_mark(toks, p, 0, Symbol::RParen) {
        return Err(unexpected_at(p, Expected::Mark(Symbol::RParen)));
    }
    push_wrap(out, NodeKind::Row, pos, p + 1, base, Ghost(o_in), Ghost(origin), Ghost(lo));
    Ok(p + 1)
}

#[verifier::rlimit(50)]
fn parse_item(
    toks: &Vec<Token>,
    pos: usize,
    depth: usize,
    out: &mut Vec<Node>,
    it: Item,
    Ghost(origin): Ghost<Seq<Node>>,
    Ghost(lo): Ghost<int>,
) -> (r: Result<usize, SyntaxError>)
    requires
        lo <= pos <= toks.len(),
        grown(origin, old(out)@, lo, pos as int),
    ensures
        reads(
            r,
            final(out)@,
            item(classes(toks@), pos as int, depth as nat, old(out)@, it),
            origin,
            lo,
            pos as int,
            toks.len() as int,
        ),
        r matches Ok(p) ==> pos < p,
    decreases depth, 10nat, toks.len() - pos,
{
    match it {
        Item::Expr => parse_expr(toks, pos, PREC_OR, depth, out, Ghost(origin), Ghost(lo)),
        Item::Target => parse_target(toks, pos, depth, out, Ghost(origin), Ghost(lo)),
        Item::Table => parse_table_expr(toks, pos, depth, out, Ghost(origin), Ghost(lo)),
        Item::Assignment => parse_assignment(toks, pos, depth, out, Ghost(origin), Ghost(lo)),
        Item::SortBy => parse_sort_by(toks, pos, depth, out, Ghost(origin), Ghost(lo)),
        Item::Cte => parse_cte(toks, pos, depth, out, Ghost(origin), Ghost(lo)),
        Item::Row => parse_row(toks, pos, depth, out, Ghost(origin), Ghost(lo)),
    }
}

#[verifier::rlimit(50)]
fn parse_list(
    toks: &Vec<Token>,
    pos: usize,
    depth: usize,
    out: &mut Vec<Node>,
    it: Item,
    Ghost(origin): Ghost<Seq<Node>>,
    Ghost(lo): Ghost<int>,
) -> (r: Result<usize, SyntaxError>)
    requires
        lo <= pos <= toks.len(),
        grown(origin, old(out)@, lo, pos as int),
    ensures
        reads(
            r,
            final(out)@,
            list(classes(toks@), pos as int, depth as nat, old(out)@, it),
            origin,
            lo,
            pos as int,
            toks.len() as int,
        ),
        r matches Ok(p) ==> pos < p,
    decreases depth, 12nat, toks.len() - pos,
{
    let ghost k = classes(toks@);
    let ghost o_in = out@;
    let mut p: usize = parse_item(toks, pos, depth, out, it, Ghost(origin), Ghost(lo))?;
    loop
        invariant
            lo <= pos < p <= toks.len(),
            k == classes(toks@),
            o_in == old(out)@,
            grown(origin, out@, lo, p as int),
            list(k, pos as int, depth as nat, o_in, it) == list_rest(
                k,
                p as int,
                depth as nat,
                out@,
                it,
            ),
        decreases toks.len() - p,
    {
        if !at_mark(toks, p, 0, Symbol::Comma) {
            return Ok(p);
        }
        let q = parse_item(toks, p + 1, depth, out, it, Ghost(origin), Ghost(lo))?;
        p = q;
    }
}

#[verifier::rlimit(50)]
pub(crate) fn parse_list_clause(
    toks: &Vec<Token>,
    pos: usize,
    depth: usize,
    out: &mut Vec<Node>,
    word: Keyword,
    by: bool,
    it: Item,
    kind: NodeKind,
    Ghost(origin): Ghost<Seq<Node>>,
    Ghost(lo): Ghost<int>,
) -> (r: Result<usize, SyntaxError>)
    requires
        lo <= pos <= toks.len(),
        grown(origin, old(out)@, lo, pos as int),
    ensures
        reads(
            r,
            final(out)@,
            list_clause(classes(toks@), pos as int, depth as nat, old(out)@, word, by, it, kind),
            origin,
            lo,
            pos as int,
            toks.len() as int,
        ),
    decreases depth, 13nat, toks.len() - pos,
{
    if !at_word(toks, pos, 0, word) {
        return Ok(pos);
    }
    if by && !at_word(toks, pos, 1, Keyword::By) {
        return Err(unexpected_at(pos + 1, Expected::Word(Keyword::By)));
    }
    let p0: usize = if by {
        pos + 2
    } else {
        pos + 1
    };
    let ghost o_in = out@;
    let base = out.len();
    let p = parse_list(toks, p0, depth, out, it, Ghost(o_in), Ghost(pos as int))?;
    push_wrap(out, kind, pos, p, base, Ghost(o_in), Ghost(origin), Ghost(lo));
    Ok(p)
}

#[verifier::rlimit(50)]
pub(crate) fn parse_expr_clause(
    toks: &Vec<Token>,
    pos: usize,
    depth: usize,
    out: &mut Vec<Node>,
    word: Keyword,
    kind: NodeKind,
    Ghost(origin): Ghost<Seq<Node>>,
    Ghost(lo): Ghost<int>,
) -> (r: Result<usize, SyntaxError>)
    requires
        lo <= pos <= toks.len(),
        grown(origin, old(out)@, lo, pos as int),
    ensures
        reads(
            r,
            final(out)@,
            expr_clause(classes(toks@), pos as int, depth as nat, old(out)@, word, kind),
            origin,
            lo,
            pos as int,
            toks.len() as int,
        ),
    decreases depth, 13nat, toks.len() - pos,
{
    if !at_word(toks, pos, 0, word) {
        return Ok(pos);
    }
    let ghost o_in = out@;
    let base = out.len();
    let p = parse_expr(toks, pos + 1, PREC_OR, depth, out, Ghost(o_in), Ghost(pos as int))?;
    push_wrap(out, kind, pos, p, base, Ghost(o_in), Ghost(origin), Ghost(lo));
    Ok(p)
}

#[verifier::rlimit(50)]
fn parse_with_clause(
    toks: &Vec<Token>,
    pos: usize,
    depth: usize,
    out: &mut Vec<Node>,
    Ghost(origin): Ghost<Seq<Node>>,
    Ghost(lo): Ghost<int>,
) -> (r: Result<usize, SyntaxError>)
    requires
        lo <= pos <= toks.len(),
        grown(origin, old(out)@, lo, pos as int),
    ensures
        reads(
            r,
            final(out)@,
            with_clause(classes(toks@), pos as int, depth as nat, old(out)@),
            origin,
            lo,
            pos as int,
            toks.len() as int,
        ),
    decreases depth, 14nat, toks.len() - pos,
{
    if !at_word(toks, pos, 0, Keyword::With) {
        return Ok(pos);
    }
    let recursive = at_word(toks, pos, 1, Keyword::Recursive);
    let p0: usize = if recursive {
        pos + 2
    } else {
        pos + 1
    };
    let ghost o_in = out@;
    let base = out.len();
    let p = parse_list(toks, p0, depth, out, Item::Cte, Ghost(o_in), Ghost(pos as int))?;
    push_wrap(
        out,
        NodeKind::WithClause { recursive },
        pos,
        p,
        base,
        Ghost(o_in),
        Ghost(origin),
        Ghost(lo),
    );
    Ok(p)
}

#[verifier::rlimit(50)]
fn parse_select_tail(
    toks: &Vec<Token>,
    pos: usize,
    depth: usize,
    out: &mut Vec<Node>,
    Ghost(origin): Ghost<Seq<Node>>,
    Ghost(lo): Ghost<int>,
) -> (r: Result<usize, SyntaxError>)
    requires
        lo <= pos <= toks.len(),
        grown(origin, old(out)@, lo, pos as int),
    ensures
        reads(
            r,
            final(out)@,
            select_tail(classes(toks@), pos as int, depth as nat, old(out)@),
            origin,
            lo,
            pos as int,
            toks.len() as int,
        ),
    decreases depth, 15nat, toks.len() - pos,
{
    let p1 = parse_list_clause(
        toks,
        pos,
        depth,
        out,
        Keyword::From,
        false,
        Item::Table,
        NodeKind::FromClause,
        Ghost(origin),
        Ghost(lo),
    )?;
    let p2 = parse_expr_clause(
        toks,
        p1,
        depth,
        out,
        Keyword::Where,
        NodeKind::WhereClause,
        Ghost(origin),
        Ghost(lo),
    )?;
    let p3 = parse_list_clause(
        toks,
        p2,
        depth,
        out,
        Keyword::Group,
        true,
        Item::Expr,
        NodeKind::GroupClause,
        Ghost(origin),
        Ghost(lo),
    )?;
    parse_expr_clause(
        toks,
        p3,
        depth,
        out,
        Keyword::Having,
        NodeKind::HavingClause,
        Ghost(origin),
        Ghost(lo),
    )
}

#[verifier::rlimit(50)]
fn parse_query_tail(
    toks: &Vec<Token>,
    pos: usize,
    depth: usize,
    out: &mut Vec<Node>,
    Ghost(origin): Ghost<Seq<Node>>,
    Ghost(lo): Ghost<int>,
) -> (r: Result<usize, SyntaxError>)
    requires
        lo <= pos <= toks.len(),
        grown(origin, old(out)@, lo, pos as int),
    ensures
        reads(
            r,
            final(out)@,
            query_tail(classes(toks@), pos as int, depth as nat, old(out)@),
            origin,
            lo,
            pos as int,
            toks.len() as int,
        ),
    decreases depth, 15nat, toks.len() - pos,
{
    let p1 = parse_list_clause(
        toks,
        pos,
        depth,
        out,
        Keyword::Order,
        true,
        Item::SortBy,
        NodeKind::SortClause,
        Ghost(origin),
        Ghost(lo),
    )?;
    let p2 = parse_expr_clause(
        toks,
        p1,
        depth,
        out,
        Keyword::Limit,
        NodeKind::LimitCount,
        Ghost(origin),
        Ghost(lo),
    )?;
    parse_expr_clause(
        toks,
        p2,
        depth,
        out,
        Keyword::Offset,
        NodeKind::LimitOffset,
        Ghost(origin),
        Ghost(lo),
    )
}

#[verifier::rlimit(50)]
fn parse_select_core(
    toks: &Vec<Token>,
    pos: usize,
    depth: usize,
    out: &mut Vec<Node>,
    Ghost(origin): Ghost<Seq<Node>>,
    Ghost(lo): Ghost<int>,
) -> (r: Result<usize, SyntaxError>)
    requires
        lo <= pos <= toks.len(),
        grown(origin, old(out)@, lo, pos as int),
    ensures
        reads(
            r,
            final(out)@,
            select_core(classes(toks@), pos as int, depth as nat, old(out)@),
            origin,
            lo,
            pos as int,
            toks.len() as int,
        ),
        r matches Ok(p) ==> pos < p,
    decreases depth, 16nat, toks.len() - pos,
{
    if at_word(toks, pos, 0, Keyword::Values) {
        let ghost o_in = out@;
        let base = out.len();
        let p = parse_list(toks, pos + 1, depth, out, Item::Row, Ghost(o_in), Ghost(pos as int))?;
        push_wrap(out, NodeKind::ValuesLists, pos, p, base, Ghost(o_in), Ghost(origin), Ghost(lo));
        Ok(p)
    } else if at_word(toks, pos, 0, Keyword::Select) {
        let distinct = at_word(toks, pos, 1, Keyword::Distinct);
        let p0: usize = if distinct {
            push_leaf(out, NodeKind::Distinct, pos + 1, Ghost(origin), Ghost(lo));
            pos + 2
        } else {
            pos + 1
        };
        let ghost o0 = out@;
        let base = out.len();
        let p1 = parse_list(toks, p0, depth, out, Item::Target, Ghost(o0), Ghost(p0 as int))?;
        push_wrap(out, NodeKind::TargetList, p0, p1, base, Ghost(o0), Ghost(origin), Ghost(lo));
        parse_select_tail(toks, p1, depth, out, Ghost(origin), Ghost(lo))
    } else {
        Err(unexpected_at(pos, Expected::Query))
    }
}

#[verifier::rlimit(50)]
fn parse_select_operand(
    toks: &Vec<Token>,
    pos: usize,
    depth: usize,
    out: &mut Vec<Node>,
    Ghost(origin): Ghost<Seq<Node>>,
    Ghost(lo): Ghost<int>,
) -> (r: Result<usize, SyntaxError>)
    requires
        lo <= pos <= toks.len(),
        grown(origin, old(out)@, lo, pos as int),
    ensures
        reads(
            r,
            final(out)@,
            select_operand(classes(toks@), pos as int, depth as nat, old(out)@),
            origin,
            lo,
            pos as int,
            toks.len() as int,
        ),
        r matches Ok(p) ==> pos < p,
    decreases depth, 17nat, toks.len() - pos,
{
    if at_mark(toks, pos, 0, Symbol::LParen) {
        if depth == 0 {
            return Err(too_deep_at(pos));
        }
        let p = parse_select_stmt(toks, pos + 1, depth - 1, out, Ghost(origin), Ghost(lo))?;
        if !at_mark(toks, p, 0, Symbol::RParen) {
            return Err(unexpected_at(p, Expected::Mark(Symbol::RParen)));
        }
        Ok(p + 1)
    } else {
        let ghost o_in = out@;
        let base = out.len();
        let p = parse_select_core(toks, pos, depth, out, Ghost(o_in), Ghost(pos as int))?;
        push_wrap(out, NodeKind::SelectStmt, pos, p, base, Ghost(o_in), Ghost(origin), Ghost(lo));
        Ok(p)
    }
}

#[verifier::rlimit(50)]
pub(crate) fn parse_select_stmt(
    toks: &Vec<Token>,
    pos: usize,
    depth: usize,
    out: &mut Vec<Node>,
    Ghost(origin): Ghost<Seq<Node>>,
    Ghost(lo): Ghost<int>,
) -> (r: Result<usize, SyntaxError>)
    requires
        lo <= pos <= toks.len(),
        grown(origin, old(out)@, lo, pos as int),
    ensures
        reads(
            r,
            final(out)@,
            select_stmt(classes(toks@), pos as int, depth as nat, old(out)@),
            origin,
            lo,
            pos as int,
            toks.len() as int,
        ),
        r matches Ok(p) ==> pos < p,
        r matches Ok(p) ==> closed(old(out)@, final(out)@, NodeKind::SelectStmt, pos as int, p as int),
    decreases depth, 19nat, toks.len() - pos,
{
    let ghost k = classes(toks@);
    let ghost o_in = out@;
    let base = out.len();
    let p0 = parse_with_clause(toks, pos, depth, out, Ghost(o_in), Ghost(pos as int))?;
    let ghost o0 = out@;
    let body = out.len();
    let p1 = parse_select_core(toks, p0, depth, out, Ghost(o0), Ghost(p0 as int))?;
    let ghost o1 = out@;
    let mut p: usize = p1;
    loop
        invariant
            lo <= pos <= p0 < p <= toks.len(),
            p0 < p1 <= toks.len(),
            k == classes(toks@),
            o_in == old(out)@,
            base == o_in.len(),
            body == o0.len(),
            grown(origin, o_in, lo, pos as int),
            grown(o_in, o0, pos as int, p0 as int),
            grown(o0, out@, p0 as int, p as int),
            select_stmt(k, pos as int, depth as nat, o_in) == match set_ops(
                k,
                p0 as int,
                body as int,
                p as int,
                depth as nat,
                out@,
            ) {
                Err(e) => Err(e),
                Ok((o2, p2)) => match query_tail(k, p2, depth as nat, o2) {
                    Err(e) => Err(e),
                    Ok((o3, p3)) => Ok(
                        (wrap(o3, base as int, NodeKind::SelectStmt, pos as int, p3), p3),
                    ),
                },
            },
        decreases toks.len() - p,
    {
        match read_set_op(class_at(toks, p, 0)) {
            None => {
                proof {
                    lemma_grown_chain(o_in, o0, out@, pos as int, p0 as int, p0 as int, p as int);
                }
                let p3 = parse_query_tail(toks, p, depth, out, Ghost(o_in), Ghost(pos as int))?;
                push_wrap(
                    out,
                    NodeKind::SelectStmt,
                    pos,
                    p3,
                    base,
                    Ghost(o_in),
                    Ghost(origin),
                    Ghost(lo),
                );
                return Ok(p3);
            },
            Some(op) => {
                let all = at_word(toks, p, 1, Keyword::All);
                let q: usize = if all {
                    p + 2
                } else {
                    p + 1
                };
                push_wrap(
                    out,
                    NodeKind::SelectStmt,
                    p0,
                    p,
                    body,
                    Ghost(o0),
                    Ghost(o0),
                    Ghost(p0 as int),
                );
                push_leaf(out, NodeKind::SetOp { set_op: op, all }, p, Ghost(o0), Ghost(p0 as int));
                let p2 = parse_select_operand(toks, q, depth, out, Ghost(o0), Ghost(p0 as int))?;
                p = p2;
            },
        }
    }
}

} // verus!
