//! The grammar, as specification functions.
//!
//! Each function reads one construct from the token classes `k` at `pos` and
//! gives the nodes `out` with the construct's nodes appended and the position
//! after it, or the first error. `depth` is how many more levels of nesting
//! are allowed: an operand, a parenthesis and a subquery each use one.
//!
//! A repetition goes on only while each step reads at least one token and
//! stays inside the input. Every step does, as the parser proves of each
//! construct that it reads; the tests are written out so that the
//! recursion is seen to end.
//!
//! The dialect: `SELECT` with `DISTINCT`, `FROM`, joins, `WHERE`, `GROUP BY`,
//! `HAVING`, set operations, `ORDER BY`, `LIMIT` and `OFFSET`; `VALUES`;
//! `WITH`; `INSERT`, `UPDATE`, `DELETE`; expressions with the usual
//! precedence, `IS`, `BETWEEN`, `IN`, `LIKE`, `CASE`, casts, calls with
//! `OVER`, and subqueries. Keywords are reserved.

use crate::token::{Keyword, Symbol, TokClass};
use crate::tree::{leaf, wrap, BinaryOp, JoinKind, Node, NodeKind, SetOpKind, Truth};
use vstd::prelude::*;

verus! {

/// How deep constructs may nest.
pub const MAX_DEPTH: usize = 128;

/// What the parser would have accepted where it found something else.
#[derive(Clone, Copy, Debug, PartialEq, Eq, Structural)]
pub enum Expected {
    Statement,
    Query,
    Expression,
    Identifier,
    TruthValue,
    JoinCondition,
    Word(Keyword),
    Mark(Symbol),
    EndOfStatement,
}

#[derive(Clone, Copy, Debug, PartialEq, Eq, Structural)]
pub enum SyntaxErrorKind {
    /// The token at the error's position fits no rule.
    Unexpected(Expected),
    /// Constructs nest deeper than `MAX_DEPTH`.
    DepthLimitExceeded,
}

/// A syntax error and the index of the token at which it was found; the
/// number of tokens where the input ended too early.
#[derive(Clone, Copy, Debug, PartialEq, Eq, Structural)]
pub struct SyntaxError {
    pub kind: SyntaxErrorKind,
    pub at: usize,
}

/// The outcome of reading one construct.
pub type Parsed = Result<(Seq<Node>, int), SyntaxError>;

/// What a comma-separated list holds.
#[derive(Clone, Copy, Debug, PartialEq, Eq, Structural)]
pub enum Item {
    Expr,
    Target,
    Table,
    Assignment,
    SortBy,
    Cte,
    Row,
}

/// The class of the token at `pos`; `End` past the last one.
pub open spec fn peek(k: Seq<TokClass>, pos: int) -> TokClass {
    if 0 <= pos < k.len() {
        k[pos]
    } else {
        TokClass::End
    }
}

pub open spec fn is_word(k: Seq<TokClass>, pos: int, w: Keyword) -> bool {
    peek(k, pos) == TokClass::Keyword(w)
}

pub open spec fn is_mark(k: Seq<TokClass>, pos: int, m: Symbol) -> bool {
    peek(k, pos) == TokClass::Symbol(m)
}

pub open spec fn is_ident(k: Seq<TokClass>, pos: int) -> bool {
    peek(k, pos) == TokClass::Ident
}

pub open spec fn unexpected(pos: int, expected: Expected) -> SyntaxError {
    SyntaxError { kind: SyntaxErrorKind::Unexpected(expected), at: pos as usize }
}

pub open spec fn too_deep(pos: int) -> SyntaxError {
    SyntaxError { kind: SyntaxErrorKind::DepthLimitExceeded, at: pos as usize }
}

/// Whether a query can start with this token.
pub open spec fn starts_query(t: TokClass) -> bool {
    t == TokClass::Keyword(Keyword::Select) || t == TokClass::Keyword(Keyword::Values) || t
        == TokClass::Keyword(Keyword::With)
}

/// Binding strengths, weakest first.
pub const PREC_OR: usize = 1;

pub const PREC_AND: usize = 2;

pub const PREC_NOT: usize = 3;

pub const PREC_IS: usize = 4;

pub const PREC_COMPARE: usize = 5;

pub const PREC_MATCH: usize = 6;

pub const PREC_CONCAT: usize = 7;

pub const PREC_SUM: usize = 8;

pub const PREC_PRODUCT: usize = 9;

pub const PREC_POWER: usize = 10;

/// The strength of a sign before an operand: it takes the operand and its
/// casts, and nothing weaker.
pub const PREC_SIGN: usize = 11;

pub const PREC_CAST: usize = 12;

/// The binary operator that a token spells, with its binding strength.
pub open spec fn binary_op(t: TokClass) -> Option<(BinaryOp, usize)> {
    match t {
        TokClass::Keyword(Keyword::Or) => Some((BinaryOp::Or, PREC_OR)),
        TokClass::Keyword(Keyword::And) => Some((BinaryOp::And, PREC_AND)),
        TokClass::Symbol(Symbol::Eq) => Some((BinaryOp::Eq, PREC_COMPARE)),
        TokClass::Symbol(Symbol::NotEq) => Some((BinaryOp::NotEq, PREC_COMPARE)),
        TokClass::Symbol(Symbol::Lt) => Some((BinaryOp::Lt, PREC_COMPARE)),
        TokClass::Symbol(Symbol::LtEq) => Some((BinaryOp::LtEq, PREC_COMPARE)),
        TokClass::Symbol(Symbol::Gt) => Some((BinaryOp::Gt, PREC_COMPARE)),
        TokClass::Symbol(Symbol::GtEq) => Some((BinaryOp::GtEq, PREC_COMPARE)),
        TokClass::Symbol(Symbol::Concat) => Some((BinaryOp::Concat, PREC_CONCAT)),
        TokClass::Symbol(Symbol::Plus) => Some((BinaryOp::Plus, PREC_SUM)),
        TokClass::Symbol(Symbol::Minus) => Some((BinaryOp::Minus, PREC_SUM)),
        TokClass::Symbol(Symbol::Star) => Some((BinaryOp::Times, PREC_PRODUCT)),
        TokClass::Symbol(Symbol::Slash) => Some((BinaryOp::Divide, PREC_PRODUCT)),
        TokClass::Symbol(Symbol::Percent) => Some((BinaryOp::Modulo, PREC_PRODUCT)),
        TokClass::Symbol(Symbol::Caret) => Some((BinaryOp::Power, PREC_POWER)),
        _ => None,
    }
}

/// The truth value that a token spells after `IS`.
pub open spec fn truth_of(t: TokClass) -> Option<Truth> {
    match t {
        TokClass::Keyword(Keyword::Null) => Some(Truth::Null),
        TokClass::Keyword(Keyword::True) => Some(Truth::True),
        TokClass::Keyword(Keyword::False) => Some(Truth::False),
        _ => None,
    }
}

/// The set operation that a token spells.
pub open spec fn set_op_of(t: TokClass) -> Option<SetOpKind> {
    match t {
        TokClass::Keyword(Keyword::Union) => Some(SetOpKind::Union),
        TokClass::Keyword(Keyword::Intersect) => Some(SetOpKind::Intersect),
        TokClass::Keyword(Keyword::Except) => Some(SetOpKind::Except),
        _ => None,
    }
}

/// The join that starts at `pos`, with the position after the word `JOIN`.
pub open spec fn join_at(k: Seq<TokClass>, pos: int) -> Option<(JoinKind, int)> {
    let outer = if is_word(k, pos + 1, Keyword::Outer) {
        pos + 2
    } else {
        pos + 1
    };
    if is_word(k, pos, Keyword::Join) {
        Some((JoinKind::Inner, pos + 1))
    } else if is_word(k, pos, Keyword::Inner) && is_word(k, pos + 1, Keyword::Join) {
        Some((JoinKind::Inner, pos + 2))
    } else if is_word(k, pos, Keyword::Cross) && is_word(k, pos + 1, Keyword::Join) {
        Some((JoinKind::Cross, pos + 2))
    } else if is_word(k, pos, Keyword::Left) && is_word(k, outer, Keyword::Join) {
        Some((JoinKind::Left, outer + 1))
    } else if is_word(k, pos, Keyword::Right) && is_word(k, outer, Keyword::Join) {
        Some((JoinKind::Right, outer + 1))
    } else if is_word(k, pos, Keyword::Full) && is_word(k, outer, Keyword::Join) {
        Some((JoinKind::Full, outer + 1))
    } else {
        None
    }
}

/// `. name`, any number of times, and maybe a final `. *`.
#[verifier::opaque]
pub open spec fn dotted_rest(k: Seq<TokClass>, pos: int, out: Seq<Node>) -> (Seq<Node>, int)
    decreases k.len() - pos,
{
    if 0 <= pos && pos + 1 < k.len() && is_mark(k, pos, Symbol::Dot) {
        if is_ident(k, pos + 1) {
            dotted_rest(k, pos + 2, leaf(out, NodeKind::Name, pos + 1))
        } else if is_mark(k, pos + 1, Symbol::Star) {
            (leaf(out, NodeKind::Star, pos + 1), pos + 2)
        } else {
            (out, pos)
        }
    } else {
        (out, pos)
    }
}

/// A column: `name`, `table . name`, `table . *`. An identifier stands at
/// `pos`.
#[verifier::opaque]
pub open spec fn column_ref(k: Seq<TokClass>, pos: int, out: Seq<Node>) -> Parsed {
    let (o, p) = dotted_rest(k, pos + 1, leaf(out, NodeKind::Name, pos));
    Ok((wrap(o, out.len() as int, NodeKind::ColumnRef, pos, p), p))
}

/// `, name`, any number of times.
#[verifier::opaque]
pub open spec fn names_rest(k: Seq<TokClass>, pos: int, out: Seq<Node>) -> Parsed
    decreases k.len() - pos,
{
    if 0 <= pos < k.len() && is_mark(k, pos, Symbol::Comma) {
        if is_ident(k, pos + 1) {
            names_rest(k, pos + 2, leaf(out, NodeKind::Name, pos + 1))
        } else {
            Err(unexpected(pos + 1, Expected::Identifier))
        }
    } else {
        Ok((out, pos))
    }
}

/// `( name , ... )`, closed by a node of the given kind.
#[verifier::opaque]
pub open spec fn name_list(k: Seq<TokClass>, pos: int, out: Seq<Node>, kind: NodeKind) -> Parsed {
    if !is_mark(k, pos, Symbol::LParen) {
        Err(unexpected(pos, Expected::Mark(Symbol::LParen)))
    } else if !is_ident(k, pos + 1) {
        Err(unexpected(pos + 1, Expected::Identifier))
    } else {
        match names_rest(k, pos + 2, leaf(out, NodeKind::Name, pos + 1)) {
            Err(e) => Err(e),
            Ok((o, p)) => if is_mark(k, p, Symbol::RParen) {
                Ok((wrap(o, out.len() as int, kind, pos, p + 1), p + 1))
            } else {
                Err(unexpected(p, Expected::Mark(Symbol::RParen)))
            },
        }
    }
}

/// An alias, if one follows: `AS name`, or a bare name.
#[verifier::opaque]
pub open spec fn alias_opt(k: Seq<TokClass>, pos: int, out: Seq<Node>) -> Parsed {
    if is_word(k, pos, Keyword::As) {
        if is_ident(k, pos + 1) {
            Ok((leaf(out, NodeKind::Alias, pos + 1), pos + 2))
        } else {
            Err(unexpected(pos + 1, Expected::Identifier))
        }
    } else if is_ident(k, pos) {
        Ok((leaf(out, NodeKind::Alias, pos), pos + 1))
    } else {
        Ok((out, pos))
    }
}

/// A table by name: `name` or `schema . name`, then an alias where
/// `aliased` allows one.
#[verifier::opaque]
pub open spec fn relation(k: Seq<TokClass>, pos: int, out: Seq<Node>, aliased: bool) -> Parsed {
    if !is_ident(k, pos) {
        Err(unexpected(pos, Expected::Identifier))
    } else {
        let o0 = leaf(out, NodeKind::Name, pos);
        let dotted = is_mark(k, pos + 1, Symbol::Dot);
        if dotted && !is_ident(k, pos + 2) {
            Err(unexpected(pos + 2, Expected::Identifier))
        } else {
            let o1 = if dotted {
                leaf(o0, NodeKind::Name, pos + 2)
            } else {
                o0
            };
            let p1 = if dotted {
                pos + 3
            } else {
                pos + 1
            };
            let named = if aliased {
                alias_opt(k, p1, o1)
            } else {
                Ok((o1, p1))
            };
            match named {
                Err(e) => Err(e),
                Ok((o2, p2)) => Ok((wrap(o2, out.len() as int, NodeKind::RangeVar, pos, p2), p2)),
            }
        }
    }
}

/// `WHEN condition THEN value`, any number of times.
pub open spec fn case_whens(k: Seq<TokClass>, pos: int, depth: nat, out: Seq<Node>) -> Parsed
    decreases depth, 0nat, k.len() - pos,
{
    if !is_word(k, pos, Keyword::When) {
        Ok((out, pos))
    } else if depth == 0 {
        Err(too_deep(pos))
    } else {
        match expr(k, pos + 1, PREC_OR, (depth - 1) as nat, out) {
            Err(e) => Err(e),
            Ok((o1, p1)) => if !is_word(k, p1, Keyword::Then) {
                Err(unexpected(p1, Expected::Word(Keyword::Then)))
            } else {
                match expr(k, p1 + 1, PREC_OR, (depth - 1) as nat, o1) {
                    Err(e) => Err(e),
                    Ok((o2, p2)) => {
                        let o3 = wrap(o2, out.len() as int, NodeKind::CaseWhen, pos, p2);
                        if pos < p2 <= k.len() {
                            case_whens(k, p2, depth, o3)
                        } else {
                            Ok((o3, p2))
                        }
                    },
                }
            },
        }
    }
}

/// `CASE [operand] WHEN ... [ELSE value] END`. The word `CASE` stands at
/// `pos`.
pub open spec fn case_expr(k: Seq<TokClass>, pos: int, depth: nat, out: Seq<Node>) -> Parsed
    decreases depth, 1nat, k.len() - pos,
{
    if depth == 0 {
        Err(too_deep(pos))
    } else {
        let operand = if is_word(k, pos + 1, Keyword::When) {
            Ok((out, pos + 1))
        } else {
            match expr(k, pos + 1, PREC_OR, (depth - 1) as nat, out) {
                Err(e) => Err(e),
                Ok((o, p)) => Ok((wrap(o, out.len() as int, NodeKind::CaseArg, pos + 1, p), p)),
            }
        };
        match operand {
            Err(e) => Err(e),
            Ok((o1, p1)) => if !is_word(k, p1, Keyword::When) {
                Err(unexpected(p1, Expected::Word(Keyword::When)))
            } else {
                match case_whens(k, p1, depth, o1) {
                    Err(e) => Err(e),
                    Ok((o2, p2)) => {
                        let otherwise = if is_word(k, p2, Keyword::Else) {
                            match expr(k, p2 + 1, PREC_OR, (depth - 1) as nat, o2) {
                                Err(e) => Err(e),
                                Ok((o, p)) => Ok(
                                    (wrap(o, o2.len() as int, NodeKind::CaseDefault, p2, p), p),
                                ),
                            }
                        } else {
                            Ok((o2, p2))
                        };
                        match otherwise {
                            Err(e) => Err(e),
                            Ok((o3, p3)) => if is_word(k, p3, Keyword::End) {
                                Ok(
                                    (
                                        wrap(o3, out.len() as int, NodeKind::CaseExpr, pos, p3 + 1),
                                        p3 + 1,
                                    ),
                                )
                            } else {
                                Err(unexpected(p3, Expected::Word(Keyword::End)))
                            },
                        }
                    },
                }
            },
        }
    }
}

/// The arguments of a call, from after the `(` to after the `)`: nothing,
/// `*`, or a list of expressions, maybe after `DISTINCT`.
pub open spec fn call_args(k: Seq<TokClass>, pos: int, depth: nat, out: Seq<Node>) -> Parsed
    decreases depth, 0nat, k.len() - pos,
{
    if is_mark(k, pos, Symbol::RParen) {
        Ok((out, pos + 1))
    } else if is_mark(k, pos, Symbol::Star) && is_mark(k, pos + 1, Symbol::RParen) {
        Ok((leaf(out, NodeKind::Star, pos), pos + 2))
    } else if depth == 0 {
        Err(too_deep(pos))
    } else {
        let distinct = is_word(k, pos, Keyword::Distinct);
        let o0 = if distinct {
            leaf(out, NodeKind::Distinct, pos)
        } else {
            out
        };
        let p0 = if distinct {
            pos + 1
        } else {
            pos
        };
        match list(k, p0, (depth - 1) as nat, o0, Item::Expr) {
            Err(e) => Err(e),
            Ok((o1, p1)) => if is_mark(k, p1, Symbol::RParen) {
                Ok((wrap(o1, o0.len() as int, NodeKind::Args, p0, p1), p1 + 1))
            } else {
                Err(unexpected(p1, Expected::Mark(Symbol::RParen)))
            },
        }
    }
}

/// A window, if one follows: `OVER ( [PARTITION BY ...] [ORDER BY ...] )`.
pub open spec fn window_opt(k: Seq<TokClass>, pos: int, depth: nat, out: Seq<Node>) -> Parsed
    decreases depth, 0nat, k.len() - pos,
{
    if !is_word(k, pos, Keyword::Over) {
        Ok((out, pos))
    } else if !is_mark(k, pos + 1, Symbol::LParen) {
        Err(unexpected(pos + 1, Expected::Mark(Symbol::LParen)))
    } else if depth == 0 {
        Err(too_deep(pos))
    } else {
        match by_clause(
            k,
            pos + 2,
            (depth - 1) as nat,
            out,
            Keyword::Partition,
            Item::Expr,
            NodeKind::PartitionClause,
        ) {
            Err(e) => Err(e),
            Ok((o1, p1)) => match by_clause(
                k,
                p1,
                (depth - 1) as nat,
                o1,
                Keyword::Order,
                Item::SortBy,
                NodeKind::SortClause,
            ) {
                Err(e) => Err(e),
                Ok((o2, p2)) => if is_mark(k, p2, Symbol::RParen) {
                    Ok((wrap(o2, out.len() as int, NodeKind::WindowDef, pos, p2 + 1), p2 + 1))
                } else {
                    Err(unexpected(p2, Expected::Mark(Symbol::RParen)))
                },
            },
        }
    }
}

/// A call: `name ( arguments ) [OVER ...]`. The name stands at `pos` and a
/// `(` after it.
pub open spec fn call(k: Seq<TokClass>, pos: int, depth: nat, out: Seq<Node>) -> Parsed
    decreases depth, 1nat, k.len() - pos,
{
    match call_args(k, pos + 2, depth, leaf(out, NodeKind::Name, pos)) {
        Err(e) => Err(e),
        Ok((o1, p1)) => match window_opt(k, p1, depth, o1) {
            Err(e) => Err(e),
            Ok((o2, p2)) => Ok((wrap(o2, out.len() as int, NodeKind::FuncCall, pos, p2), p2)),
        },
    }
}

/// What follows a `(` where an expression may start: a query, which makes
/// a subquery node, or an expression, whose parentheses leave no node.
pub open spec fn parenthesized(k: Seq<TokClass>, pos: int, depth: nat, out: Seq<Node>) -> Parsed
    decreases depth, 1nat, k.len() - pos,
{
    if depth == 0 {
        Err(too_deep(pos))
    } else if starts_query(peek(k, pos + 1)) {
        match select_stmt(k, pos + 1, (depth - 1) as nat, out) {
            Err(e) => Err(e),
            Ok((o, p)) => if is_mark(k, p, Symbol::RParen) {
                Ok((wrap(o, out.len() as int, NodeKind::SubLink, pos, p + 1), p + 1))
            } else {
                Err(unexpected(p, Expected::Mark(Symbol::RParen)))
            },
        }
    } else {
        match expr(k, pos + 1, PREC_OR, (depth - 1) as nat, out) {
            Err(e) => Err(e),
            Ok((o, p)) => if is_mark(k, p, Symbol::RParen) {
                Ok((o, p + 1))
            } else {
                Err(unexpected(p, Expected::Mark(Symbol::RParen)))
            },
        }
    }
}

/// `EXISTS ( query )`. The word `EXISTS` stands at `pos`.
pub open spec fn exists_expr(k: Seq<TokClass>, pos: int, depth: nat, out: Seq<Node>) -> Parsed
    decreases depth, 1nat, k.len() - pos,
{
    if !is_mark(k, pos + 1, Symbol::LParen) {
        Err(unexpected(pos + 1, Expected::Mark(Symbol::LParen)))
    } else if depth == 0 {
        Err(too_deep(pos))
    } else {
        match select_stmt(k, pos + 2, (depth - 1) as nat, out) {
            Err(e) => Err(e),
            Ok((o, p)) => if is_mark(k, p, Symbol::RParen) {
                Ok((wrap(o, out.len() as int, NodeKind::Exists, pos, p + 1), p + 1))
            } else {
                Err(unexpected(p, Expected::Mark(Symbol::RParen)))
            },
        }
    }
}

/// An operand without a sign: a constant, a column, `*`, a call, `CASE`,
/// `EXISTS`, or something in parentheses.
pub open spec fn primary(k: Seq<TokClass>, pos: int, depth: nat, out: Seq<Node>) -> Parsed
    decreases depth, 2nat, k.len() - pos,
{
    match peek(k, pos) {
        TokClass::Literal => Ok((leaf(out, NodeKind::Const, pos), pos + 1)),
        TokClass::Keyword(Keyword::Null) => Ok((leaf(out, NodeKind::Const, pos), pos + 1)),
        TokClass::Keyword(Keyword::True) => Ok((leaf(out, NodeKind::Const, pos), pos + 1)),
        TokClass::Keyword(Keyword::False) => Ok((leaf(out, NodeKind::Const, pos), pos + 1)),
        TokClass::Symbol(Symbol::Star) => Ok((leaf(out, NodeKind::Star, pos), pos + 1)),
        TokClass::Ident => if is_mark(k, pos + 1, Symbol::LParen) {
            call(k, pos, depth, out)
        } else {
            column_ref(k, pos, out)
        },
        TokClass::Keyword(Keyword::Case) => case_expr(k, pos, depth, out),
        TokClass::Keyword(Keyword::Exists) => exists_expr(k, pos, depth, out),
        TokClass::Symbol(Symbol::LParen) => parenthesized(k, pos, depth, out),
        _ => Err(unexpected(pos, Expected::Expression)),
    }
}

/// An operand: a primary, or one after `NOT` or a sign. `NOT` is read only
/// where the caller accepts an operator as weak as it, and takes all that
/// binds at least as strongly as itself; a sign takes an operand and its
/// casts.
pub open spec fn prefix(k: Seq<TokClass>, pos: int, min: usize, depth: nat, out: Seq<Node>) -> Parsed
    decreases depth, 3nat, k.len() - pos,
{
    let t = peek(k, pos);
    let sign = t == TokClass::Symbol(Symbol::Minus) || t == TokClass::Symbol(Symbol::Plus);
    if (t == TokClass::Keyword(Keyword::Not) && min <= PREC_NOT) || sign {
        if depth == 0 {
            Err(too_deep(pos))
        } else {
            let kind = if t == TokClass::Keyword(Keyword::Not) {
                NodeKind::Not
            } else if t == TokClass::Symbol(Symbol::Minus) {
                NodeKind::Negate
            } else {
                NodeKind::UnaryPlus
            };
            let inner = if sign {
                PREC_CAST
            } else {
                PREC_NOT
            };
            match expr(k, pos + 1, inner, (depth - 1) as nat, out) {
                Err(e) => Err(e),
                Ok((o, p)) => Ok((wrap(o, out.len() as int, kind, pos, p), p)),
            }
        }
    } else {
        primary(k, pos, depth, out)
    }
}

/// The right side of `IN`, from the `(` at `pos` to after the `)`: a query
/// or a list of expressions.
pub open spec fn in_operand(k: Seq<TokClass>, pos: int, depth: nat, out: Seq<Node>) -> Parsed
    decreases depth, 3nat, k.len() - pos,
{
    if !is_mark(k, pos, Symbol::LParen) {
        Err(unexpected(pos, Expected::Mark(Symbol::LParen)))
    } else if depth == 0 {
        Err(too_deep(pos))
    } else {
        let inner = if starts_query(peek(k, pos + 1)) {
            select_stmt(k, pos + 1, (depth - 1) as nat, out)
        } else {
            list(k, pos + 1, (depth - 1) as nat, out, Item::Expr)
        };
        match inner {
            Err(e) => Err(e),
            Ok((o, p)) => if is_mark(k, p, Symbol::RParen) {
                Ok((o, p + 1))
            } else {
                Err(unexpected(p, Expected::Mark(Symbol::RParen)))
            },
        }
    }
}

/// One operator and its right side, after the operand that started at token
/// `start` and node `base`: the nodes with the operator's node appended,
/// and the position after the right side. `Ok` with the position unchanged
/// where no operator of strength `min` or more stands at `pos`.
pub open spec fn operator(
    k: Seq<TokClass>,
    start: int,
    base: int,
    pos: int,
    min: usize,
    depth: nat,
    out: Seq<Node>,
) -> Parsed
    decreases depth, 4nat, k.len() - pos,
{
    let t = peek(k, pos);
    let negated = t == TokClass::Keyword(Keyword::Not);
    let q = if negated {
        pos + 1
    } else {
        pos
    };
    match binary_op(t) {
        Some((op, strength)) => if strength < min {
            Ok((out, pos))
        } else if depth == 0 {
            Err(too_deep(pos))
        } else {
            match expr(k, pos + 1, (strength + 1) as usize, (depth - 1) as nat, out) {
                Err(e) => Err(e),
                Ok((o, p)) => Ok((wrap(o, base, NodeKind::Binary { op }, start, p), p)),
            }
        },
        None => if t == TokClass::Keyword(Keyword::Is) && PREC_IS >= min {
            let not = is_word(k, pos + 1, Keyword::Not);
            let v = if not {
                pos + 2
            } else {
                pos + 1
            };
            match truth_of(peek(k, v)) {
                Some(value) => Ok(
                    (wrap(out, base, NodeKind::IsTest { negated: not, value }, start, v + 1), v + 1),
                ),
                None => Err(unexpected(v, Expected::TruthValue)),
            }
        } else if t == TokClass::Symbol(Symbol::Cast) && PREC_CAST >= min {
            if is_ident(k, pos + 1) {
                Ok(
                    (
                        wrap(
                            leaf(out, NodeKind::TypeName, pos + 1),
                            base,
                            NodeKind::TypeCast,
                            start,
                            pos + 2,
                        ),
                        pos + 2,
                    ),
                )
            } else {
                Err(unexpected(pos + 1, Expected::Identifier))
            }
        } else if PREC_MATCH < min {
            Ok((out, pos))
        } else if is_word(k, q, Keyword::Like) {
            if depth == 0 {
                Err(too_deep(pos))
            } else {
                match expr(k, q + 1, PREC_CONCAT, (depth - 1) as nat, out) {
                    Err(e) => Err(e),
                    Ok((o, p)) => Ok((wrap(o, base, NodeKind::Like { negated }, start, p), p)),
                }
            }
        } else if is_word(k, q, Keyword::Between) {
            if depth == 0 {
                Err(too_deep(pos))
            } else {
                match expr(k, q + 1, PREC_CONCAT, (depth - 1) as nat, out) {
                    Err(e) => Err(e),
                    Ok((o1, p1)) => if !is_word(k, p1, Keyword::And) {
                        Err(unexpected(p1, Expected::Word(Keyword::And)))
                    } else {
                        match expr(k, p1 + 1, PREC_CONCAT, (depth - 1) as nat, o1) {
                            Err(e) => Err(e),
                            Ok((o2, p2)) => Ok(
                                (wrap(o2, base, NodeKind::Between { negated }, start, p2), p2),
                            ),
                        }
                    },
                }
            }
        } else if is_word(k, q, Keyword::In) {
            match in_operand(k, q + 1, depth, out) {
                Err(e) => Err(e),
                Ok((o, p)) => Ok((wrap(o, base, NodeKind::InList { negated }, start, p), p)),
            }
        } else {
            Ok((out, pos))
        },
    }
}

/// The operators of strength `min` or more that follow an operand, each
/// with its right side; operators of one strength group to the left.
pub open spec fn operators(
    k: Seq<TokClass>,
    start: int,
    base: int,
    pos: int,
    min: usize,
    depth: nat,
    out: Seq<Node>,
) -> Parsed
    decreases depth, 5nat, k.len() - pos,
{
    match operator(k, start, base, pos, min, depth, out) {
        Err(e) => Err(e),
        Ok((o, p)) => if pos < p <= k.len() {
            operators(k, start, base, p, min, depth, o)
        } else {
            Ok((o, p))
        },
    }
}

/// An expression whose operators all have strength `min` or more.
pub open spec fn expr(k: Seq<TokClass>, pos: int, min: usize, depth: nat, out: Seq<Node>) -> Parsed
    decreases depth, 6nat, k.len() - pos,
{
    match prefix(k, pos, min, depth, out) {
        Err(e) => Err(e),
        Ok((o, p)) => operators(k, pos, out.len() as int, p, min, depth, o),
    }
}

/// A table in `FROM`: a relation, or a query in parentheses with its alias.
pub open spec fn table_primary(k: Seq<TokClass>, pos: int, depth: nat, out: Seq<Node>) -> Parsed
    decreases depth, 7nat, k.len() - pos,
{
    if !is_mark(k, pos, Symbol::LParen) {
        relation(k, pos, out, true)
    } else if depth == 0 {
        Err(too_deep(pos))
    } else {
        match select_stmt(k, pos + 1, (depth - 1) as nat, out) {
            Err(e) => Err(e),
            Ok((o1, p1)) => if !is_mark(k, p1, Symbol::RParen) {
                Err(unexpected(p1, Expected::Mark(Symbol::RParen)))
            } else {
                let a = if is_word(k, p1 + 1, Keyword::As) {
                    p1 + 2
                } else {
                    p1 + 1
                };
                if is_ident(k, a) {
                    Ok(
                        (
                            wrap(
                                leaf(o1, NodeKind::Alias, a),
                                out.len() as int,
                                NodeKind::RangeSubselect,
                                pos,
                                a + 1,
                            ),
                            a + 1,
                        ),
                    )
                } else {
                    Err(unexpected(a, Expected::Identifier))
                }
            },
        }
    }
}

/// The condition of a join: none for a cross join, else `ON expression` or
/// `USING ( names )`.
pub open spec fn join_qual(
    k: Seq<TokClass>,
    pos: int,
    depth: nat,
    out: Seq<Node>,
    kind: JoinKind,
) -> Parsed
    decreases depth, 7nat, k.len() - pos,
{
    if kind == JoinKind::Cross {
        Ok((out, pos))
    } else if is_word(k, pos, Keyword::On) {
        match expr(k, pos + 1, PREC_OR, depth, out) {
            Err(e) => Err(e),
            Ok((o, p)) => Ok((wrap(o, out.len() as int, NodeKind::JoinOn, pos, p), p)),
        }
    } else if is_word(k, pos, Keyword::Using) {
        name_list(k, pos + 1, out, NodeKind::UsingClause)
    } else {
        Err(unexpected(pos, Expected::JoinCondition))
    }
}

/// The joins that follow a table that started at token `start` and node
/// `base`; they group to the left.
pub open spec fn joins(
    k: Seq<TokClass>,
    start: int,
    base: int,
    pos: int,
    depth: nat,
    out: Seq<Node>,
) -> Parsed
    decreases depth, 8nat, k.len() - pos,
{
    match join_at(k, pos) {
        None => Ok((out, pos)),
        Some((kind, q)) => match table_primary(k, q, depth, out) {
            Err(e) => Err(e),
            Ok((o1, p1)) => match join_qual(k, p1, depth, o1, kind) {
                Err(e) => Err(e),
                Ok((o2, p2)) => {
                    let o3 = wrap(o2, base, NodeKind::JoinExpr { join: kind }, start, p2);
                    if pos < p2 <= k.len() {
                        joins(k, start, base, p2, depth, o3)
                    } else {
                        Ok((o3, p2))
                    }
                },
            },
        },
    }
}

/// A table with the joins that follow it.
pub open spec fn table_expr(k: Seq<TokClass>, pos: int, depth: nat, out: Seq<Node>) -> Parsed
    decreases depth, 9nat, k.len() - pos,
{
    match table_primary(k, pos, depth, out) {
        Err(e) => Err(e),
        Ok((o, p)) => joins(k, pos, out.len() as int, p, depth, o),
    }
}

/// One element of a select list: an expression and maybe an alias.
pub open spec fn target(k: Seq<TokClass>, pos: int, depth: nat, out: Seq<Node>) -> Parsed
    decreases depth, 9nat, k.len() - pos,
{
    match expr(k, pos, PREC_OR, depth, out) {
        Err(e) => Err(e),
        Ok((o1, p1)) => match alias_opt(k, p1, o1) {
            Err(e) => Err(e),
            Ok((o2, p2)) => Ok((wrap(o2, out.len() as int, NodeKind::ResTarget, pos, p2), p2)),
        },
    }
}

/// `column = expression`.
pub open spec fn assignment(k: Seq<TokClass>, pos: int, depth: nat, out: Seq<Node>) -> Parsed
    decreases depth, 9nat, k.len() - pos,
{
    if !is_ident(k, pos) {
        Err(unexpected(pos, Expected::Identifier))
    } else if !is_mark(k, pos + 1, Symbol::Eq) {
        Err(unexpected(pos + 1, Expected::Mark(Symbol::Eq)))
    } else {
        match expr(k, pos + 2, PREC_OR, depth, leaf(out, NodeKind::Name, pos)) {
            Err(e) => Err(e),
            Ok((o, p)) => Ok((wrap(o, out.len() as int, NodeKind::Assignment, pos, p), p)),
        }
    }
}

/// One sort key: an expression and maybe `ASC` or `DESC`.
pub open spec fn sort_by(k: Seq<TokClass>, pos: int, depth: nat, out: Seq<Node>) -> Parsed
    decreases depth, 9nat, k.len() - pos,
{
    match expr(k, pos, PREC_OR, depth, out) {
        Err(e) => Err(e),
        Ok((o, p)) => {
            let descending = is_word(k, p, Keyword::Desc);
            let p2 = if descending || is_word(k, p, Keyword::Asc) {
                p + 1
            } else {
                p
            };
            Ok((wrap(o, out.len() as int, NodeKind::SortBy { descending }, pos, p2), p2))
        },
    }
}

/// One query of a `WITH`: `name AS ( query )`.
pub open spec fn cte(k: Seq<TokClass>, pos: int, depth: nat, out: Seq<Node>) -> Parsed
    decreases depth, 9nat, k.len() - pos,
{
    if !is_ident(k, pos) {
        Err(unexpected(pos, Expected::Identifier))
    } else if !is_word(k, pos + 1, Keyword::As) {
        Err(unexpected(pos + 1, Expected::Word(Keyword::As)))
    } else if !is_mark(k, pos + 2, Symbol::LParen) {
        Err(unexpected(pos + 2, Expected::Mark(Symbol::LParen)))
    } else if depth == 0 {
        Err(too_deep(pos))
    } else {
        match select_stmt(k, pos + 3, (depth - 1) as nat, leaf(out, NodeKind::Name, pos)) {
            Err(e) => Err(e),
            Ok((o, p)) => if is_mark(k, p, Symbol::RParen) {
                Ok((wrap(o, out.len() as int, NodeKind::CommonTableExpr, pos, p + 1), p + 1))
            } else {
                Err(unexpected(p, Expected::Mark(Symbol::RParen)))
            },
        }
    }
}

/// One row of `VALUES`: `( expression , ... )`.
pub open spec fn row(k: Seq<TokClass>, pos: int, depth: nat, out: Seq<Node>) -> Parsed
    decreases depth, 9nat, k.len() - pos,
{
    if !is_mark(k, pos, Symbol::LParen) {
        Err(unexpected(pos, Expected::Mark(Symbol::LParen)))
    } else if depth == 0 {
        Err(too_deep(pos))
    } else {
        match list(k, pos + 1, (depth - 1) as nat, out, Item::Expr) {
            Err(e) => Err(e),
            Ok((o, p)) => if is_mark(k, p, Symbol::RParen) {
                Ok((wrap(o, out.len() as int, NodeKind::Row, pos, p + 1), p + 1))
            } else {
                Err(unexpected(p, Expected::Mark(Symbol::RParen)))
            },
        }
    }
}

/// One element of a list of the given sort.
pub open spec fn item(k: Seq<TokClass>, pos: int, depth: nat, out: Seq<Node>, it: Item) -> Parsed
    decreases depth, 10nat, k.len() - pos,
{
    match it {
        Item::Expr => expr(k, pos, PREC_OR, depth, out),
        Item::Target => target(k, pos, depth, out),
        Item::Table => table_expr(k, pos, depth, out),
        Item::Assignment => assignment(k, pos, depth, out),
        Item::SortBy => sort_by(k, pos, depth, out),
        Item::Cte => cte(k, pos, depth, out),
        Item::Row => row(k, pos, depth, out),
    }
}

/// `, element`, any number of times.
pub open spec fn list_rest(k: Seq<TokClass>, pos: int, depth: nat, out: Seq<Node>, it: Item) -> Parsed
    decreases depth, 11nat, k.len() - pos,
{
    if !is_mark(k, pos, Symbol::Comma) {
        Ok((out, pos))
    } else {
        match item(k, pos + 1, depth, out, it) {
            Err(e) => Err(e),
            Ok((o, p)) => if pos < p <= k.len() {
                list_rest(k, p, depth, o, it)
            } else {
                Ok((o, p))
            },
        }
    }
}

/// One element or more, with commas between.
pub open spec fn list(k: Seq<TokClass>, pos: int, depth: nat, out: Seq<Node>, it: Item) -> Parsed
    decreases depth, 12nat, k.len() - pos,
{
    match item(k, pos, depth, out, it) {
        Err(e) => Err(e),
        Ok((o, p)) => list_rest(k, p, depth, o, it),
    }
}

/// A clause of one word and a list, if the word stands at `pos`: with `BY`
/// after it where `by` says so.
pub open spec fn list_clause(
    k: Seq<TokClass>,
    pos: int,
    depth: nat,
    out: Seq<Node>,
    word: Keyword,
    by: bool,
    it: Item,
    kind: NodeKind,
) -> Parsed
    decreases depth, 13nat, k.len() - pos,
{
    if !is_word(k, pos, word) {
        Ok((out, pos))
    } else if by && !is_word(k, pos + 1, Keyword::By) {
        Err(unexpected(pos + 1, Expected::Word(Keyword::By)))
    } else {
        let p0 = if by {
            pos + 2
        } else {
            pos + 1
        };
        match list(k, p0, depth, out, it) {
            Err(e) => Err(e),
            Ok((o, p)) => Ok((wrap(o, out.len() as int, kind, pos, p), p)),
        }
    }
}

/// `word BY list`, if the word stands at `pos`.
pub open spec fn by_clause(
    k: Seq<TokClass>,
    pos: int,
    depth: nat,
    out: Seq<Node>,
    word: Keyword,
    it: Item,
    kind: NodeKind,
) -> Parsed
    decreases depth, 14nat, k.len() - pos,
{
    list_clause(k, pos, depth, out, word, true, it, kind)
}

/// `word expression`, if the word stands at `pos`.
pub open spec fn expr_clause(
    k: Seq<TokClass>,
    pos: int,
    depth: nat,
    out: Seq<Node>,
    word: Keyword,
    kind: NodeKind,
) -> Parsed
    decreases depth, 13nat, k.len() - pos,
{
    if !is_word(k, pos, word) {
        Ok((out, pos))
    } else {
        match expr(k, pos + 1, PREC_OR, depth, out) {
            Err(e) => Err(e),
            Ok((o, p)) => Ok((wrap(o, out.len() as int, kind, pos, p), p)),
        }
    }
}

/// `WITH [RECURSIVE] name AS ( query ) , ...`, if `WITH` stands at `pos`.
pub open spec fn with_clause(k: Seq<TokClass>, pos: int, depth: nat, out: Seq<Node>) -> Parsed
    decreases depth, 14nat, k.len() - pos,
{
    if !is_word(k, pos, Keyword::With) {
        Ok((out, pos))
    } else {
        let recursive = is_word(k, pos + 1, Keyword::Recursive);
        let p0 = if recursive {
            pos + 2
        } else {
            pos + 1
        };
        match list(k, p0, depth, out, Item::Cte) {
            Err(e) => Err(e),
            Ok((o, p)) => Ok(
                (wrap(o, out.len() as int, NodeKind::WithClause { recursive }, pos, p), p),
            ),
        }
    }
}

/// The clauses of a `SELECT` after its select list.
pub open spec fn select_tail(k: Seq<TokClass>, pos: int, depth: nat, out: Seq<Node>) -> Parsed
    decreases depth, 15nat, k.len() - pos,
{
    match list_clause(k, pos, depth, out, Keyword::From, false, Item::Table, NodeKind::FromClause) {
        Err(e) => Err(e),
        Ok((o1, p1)) => match expr_clause(k, p1, depth, o1, Keyword::Where, NodeKind::WhereClause) {
            Err(e) => Err(e),
            Ok((o2, p2)) => match by_clause(
                k,
                p2,
                depth,
                o2,
                Keyword::Group,
                Item::Expr,
                NodeKind::GroupClause,
            ) {
                Err(e) => Err(e),
                Ok((o3, p3)) => expr_clause(
                    k,
                    p3,
                    depth,
                    o3,
                    Keyword::Having,
                    NodeKind::HavingClause,
                ),
            },
        },
    }
}

/// The body of a simple query, without the node that closes it: `VALUES`
/// and its rows, or `SELECT` and its clauses.
pub open spec fn select_core(k: Seq<TokClass>, pos: int, depth: nat, out: Seq<Node>) -> Parsed
    decreases depth, 16nat, k.len() - pos,
{
    if is_word(k, pos, Keyword::Values) {
        match list(k, pos + 1, depth, out, Item::Row) {
            Err(e) => Err(e),
            Ok((o, p)) => Ok((wrap(o, out.len() as int, NodeKind::ValuesLists, pos, p), p)),
        }
    } else if is_word(k, pos, Keyword::Select) {
        let distinct = is_word(k, pos + 1, Keyword::Distinct);
        let o0 = if distinct {
            leaf(out, NodeKind::Distinct, pos + 1)
        } else {
            out
        };
        let p0 = if distinct {
            pos + 2
        } else {
            pos + 1
        };
        match list(k, p0, depth, o0, Item::Target) {
            Err(e) => Err(e),
            Ok((o1, p1)) => select_tail(
                k,
                p1,
                depth,
                wrap(o1, o0.len() as int, NodeKind::TargetList, p0, p1),
            ),
        }
    } else {
        Err(unexpected(pos, Expected::Query))
    }
}

/// The right side of a set operation: a query in parentheses, or a simple
/// query, which is closed here.
pub open spec fn select_operand(k: Seq<TokClass>, pos: int, depth: nat, out: Seq<Node>) -> Parsed
    decreases depth, 17nat, k.len() - pos,
{
    if is_mark(k, pos, Symbol::LParen) {
        if depth == 0 {
            Err(too_deep(pos))
        } else {
            match select_stmt(k, pos + 1, (depth - 1) as nat, out) {
                Err(e) => Err(e),
                Ok((o, p)) => if is_mark(k, p, Symbol::RParen) {
                    Ok((o, p + 1))
                } else {
                    Err(unexpected(p, Expected::Mark(Symbol::RParen)))
                },
            }
        }
    } else {
        match select_core(k, pos, depth, out) {
            Err(e) => Err(e),
            Ok((o, p)) => Ok((wrap(o, out.len() as int, NodeKind::SelectStmt, pos, p), p)),
        }
    }
}

/// The set operations that follow a query body that started at token
/// `start` and node `base`. Each closes what stands to its left as one
/// query, so they group to the left.
pub open spec fn set_ops(
    k: Seq<TokClass>,
    start: int,
    base: int,
    pos: int,
    depth: nat,
    out: Seq<Node>,
) -> Parsed
    decreases depth, 18nat, k.len() - pos,
{
    match set_op_of(peek(k, pos)) {
        None => Ok((out, pos)),
        Some(op) => {
            let all = is_word(k, pos + 1, Keyword::All);
            let q = if all {
                pos + 2
            } else {
                pos + 1
            };
            let left = wrap(out, base, NodeKind::SelectStmt, start, pos);
            match select_operand(k, q, depth, leaf(left, NodeKind::SetOp { set_op: op, all }, pos)) {
                Err(e) => Err(e),
                Ok((o, p)) => if pos < p <= k.len() {
                    set_ops(k, start, base, p, depth, o)
                } else {
                    Ok((o, p))
                },
            }
        },
    }
}

/// What may follow the body of a query: `ORDER BY`, `LIMIT`, `OFFSET`.
pub open spec fn query_tail(k: Seq<TokClass>, pos: int, depth: nat, out: Seq<Node>) -> Parsed
    decreases depth, 15nat, k.len() - pos,
{
    match by_clause(k, pos, depth, out, Keyword::Order, Item::SortBy, NodeKind::SortClause) {
        Err(e) => Err(e),
        Ok((o1, p1)) => match expr_clause(k, p1, depth, o1, Keyword::Limit, NodeKind::LimitCount) {
            Err(e) => Err(e),
            Ok((o2, p2)) => expr_clause(k, p2, depth, o2, Keyword::Offset, NodeKind::LimitOffset),
        },
    }
}

/// A query: `[WITH ...] body [set operations] [ORDER BY ...] [LIMIT ...]
/// [OFFSET ...]`, closed by one `SelectStmt` node.
pub open spec fn select_stmt(k: Seq<TokClass>, pos: int, depth: nat, out: Seq<Node>) -> Parsed
    decreases depth, 19nat, k.len() - pos,
{
    match with_clause(k, pos, depth, out) {
        Err(e) => Err(e),
        Ok((o0, p0)) => match select_core(k, p0, depth, o0) {
            Err(e) => Err(e),
            Ok((o1, p1)) => match set_ops(k, p0, o0.len() as int, p1, depth, o1) {
                Err(e) => Err(e),
                Ok((o2, p2)) => match query_tail(k, p2, depth, o2) {
                    Err(e) => Err(e),
                    Ok((o3, p3)) => Ok(
                        (wrap(o3, out.len() as int, NodeKind::SelectStmt, pos, p3), p3),
                    ),
                },
            },
        },
    }
}

/// `INSERT INTO table [( columns )] query`, or with `DEFAULT VALUES` in
/// place of the query.
#[verifier::opaque]
pub open spec fn insert_stmt(k: Seq<TokClass>, pos: int, depth: nat, out: Seq<Node>) -> Parsed {
    if !is_word(k, pos + 1, Keyword::Into) {
        Err(unexpected(pos + 1, Expected::Word(Keyword::Into)))
    } else {
        match relation(k, pos + 2, out, false) {
            Err(e) => Err(e),
            Ok((o1, p1)) => {
                let columns = if is_mark(k, p1, Symbol::LParen) {
                    name_list(k, p1, o1, NodeKind::ColumnList)
                } else {
                    Ok((o1, p1))
                };
                match columns {
                    Err(e) => Err(e),
                    Ok((o2, p2)) => if is_word(k, p2, Keyword::Default) {
                        if is_word(k, p2 + 1, Keyword::Values) {
                            Ok(
                                (
                                    wrap(
                                        wrap(
                                            o2,
                                            o2.len() as int,
                                            NodeKind::DefaultValues,
                                            p2,
                                            p2 + 2,
                                        ),
                                        out.len() as int,
                                        NodeKind::InsertStmt,
                                        pos,
                                        p2 + 2,
                                    ),
                                    p2 + 2,
                                ),
                            )
                        } else {
                            Err(unexpected(p2 + 1, Expected::Word(Keyword::Values)))
                        }
                    } else {
                        match select_stmt(k, p2, depth, o2) {
                            Err(e) => Err(e),
                            Ok((o3, p3)) => Ok(
                                (wrap(o3, out.len() as int, NodeKind::InsertStmt, pos, p3), p3),
                            ),
                        }
                    },
                }
            },
        }
    }
}

/// `UPDATE table SET column = expression , ... [WHERE condition]`.
#[verifier::opaque]
pub open spec fn update_stmt(k: Seq<TokClass>, pos: int, depth: nat, out: Seq<Node>) -> Parsed {
    match relation(k, pos + 1, out, true) {
        Err(e) => Err(e),
        Ok((o1, p1)) => if !is_word(k, p1, Keyword::SetKw) {
            Err(unexpected(p1, Expected::Word(Keyword::SetKw)))
        } else {
            match list_clause(
                k,
                p1,
                depth,
                o1,
                Keyword::SetKw,
                false,
                Item::Assignment,
                NodeKind::SetClause,
            ) {
                Err(e) => Err(e),
                Ok((o2, p2)) => match expr_clause(
                    k,
                    p2,
                    depth,
                    o2,
                    Keyword::Where,
                    NodeKind::WhereClause,
                ) {
                    Err(e) => Err(e),
                    Ok((o3, p3)) => Ok(
                        (wrap(o3, out.len() as int, NodeKind::UpdateStmt, pos, p3), p3),
                    ),
                },
            }
        },
    }
}

/// `DELETE FROM table [WHERE condition]`.
#[verifier::opaque]
pub open spec fn delete_stmt(k: Seq<TokClass>, pos: int, depth: nat, out: Seq<Node>) -> Parsed {
    if !is_word(k, pos + 1, Keyword::From) {
        Err(unexpected(pos + 1, Expected::Word(Keyword::From)))
    } else {
        match relation(k, pos + 2, out, true) {
            Err(e) => Err(e),
            Ok((o1, p1)) => match expr_clause(
                k,
                p1,
                depth,
                o1,
                Keyword::Where,
                NodeKind::WhereClause,
            ) {
                Err(e) => Err(e),
                Ok((o2, p2)) => Ok((wrap(o2, out.len() as int, NodeKind::DeleteStmt, pos, p2), p2)),
            },
        }
    }
}

/// The kind of statement that a token starts.
pub open spec fn statement_kind(t: TokClass) -> Option<NodeKind> {
    match t {
        TokClass::Keyword(Keyword::Select) => Some(NodeKind::SelectStmt),
        TokClass::Keyword(Keyword::Values) => Some(NodeKind::SelectStmt),
        TokClass::Keyword(Keyword::With) => Some(NodeKind::SelectStmt),
        TokClass::Keyword(Keyword::Insert) => Some(NodeKind::InsertStmt),
        TokClass::Keyword(Keyword::Update) => Some(NodeKind::UpdateStmt),
        TokClass::Keyword(Keyword::Delete) => Some(NodeKind::DeleteStmt),
        _ => None,
    }
}

/// One statement, closed by a `RawStmt` node.
#[verifier::opaque]
pub open spec fn statement(k: Seq<TokClass>, pos: int, depth: nat, out: Seq<Node>) -> Parsed {
    let body = match statement_kind(peek(k, pos)) {
        Some(NodeKind::SelectStmt) => select_stmt(k, pos, depth, out),
        Some(NodeKind::InsertStmt) => insert_stmt(k, pos, depth, out),
        Some(NodeKind::UpdateStmt) => update_stmt(k, pos, depth, out),
        Some(NodeKind::DeleteStmt) => delete_stmt(k, pos, depth, out),
        _ => Err(unexpected(pos, Expected::Statement)),
    };
    match body {
        Err(e) => Err(e),
        Ok((o, p)) => Ok((wrap(o, out.len() as int, NodeKind::RawStmt, pos, p), p)),
    }
}

/// The statements from `pos` to the end of the input. Semicolons separate
/// them; one that separates nothing is passed over.
pub open spec fn statements(k: Seq<TokClass>, pos: int, out: Seq<Node>) -> Result<Seq<Node>, SyntaxError>
    decreases k.len() - pos,
{
    if pos < 0 || pos >= k.len() {
        Ok(out)
    } else if is_mark(k, pos, Symbol::Semicolon) {
        statements(k, pos + 1, out)
    } else {
        match statement(k, pos, MAX_DEPTH as nat, out) {
            Err(e) => Err(e),
            Ok((o, p)) => if p >= k.len() {
                Ok(o)
            } else if !is_mark(k, p, Symbol::Semicolon) {
                Err(unexpected(p, Expected::EndOfStatement))
            } else if pos < p {
                statements(k, p + 1, o)
            } else {
                Ok(o)
            },
        }
    }
}

/// The nodes of the statements that are read before the first error, from
/// `pos` on: all statements where there is no error. A statement that is
/// read whole counts even where what follows it is the error.
pub open spec fn statements_read(k: Seq<TokClass>, pos: int, out: Seq<Node>) -> Seq<Node>
    decreases k.len() - pos,
{
    if pos < 0 || pos >= k.len() {
        out
    } else if is_mark(k, pos, Symbol::Semicolon) {
        statements_read(k, pos + 1, out)
    } else {
        match statement(k, pos, MAX_DEPTH as nat, out) {
            Err(e) => out,
            Ok((o, p)) => if p < k.len() && is_mark(k, p, Symbol::Semicolon) && pos < p {
                statements_read(k, p + 1, o)
            } else {
                o
            },
        }
    }
}

/// The tree of a token sequence, or its first syntax error.
pub open spec fn tree_of(k: Seq<TokClass>) -> Result<Seq<Node>, SyntaxError> {
    statements(k, 0, Seq::empty())
}

/// Whether the first `n` nodes are whole statements: each is closed by a
/// `RawStmt` node that stands directly after the node of the statement
/// itself, both cover the same tokens, and the kind of the statement is the
/// one that its first token announces.
pub open spec fn statements_ok(nodes: Seq<Node>, k: Seq<TokClass>, n: int) -> bool
    decreases n,
{
    if n <= 0 {
        true
    } else {
        let root = nodes[n - 1];
        let stmt = nodes[n - 2];
        &&& 2 <= n <= nodes.len()
        &&& root.kind == NodeKind::RawStmt
        &&& root.low + 2 <= n
        &&& stmt.low == root.low
        &&& stmt.first == root.first
        &&& stmt.end == root.end
        &&& statement_kind(peek(k, root.first as int)) == Some(stmt.kind)
        &&& statements_ok(nodes, k, root.low as int)
    }
}

/// Nodes appended after whole statements leave them whole statements.
pub proof fn lemma_statements_kept(a: Seq<Node>, b: Seq<Node>, k: Seq<TokClass>, n: int)
    requires
        statements_ok(a, k, n),
        n <= a.len() <= b.len(),
        forall|i: int| 0 <= i < a.len() ==> a[i] == #[trigger] b[i],
    ensures
        statements_ok(b, k, n),
    decreases n,
{
    if n > 0 {
        assert(b[n - 1] == a[n - 1]);
        assert(b[n - 2] == a[n - 2]);
        lemma_statements_kept(a, b, k, a[n - 1].low as int);
    }
}

} // verus!
