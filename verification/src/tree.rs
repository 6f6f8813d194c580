//! The syntax tree, stored flat.
//!
//! The nodes of a tree stand in one sequence in post-order: the nodes of a
//! subtree directly precede its root, children in source order. Each node
//! names the first node of its subtree (`low`), so that a node at index `i`
//! owns exactly the nodes `low..i`, and the tokens `first..end` that it was
//! read from. Building is appending: no node moves once it is written.

use vstd::prelude::*;

verus! {

/// The operators that stand between two operands.
#[derive(Clone, Copy, Debug, PartialEq, Eq, Structural)]
pub enum BinaryOp {
    Or,
    And,
    Eq,
    NotEq,
    Lt,
    LtEq,
    Gt,
    GtEq,
    Concat,
    Plus,
    Minus,
    Times,
    Divide,
    Modulo,
    Power,
}

/// The ways of joining two tables.
#[derive(Clone, Copy, Debug, PartialEq, Eq, Structural)]
pub enum JoinKind {
    Inner,
    Left,
    Right,
    Full,
    Cross,
}

/// The operations on the row sets of two queries.
#[derive(Clone, Copy, Debug, PartialEq, Eq, Structural)]
pub enum SetOpKind {
    Union,
    Intersect,
    Except,
}

/// The truth values that `IS` tests for.
#[derive(Clone, Copy, Debug, PartialEq, Eq, Structural)]
pub enum Truth {
    Null,
    True,
    False,
}

/// What a node is. A kind with a flag carries what the source chose:
/// `negated` for a `NOT` before the operator, `all` for `ALL` after a set
/// operator, `recursive` for `WITH RECURSIVE`.
#[derive(Clone, Copy, Debug, PartialEq, Eq, Structural)]
pub enum NodeKind {
    /// One statement of the input; its one child is the statement.
    RawStmt,
    SelectStmt,
    InsertStmt,
    UpdateStmt,
    DeleteStmt,
    WithClause { recursive: bool },
    CommonTableExpr,
    /// The word `DISTINCT`, in a select list or in a call.
    Distinct,
    TargetList,
    ResTarget,
    FromClause,
    WhereClause,
    GroupClause,
    HavingClause,
    SortClause,
    SortBy { descending: bool },
    LimitCount,
    LimitOffset,
    ValuesLists,
    Row,
    SetOp { set_op: SetOpKind, all: bool },
    RangeVar,
    RangeSubselect,
    JoinExpr { join: JoinKind },
    JoinOn,
    UsingClause,
    ColumnList,
    DefaultValues,
    SetClause,
    Assignment,
    /// A constant or a parameter placeholder.
    Const,
    ColumnRef,
    /// The `*` that stands for all columns.
    Star,
    /// An identifier that names a table, a column, a function or a schema.
    Name,
    /// An identifier that gives a new name to a column or a table.
    Alias,
    /// An identifier that names a type.
    TypeName,
    FuncCall,
    Args,
    WindowDef,
    PartitionClause,
    Binary { op: BinaryOp },
    Not,
    Negate,
    UnaryPlus,
    IsTest { negated: bool, value: Truth },
    Like { negated: bool },
    Between { negated: bool },
    InList { negated: bool },
    /// A query in parentheses used as a value.
    SubLink,
    Exists,
    TypeCast,
    CaseExpr,
    CaseArg,
    CaseWhen,
    CaseDefault,
}

/// A node of the flat tree.
#[derive(Clone, Copy, Debug, PartialEq, Eq, Structural)]
pub struct Node {
    pub kind: NodeKind,
    /// The index of the first token that the node covers.
    pub first: usize,
    /// The index after the last token that the node covers.
    pub end: usize,
    /// The index of the first node of the subtree that this node closes.
    pub low: usize,
}

/// Whether the node at `i` closes a subtree: its subtree starts at or before
/// it, it covers at least one token, and every node of its subtree has its
/// own subtree and its tokens inside those of the node.
#[verifier::opaque]
pub open spec fn node_ok(nodes: Seq<Node>, i: int) -> bool {
    let n = nodes[i];
    &&& n.low <= i
    &&& n.first < n.end
    &&& forall|j: int|
        n.low <= j < i ==> n.low <= (#[trigger] nodes[j]).low && n.first <= nodes[j].first
            && nodes[j].end <= n.end
}

/// Whether every node closes a subtree and covers only tokens that exist.
pub open spec fn forest_ok(nodes: Seq<Node>, tokens: nat) -> bool {
    forall|i: int| 0 <= i < nodes.len() ==> node_ok(nodes, i) && (#[trigger] nodes[i]).end <= tokens
}

/// The largest index at which a node from `from` on ends; zero where there
/// is no such node.
#[verifier::opaque]
pub open spec fn reach(nodes: Seq<Node>, from: int) -> int
    decreases nodes.len(),
{
    if nodes.len() == 0 || nodes.len() <= from {
        0
    } else {
        let before = reach(nodes.drop_last(), from);
        if nodes.last().end > before {
            nodes.last().end as int
        } else {
            before
        }
    }
}

/// Whether `new` is `old` with whole subtrees appended that cover no token
/// before `lo`.
#[verifier::opaque]
pub open spec fn shape(old: Seq<Node>, new: Seq<Node>, lo: int) -> bool {
    &&& old.len() <= new.len()
    &&& forall|i: int| 0 <= i < old.len() ==> old[i] == #[trigger] new[i]
    &&& forall|j: int|
        old.len() <= j < new.len() ==> node_ok(new, j) && old.len() <= (#[trigger] new[j]).low && lo
            <= new[j].first
}

/// Whether `new` is `old` with whole subtrees appended that cover only
/// tokens in `lo..hi`.
pub open spec fn grown(old: Seq<Node>, new: Seq<Node>, lo: int, hi: int) -> bool {
    shape(old, new, lo) && reach(new, old.len() as int) <= hi
}

/// Whether `new` is `old` with one subtree appended that the last node
/// closes: a node of the given kind over the tokens `first..end`.
pub open spec fn closed(old: Seq<Node>, new: Seq<Node>, kind: NodeKind, first: int, end: int) -> bool {
    &&& old.len() < new.len()
    &&& new.last() == (Node { kind, first: first as usize, end: end as usize, low: old.len() as usize })
}

/// The sequence with a node appended that covers the one token at `at`.
pub open spec fn leaf(out: Seq<Node>, kind: NodeKind, at: int) -> Seq<Node> {
    out.push(Node { kind, first: at as usize, end: (at + 1) as usize, low: out.len() as usize })
}

/// The sequence with a node appended that closes the nodes from `base` on
/// and covers the tokens `first..end`.
pub open spec fn wrap(out: Seq<Node>, base: int, kind: NodeKind, first: int, end: int) -> Seq<Node> {
    out.push(Node { kind, first: first as usize, end: end as usize, low: base as usize })
}

/// No node ends after the reach.
pub proof fn lemma_reach_covers(nodes: Seq<Node>, from: int, j: int)
    requires
        0 <= from <= j < nodes.len(),
    ensures
        nodes[j].end <= reach(nodes, from),
    decreases nodes.len(),
{
    reveal(reach);
    if j < nodes.len() - 1 {
        lemma_reach_covers(nodes.drop_last(), from, j);
    }
}

/// The reach is the least bound on where the nodes end.
pub proof fn lemma_reach_least(nodes: Seq<Node>, from: int, hi: int)
    requires
        0 <= hi,
        forall|j: int| from <= j < nodes.len() && 0 <= j ==> (#[trigger] nodes[j]).end <= hi,
    ensures
        reach(nodes, from) <= hi,
    decreases nodes.len(),
{
    reveal(reach);
    if nodes.len() > 0 && nodes.len() > from {
        let shorter = nodes.drop_last();
        assert forall|j: int| from <= j < shorter.len() && 0 <= j implies (
        #[trigger] shorter[j]).end <= hi by {
            assert(shorter[j] == nodes[j]);
        }
        lemma_reach_least(shorter, from, hi);
        assert(nodes.last() == nodes[nodes.len() - 1]);
    }
}

/// Nothing appended is grown.
pub broadcast proof fn lemma_shape_same(out: Seq<Node>, lo: int)
    ensures
        #[trigger] shape(out, out, lo),
{
    reveal(shape);
}

/// Where no node stands from `from` on, the reach is zero.
pub broadcast proof fn lemma_reach_none(out: Seq<Node>, from: int)
    requires
        out.len() <= from,
    ensures
        #[trigger] reach(out, from) == 0,
{
    reveal(reach);
}

pub proof fn lemma_grown_chain(
    a: Seq<Node>,
    b: Seq<Node>,
    c: Seq<Node>,
    lo: int,
    mid: int,
    from: int,
    hi: int,
)
    requires
        grown(a, b, lo, mid),
        grown(b, c, from, hi),
        lo <= from,
        mid <= hi,
        0 <= hi,
    ensures
        grown(a, c, lo, hi),
{
    reveal(shape);
    reveal(node_ok);
    assert forall|j: int| a.len() <= j < c.len() implies node_ok(c, j) && a.len() <= (
    #[trigger] c[j]).low && lo <= c[j].first && c[j].end <= hi by {
        if j < b.len() {
            assert(c[j] == b[j]);
            assert(node_ok(b, j));
            lemma_reach_covers(b, a.len() as int, j);
            assert forall|m: int| c[j].low <= m < j implies c[j].low <= (#[trigger] c[m]).low
                && c[j].first <= c[m].first && c[m].end <= c[j].end by {
                assert(c[m] == b[m]);
            }
        } else {
            lemma_reach_covers(c, b.len() as int, j);
        }
    }
    lemma_reach_least(c, a.len() as int, hi);
}

pub proof fn lemma_grown_leaf(out: Seq<Node>, kind: NodeKind, at: int)
    requires
        0 <= at < usize::MAX,
        out.len() <= usize::MAX,
    ensures
        grown(out, leaf(out, kind, at), at, at + 1),
        closed(out, leaf(out, kind, at), kind, at, at + 1),
{
    reveal(shape);
    reveal(node_ok);
    lemma_reach_least(leaf(out, kind, at), out.len() as int, at + 1);
}

pub proof fn lemma_grown_wrap(
    old: Seq<Node>,
    out: Seq<Node>,
    kind: NodeKind,
    first: int,
    end: int,
    lo: int,
    hi: int,
)
    requires
        grown(old, out, lo, hi),
        0 <= first <= lo,
        hi <= end <= usize::MAX,
        first < end,
        out.len() <= usize::MAX,
    ensures
        grown(old, wrap(out, old.len() as int, kind, first, end), first, end),
        closed(old, wrap(out, old.len() as int, kind, first, end), kind, first, end),
{
    reveal(shape);
    reveal(node_ok);
    let new = wrap(out, old.len() as int, kind, first, end);
    assert forall|j: int| old.len() <= j < new.len() implies node_ok(new, j) && old.len() <= (
    #[trigger] new[j]).low && first <= new[j].first && new[j].end <= end by {
        if j < out.len() {
            assert(new[j] == out[j]);
            assert(node_ok(out, j));
            lemma_reach_covers(out, old.len() as int, j);
            assert forall|m: int| new[j].low <= m < j implies new[j].low <= (
            #[trigger] new[m]).low && new[j].first <= new[m].first && new[m].end
                <= new[j].end by {
                assert(new[m] == out[m]);
            }
        } else {
            assert forall|m: int| new[j].low <= m < j implies new[j].low <= (
            #[trigger] new[m]).low && new[j].first <= new[m].first && new[m].end
                <= new[j].end by {
                assert(new[m] == out[m]);
                lemma_reach_covers(out, old.len() as int, m);
            }
        }
    }
    lemma_reach_least(new, old.len() as int, end);
}

pub proof fn lemma_grown_forest(old: Seq<Node>, new: Seq<Node>, lo: int, hi: int, tokens: nat)
    requires
        forest_ok(old, tokens),
        grown(old, new, lo, hi),
        hi <= tokens,
    ensures
        forest_ok(new, tokens),
{
    reveal(shape);
    reveal(node_ok);
    assert forall|i: int| 0 <= i < new.len() implies node_ok(new, i) && (#[trigger] new[i]).end
        <= tokens by {
        if i < old.len() {
            assert(new[i] == old[i]);
            assert(node_ok(old, i));
            assert forall|m: int| new[i].low <= m < i implies new[i].low <= (
            #[trigger] new[m]).low && new[i].first <= new[m].first && new[m].end
                <= new[i].end by {
                assert(new[m] == old[m]);
            }
        } else {
            lemma_reach_covers(new, old.len() as int, i);
        }
    }
}

/// What grows keeps what stood: the old nodes are the first of the new.
pub proof fn lemma_grown_keeps(old: Seq<Node>, new: Seq<Node>, lo: int, hi: int)
    requires
        grown(old, new, lo, hi),
    ensures
        old.len() <= new.len(),
        forall|i: int| 0 <= i < old.len() ==> old[i] == #[trigger] new[i],
{
    reveal(shape);
}

} // verus!
