//! Walking a flat tree: from a node to its children.
//!
//! The subtrees of the children of a node stand side by side directly
//! before the node. The last child is the node before its parent; the
//! child before a child is the node before that child's subtree.

use crate::tree::{forest_ok, node_ok, Node};
use vstd::prelude::*;

verus! {

/// The roots of the subtrees that stand side by side in the nodes
/// `low..end`, in their order. The walk starts at the last of them and ends
/// where a node would reach out of the range.
pub open spec fn roots_between(nodes: Seq<Node>, low: int, end: int) -> Seq<usize>
    decreases end,
{
    if end <= low || low < 0 || end > nodes.len() || nodes[end - 1].low >= end || nodes[end
        - 1].low < low {
        Seq::empty()
    } else {
        roots_between(nodes, low, nodes[end - 1].low as int).push((end - 1) as usize)
    }
}

/// The children of the node at `i`, in source order.
pub open spec fn children_of(nodes: Seq<Node>, i: int) -> Seq<usize> {
    if 0 <= i < nodes.len() {
        roots_between(nodes, nodes[i].low as int, i)
    } else {
        Seq::empty()
    }
}

/// The statements of a tree: the roots of all its nodes.
pub open spec fn statements_of(nodes: Seq<Node>) -> Seq<usize> {
    roots_between(nodes, 0, nodes.len() as int)
}

/// Where every node of a range closes a subtree inside the range, the
/// roots tile it: the first root's subtree starts the range, each next
/// root's subtree starts directly after the root before, and the last root
/// ends the range.
pub proof fn lemma_roots_tile(nodes: Seq<Node>, low: int, end: int)
    requires
        0 <= low <= end <= nodes.len(),
        nodes.len() <= usize::MAX,
        forall|m: int| low <= m < end ==> low <= (#[trigger] nodes[m]).low <= m,
    ensures
        ({
            let r = roots_between(nodes, low, end);
            &&& (low < end) == (r.len() > 0)
            &&& r.len() > 0 ==> r.last() == end - 1 && nodes[r[0] as int].low == low
            &&& forall|k: int| 0 <= k < r.len() ==> low <= #[trigger] r[k] < end
            &&& forall|k: int|
                0 < k < r.len() ==> nodes[#[trigger] r[k] as int].low == r[k - 1] + 1
        }),
    decreases end,
{
    if low < end {
        let next = nodes[end - 1].low as int;
        assert(low <= nodes[end - 1].low <= end - 1);
        assert forall|m: int| low <= m < next implies low <= (#[trigger] nodes[m]).low <= m by {}
        lemma_roots_tile(nodes, low, next);
        let before = roots_between(nodes, low, next);
        let r = roots_between(nodes, low, end);
        assert(r == before.push((end - 1) as usize));
        assert forall|k: int| 0 <= k < r.len() implies low <= #[trigger] r[k] < end by {
            if k < before.len() {
                assert(r[k] == before[k]);
            }
        }
        assert forall|k: int| 0 < k < r.len() implies nodes[#[trigger] r[k] as int].low == r[k
            - 1] + 1 by {
            if k < before.len() {
                assert(r[k] == before[k]);
                assert(r[k - 1] == before[k - 1]);
            } else {
                assert(r[k - 1] == before[k - 1]);
            }
        }
        if before.len() > 0 {
            assert(r[0] == before[0]);
        }
    }
}

/// Finds the roots of the subtrees that stand side by side in the nodes
/// `low..end`.
pub fn roots(nodes: &Vec<Node>, low: usize, end: usize) -> (out: Vec<usize>)
    ensures
        out@ == roots_between(nodes@, low as int, end as int),
{
    let ghost all = roots_between(nodes@, low as int, end as int);
    if end > nodes.len() {
        return Vec::new();
    }
    let mut back: Vec<usize> = Vec::new();
    let mut j: usize = end;
    while j > low && nodes[j - 1].low < j && nodes[j - 1].low >= low
        invariant
            j <= end <= nodes.len(),
            all == roots_between(nodes@, low as int, end as int),
            all.len() == roots_between(nodes@, low as int, j as int).len() + back@.len(),
            forall|k: int|
                0 <= k < roots_between(nodes@, low as int, j as int).len() ==> all[k]
                    == #[trigger] roots_between(nodes@, low as int, j as int)[k],
            forall|k: int| 0 <= k < back@.len() ==> all[all.len() - 1 - k] == #[trigger] back@[k],
        decreases j,
    {
        let c: usize = j - 1;
        let ghost here = roots_between(nodes@, low as int, j as int);
        let ghost rest = roots_between(nodes@, low as int, nodes@[c as int].low as int);
        assert(here == rest.push(c));
        assert(forall|k: int| 0 <= k < rest.len() ==> here[k] == #[trigger] rest[k]);
        assert(all[here.len() - 1] == here[here.len() - 1]);
        back.push(c);
        j = nodes[c].low;
    }
    assert(roots_between(nodes@, low as int, j as int).len() == 0);
    let n: usize = back.len();
    let mut out: Vec<usize> = Vec::new();
    let mut k: usize = 0;
    while k < n
        invariant
            k <= n,
            n == back@.len(),
            all.len() == n,
            out@.len() == k,
            forall|m: int| 0 <= m < n ==> all[n - 1 - m] == #[trigger] back@[m],
            forall|m: int| 0 <= m < k ==> #[trigger] out@[m] == all[m],
        decreases n - k,
    {
        let v = back[n - 1 - k];
        assert(all[n - 1 - (n - 1 - k)] == back@[n - 1 - k]);
        out.push(v);
        k += 1;
    }
    assert(out@ =~= all);
    out
}

/// The children of the node at `i`, in source order; none for an index
/// that names no node.
pub fn children(nodes: &Vec<Node>, i: usize) -> (out: Vec<usize>)
    ensures
        out@ == children_of(nodes@, i as int),
{
    if i < nodes.len() {
        roots(nodes, nodes[i].low, i)
    } else {
        Vec::new()
    }
}

/// In a tree where every node closes a subtree, the children of a node
/// tile the nodes of its subtree, and the statements tile the whole tree.
pub proof fn lemma_children_tile(nodes: Seq<Node>, tokens: nat, i: int)
    requires
        forest_ok(nodes, tokens),
        nodes.len() <= usize::MAX,
        0 <= i < nodes.len(),
    ensures
        ({
            let low = nodes[i].low as int;
            let r = children_of(nodes, i);
            &&& (low < i) == (r.len() > 0)
            &&& r.len() > 0 ==> r.last() == i - 1 && nodes[r[0] as int].low == low
            &&& forall|k: int| 0 <= k < r.len() ==> low <= #[trigger] r[k] < i
            &&& forall|k: int|
                0 < k < r.len() ==> nodes[#[trigger] r[k] as int].low == r[k - 1] + 1
        }),
        ({
            let r = statements_of(nodes);
            &&& r.len() > 0
            &&& r.last() == nodes.len() - 1
            &&& nodes[r[0] as int].low == 0
            &&& forall|k: int|
                0 < k < r.len() ==> nodes[#[trigger] r[k] as int].low == r[k - 1] + 1
        }),
{
    reveal(node_ok);
    let low = nodes[i].low as int;
    assert(node_ok(nodes, i));
    assert forall|m: int| low <= m < i implies low <= (#[trigger] nodes[m]).low <= m by {
        assert(node_ok(nodes, m));
    }
    lemma_roots_tile(nodes, low, i);
    assert forall|m: int| 0 <= m < nodes.len() implies 0 <= (#[trigger] nodes[m]).low <= m by {
        assert(node_ok(nodes, m));
    }
    lemma_roots_tile(nodes, 0, nodes.len() as int);
}

} // verus!
