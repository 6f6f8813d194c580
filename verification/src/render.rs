//! A tree written out as a table, one row for each node.

use crate::fingerprint::{kind_chars, kind_name};
use crate::token::Token;
use crate::tree::Node;
use vstd::prelude::*;
use vstd::string::StringExecFns;

verus! {

/// The character of a decimal digit.
pub open spec fn digit_char(d: nat) -> char {
    (0x30 + d) as char
}

/// A number in decimal.
pub open spec fn decimal_chars(n: nat) -> Seq<char>
    decreases n,
{
    if n < 10 {
        seq![digit_char(n)]
    } else {
        decimal_chars(n / 10).push(digit_char(n % 10))
    }
}

/// The offset of the first byte that a node covers; zero for a node that
/// names no token.
pub open spec fn first_byte(tokens: Seq<Token>, node: Node) -> usize {
    if node.first < tokens.len() {
        tokens[node.first as int].start
    } else {
        0
    }
}

/// The offset after the last byte that a node covers; zero for a node that
/// names no token.
pub open spec fn end_byte(tokens: Seq<Token>, node: Node) -> usize {
    if 0 < node.end <= tokens.len() {
        tokens[node.end - 1].end
    } else {
        0
    }
}

/// The row of a node: the name of its kind, the offsets of its first byte
/// and after its last byte, and the index of the first node of its
/// subtree, with a space between and a line feed after.
pub open spec fn row_chars(tokens: Seq<Token>, node: Node) -> Seq<char> {
    kind_chars(node.kind) + " "@ + decimal_chars(first_byte(tokens, node) as nat) + " "@
        + decimal_chars(end_byte(tokens, node) as nat) + " "@ + decimal_chars(node.low as nat)
        + "\n"@
}

/// The rows of the first `n` nodes, in their order.
pub open spec fn table_chars(tokens: Seq<Token>, nodes: Seq<Node>, n: nat) -> Seq<char>
    decreases n,
{
    if n == 0 {
        Seq::empty()
    } else {
        table_chars(tokens, nodes, (n - 1) as nat) + row_chars(tokens, nodes[n - 1])
    }
}

fn digit_text(d: usize) -> (s: &'static str)
    requires
        d < 10,
    ensures
        s@ == seq![digit_char(d as nat)],
{
    proof {
        reveal_strlit("0");
        reveal_strlit("1");
        reveal_strlit("2");
        reveal_strlit("3");
        reveal_strlit("4");
        reveal_strlit("5");
        reveal_strlit("6");
        reveal_strlit("7");
        reveal_strlit("8");
        reveal_strlit("9");
    }
    let s = if d == 0 {
        "0"
    } else if d == 1 {
        "1"
    } else if d == 2 {
        "2"
    } else if d == 3 {
        "3"
    } else if d == 4 {
        "4"
    } else if d == 5 {
        "5"
    } else if d == 6 {
        "6"
    } else if d == 7 {
        "7"
    } else if d == 8 {
        "8"
    } else {
        "9"
    };
    assert(s@ =~= seq![digit_char(d as nat)]);
    s
}

/// Appends a number in decimal.
pub fn push_decimal(out: &mut String, n: usize)
    ensures
        final(out)@ == old(out)@ + decimal_chars(n as nat),
    decreases n,
{
    if n >= 10 {
        push_decimal(out, n / 10);
    }
    out.append(digit_text(n % 10));
    assert(out@ =~= old(out)@ + decimal_chars(n as nat));
}

fn push_row(out: &mut String, tokens: &Vec<Token>, node: &Node)
    ensures
        final(out)@ == old(out)@ + row_chars(tokens@, *node),
{
    let first: usize = if node.first < tokens.len() {
        tokens[node.first].start
    } else {
        0
    };
    let end: usize = if 0 < node.end && node.end <= tokens.len() {
        tokens[node.end - 1].end
    } else {
        0
    };
    out.append(kind_name(node.kind));
    out.append(" ");
    push_decimal(out, first);
    out.append(" ");
    push_decimal(out, end);
    out.append(" ");
    push_decimal(out, node.low);
    out.append("\n");
    assert(out@ =~= old(out)@ + row_chars(tokens@, *node));
}

/// Writes the nodes of a tree out as a table.
pub fn table(tokens: &Vec<Token>, nodes: &Vec<Node>) -> (out: String)
    ensures
        out@ == table_chars(tokens@, nodes@, nodes@.len()),
{
    let mut out = String::new();
    let mut i: usize = 0;
    while i < nodes.len()
        invariant
            i <= nodes.len(),
            out@ == table_chars(tokens@, nodes@, i as nat),
        decreases nodes.len() - i,
    {
        push_row(&mut out, tokens, &nodes[i]);
        i += 1;
    }
    out
}

} // verus!
