//! The fingerprint of a tree: a digest of its shape.
//!
//! The canonical form of a tree is a byte string: the tags of its nodes,
//! from the last node to the first, so that every node stands before the
//! nodes of its subtree. A node that carries an identifier adds the
//! identifier's name, behind its length. Constants and parameter
//! placeholders add nothing: two trees that differ only in them have one
//! canonical form. Aliases count: they add their names like other
//! identifiers. The fingerprint is the version mark `02` and the SHA-1
//! digest of the canonical form in hexadecimal.

use crate::lexer::{folded, lower, DOUBLE_QUOTE};
use crate::sha1::{digest, sha1};
use crate::token::{Token, TokenKind};
use crate::tree::{BinaryOp, JoinKind, Node, NodeKind, SetOpKind, Truth};
use vstd::prelude::*;
use vstd::string::StringExecFns;
use vstd::utf8::encode_utf8;

verus! {

/// The name by which a kind of node is written out.
pub open spec fn kind_chars(kind: NodeKind) -> Seq<char> {
    match kind {
        NodeKind::RawStmt => "RawStmt"@,
        NodeKind::SelectStmt => "SelectStmt"@,
        NodeKind::InsertStmt => "InsertStmt"@,
        NodeKind::UpdateStmt => "UpdateStmt"@,
        NodeKind::DeleteStmt => "DeleteStmt"@,
        NodeKind::WithClause { recursive: false } => "WithClause"@,
        NodeKind::WithClause { recursive: true } => "WithClauseRecursive"@,
        NodeKind::CommonTableExpr => "CommonTableExpr"@,
        NodeKind::Distinct => "distinctClause"@,
        NodeKind::TargetList => "targetList"@,
        NodeKind::ResTarget => "ResTarget"@,
        NodeKind::FromClause => "fromClause"@,
        NodeKind::WhereClause => "whereClause"@,
        NodeKind::GroupClause => "groupClause"@,
        NodeKind::HavingClause => "havingClause"@,
        NodeKind::SortClause => "sortClause"@,
        NodeKind::SortBy { descending: false } => "SortBy"@,
        NodeKind::SortBy { descending: true } => "SortByDesc"@,
        NodeKind::LimitCount => "limitCount"@,
        NodeKind::LimitOffset => "limitOffset"@,
        NodeKind::ValuesLists => "valuesLists"@,
        NodeKind::Row => "RowExpr"@,
        NodeKind::SetOp { set_op: SetOpKind::Union, all: false } => "SetOpUnion"@,
        NodeKind::SetOp { set_op: SetOpKind::Union, all: true } => "SetOpUnionAll"@,
        NodeKind::SetOp { set_op: SetOpKind::Intersect, all: false } => "SetOpIntersect"@,
        NodeKind::SetOp { set_op: SetOpKind::Intersect, all: true } => "SetOpIntersectAll"@,
        NodeKind::SetOp { set_op: SetOpKind::Except, all: false } => "SetOpExcept"@,
        NodeKind::SetOp { set_op: SetOpKind::Except, all: true } => "SetOpExceptAll"@,
        NodeKind::RangeVar => "RangeVar"@,
        NodeKind::RangeSubselect => "RangeSubselect"@,
        NodeKind::JoinExpr { join: JoinKind::Inner } => "JoinExprInner"@,
        NodeKind::JoinExpr { join: JoinKind::Left } => "JoinExprLeft"@,
        NodeKind::JoinExpr { join: JoinKind::Right } => "JoinExprRight"@,
        NodeKind::JoinExpr { join: JoinKind::Full } => "JoinExprFull"@,
        NodeKind::JoinExpr { join: JoinKind::Cross } => "JoinExprCross"@,
        NodeKind::JoinOn => "quals"@,
        NodeKind::UsingClause => "usingClause"@,
        NodeKind::ColumnList => "cols"@,
        NodeKind::DefaultValues => "DefaultValues"@,
        NodeKind::SetClause => "SetClause"@,
        NodeKind::Assignment => "Assignment"@,
        NodeKind::Const => "A_Const"@,
        NodeKind::ColumnRef => "ColumnRef"@,
        NodeKind::Star => "A_Star"@,
        NodeKind::Name => "String"@,
        NodeKind::Alias => "Alias"@,
        NodeKind::TypeName => "TypeName"@,
        NodeKind::FuncCall => "FuncCall"@,
        NodeKind::Args => "args"@,
        NodeKind::WindowDef => "WindowDef"@,
        NodeKind::PartitionClause => "partitionClause"@,
        NodeKind::Binary { op: BinaryOp::Or } => "BoolExprOr"@,
        NodeKind::Binary { op: BinaryOp::And } => "BoolExprAnd"@,
        NodeKind::Binary { op: BinaryOp::Eq } => "A_Expr="@,
        NodeKind::Binary { op: BinaryOp::NotEq } => "A_Expr<>"@,
        NodeKind::Binary { op: BinaryOp::Lt } => "A_Expr<"@,
        NodeKind::Binary { op: BinaryOp::LtEq } => "A_Expr<="@,
        NodeKind::Binary { op: BinaryOp::Gt } => "A_Expr>"@,
        NodeKind::Binary { op: BinaryOp::GtEq } => "A_Expr>="@,
        NodeKind::Binary { op: BinaryOp::Concat } => "A_Expr||"@,
        NodeKind::Binary { op: BinaryOp::Plus } => "A_Expr+"@,
        NodeKind::Binary { op: BinaryOp::Minus } => "A_Expr-"@,
        NodeKind::Binary { op: BinaryOp::Times } => "A_Expr*"@,
        NodeKind::Binary { op: BinaryOp::Divide } => "A_Expr/"@,
        NodeKind::Binary { op: BinaryOp::Modulo } => "A_Expr%"@,
        NodeKind::Binary { op: BinaryOp::Power } => "A_Expr^"@,
        NodeKind::Not => "BoolExprNot"@,
        NodeKind::Negate => "A_ExprNegate"@,
        NodeKind::UnaryPlus => "A_ExprPlus"@,
        NodeKind::IsTest { negated: false, value: Truth::Null } => "TestIsNull"@,
        NodeKind::IsTest { negated: true, value: Truth::Null } => "TestIsNotNull"@,
        NodeKind::IsTest { negated: false, value: Truth::True } => "TestIsTrue"@,
        NodeKind::IsTest { negated: true, value: Truth::True } => "TestIsNotTrue"@,
        NodeKind::IsTest { negated: false, value: Truth::False } => "TestIsFalse"@,
        NodeKind::IsTest { negated: true, value: Truth::False } => "TestIsNotFalse"@,
        NodeKind::Like { negated: false } => "A_ExprLike"@,
        NodeKind::Like { negated: true } => "A_ExprNotLike"@,
        NodeKind::Between { negated: false } => "A_ExprBetween"@,
        NodeKind::Between { negated: true } => "A_ExprNotBetween"@,
        NodeKind::InList { negated: false } => "A_ExprIn"@,
        NodeKind::InList { negated: true } => "A_ExprNotIn"@,
        NodeKind::SubLink => "SubLink"@,
        NodeKind::Exists => "SubLinkExists"@,
        NodeKind::TypeCast => "TypeCast"@,
        NodeKind::CaseExpr => "CaseExpr"@,
        NodeKind::CaseArg => "arg"@,
        NodeKind::CaseWhen => "CaseWhen"@,
        NodeKind::CaseDefault => "defresult"@,
    }
}

/// The name by which a kind of node is written out.
pub fn kind_name(kind: NodeKind) -> (name: &'static str)
    ensures
        name@ == kind_chars(kind),
{
    match kind {
        NodeKind::RawStmt => "RawStmt",
        NodeKind::SelectStmt => "SelectStmt",
        NodeKind::InsertStmt => "InsertStmt",
        NodeKind::UpdateStmt => "UpdateStmt",
        NodeKind::DeleteStmt => "DeleteStmt",
        NodeKind::WithClause { recursive: false } => "WithClause",
        NodeKind::WithClause { recursive: true } => "WithClauseRecursive",
        NodeKind::CommonTableExpr => "CommonTableExpr",
        NodeKind::Distinct => "distinctClause",
        NodeKind::TargetList => "targetList",
        NodeKind::ResTarget => "ResTarget",
        NodeKind::FromClause => "fromClause",
        NodeKind::WhereClause => "whereClause",
        NodeKind::GroupClause => "groupClause",
        NodeKind::HavingClause => "havingClause",
        NodeKind::SortClause => "sortClause",
        NodeKind::SortBy { descending: false } => "SortBy",
        NodeKind::SortBy { descending: true } => "SortByDesc",
        NodeKind::LimitCount => "limitCount",
        NodeKind::LimitOffset => "limitOffset",
        NodeKind::ValuesLists => "valuesLists",
        NodeKind::Row => "RowExpr",
        NodeKind::SetOp { set_op: SetOpKind::Union, all: false } => "SetOpUnion",
        NodeKind::SetOp { set_op: SetOpKind::Union, all: true } => "SetOpUnionAll",
        NodeKind::SetOp { set_op: SetOpKind::Intersect, all: false } => "SetOpIntersect",
        NodeKind::SetOp { set_op: SetOpKind::Intersect, all: true } => "SetOpIntersectAll",
        NodeKind::SetOp { set_op: SetOpKind::Except, all: false } => "SetOpExcept",
        NodeKind::SetOp { set_op: SetOpKind::Except, all: true } => "SetOpExceptAll",
        NodeKind::RangeVar => "RangeVar",
        NodeKind::RangeSubselect => "RangeSubselect",
        NodeKind::JoinExpr { join: JoinKind::Inner } => "JoinExprInner",
        NodeKind::JoinExpr { join: JoinKind::Left } => "JoinExprLeft",
        NodeKind::JoinExpr { join: JoinKind::Right } => "JoinExprRight",
        NodeKind::JoinExpr { join: JoinKind::Full } => "JoinExprFull",
        NodeKind::JoinExpr { join: JoinKind::Cross } => "JoinExprCross",
        NodeKind::JoinOn => "quals",
        NodeKind::UsingClause => "usingClause",
        NodeKind::ColumnList => "cols",
        NodeKind::DefaultValues => "DefaultValues",
        NodeKind::SetClause => "SetClause",
        NodeKind::Assignment => "Assignment",
        NodeKind::Const => "A_Const",
        NodeKind::ColumnRef => "ColumnRef",
        NodeKind::Star => "A_Star",
        NodeKind::Name => "String",
        NodeKind::Alias => "Alias",
        NodeKind::TypeName => "TypeName",
        NodeKind::FuncCall => "FuncCall",
        NodeKind::Args => "args",
        NodeKind::WindowDef => "WindowDef",
        NodeKind::PartitionClause => "partitionClause",
        NodeKind::Binary { op: BinaryOp::Or } => "BoolExprOr",
        NodeKind::Binary { op: BinaryOp::And } => "BoolExprAnd",
        NodeKind::Binary { op: BinaryOp::Eq } => "A_Expr=",
        NodeKind::Binary { op: BinaryOp::NotEq } => "A_Expr<>",
        NodeKind::Binary { op: BinaryOp::Lt } => "A_Expr<",
        NodeKind::Binary { op: BinaryOp::LtEq } => "A_Expr<=",
        NodeKind::Binary { op: BinaryOp::Gt } => "A_Expr>",
        NodeKind::Binary { op: BinaryOp::GtEq } => "A_Expr>=",
        NodeKind::Binary { op: BinaryOp::Concat } => "A_Expr||",
        NodeKind::Binary { op: BinaryOp::Plus } => "A_Expr+",
        NodeKind::Binary { op: BinaryOp::Minus } => "A_Expr-",
        NodeKind::Binary { op: BinaryOp::Times } => "A_Expr*",
        NodeKind::Binary { op: BinaryOp::Divide } => "A_Expr/",
        NodeKind::Binary { op: BinaryOp::Modulo } => "A_Expr%",
        NodeKind::Binary { op: BinaryOp::Power } => "A_Expr^",
        NodeKind::Not => "BoolExprNot",
        NodeKind::Negate => "A_ExprNegate",
        NodeKind::UnaryPlus => "A_ExprPlus",
        NodeKind::IsTest { negated: false, value: Truth::Null } => "TestIsNull",
        NodeKind::IsTest { negated: true, value: Truth::Null } => "TestIsNotNull",
        NodeKind::IsTest { negated: false, value: Truth::True } => "TestIsTrue",
        NodeKind::IsTest { negated: true, value: Truth::True } => "TestIsNotTrue",
        NodeKind::IsTest { negated: false, value: Truth::False } => "TestIsFalse",
        NodeKind::IsTest { negated: true, value: Truth::False } => "TestIsNotFalse",
        NodeKind::Like { negated: false } => "A_ExprLike",
        NodeKind::Like { negated: true } => "A_ExprNotLike",
        NodeKind::Between { negated: false } => "A_ExprBetween",
        NodeKind::Between { negated: true } => "A_ExprNotBetween",
        NodeKind::InList { negated: false } => "A_ExprIn",
        NodeKind::InList { negated: true } => "A_ExprNotIn",
        NodeKind::SubLink => "SubLink",
        NodeKind::Exists => "SubLinkExists",
        NodeKind::TypeCast => "TypeCast",
        NodeKind::CaseExpr => "CaseExpr",
        NodeKind::CaseArg => "arg",
        NodeKind::CaseWhen => "CaseWhen",
        NodeKind::CaseDefault => "defresult",
    }
}

/// What a node of a kind adds to the canonical form before any name:
/// nothing for a constant, the kind's name for the others, followed by the
/// field name `stmt` for the node that closes a statement.
pub open spec fn tag_chars(kind: NodeKind) -> Seq<char> {
    match kind {
        NodeKind::Const => ""@,
        NodeKind::RawStmt => "RawStmtstmt"@,
        _ => kind_chars(kind),
    }
}

pub fn tag_text(kind: NodeKind) -> (tag: &'static str)
    ensures
        tag@ == tag_chars(kind),
{
    match kind {
        NodeKind::Const => "",
        NodeKind::RawStmt => "RawStmtstmt",
        _ => kind_name(kind),
    }
}

/// Whether a node of this kind stands for one identifier.
pub open spec fn carries_name(kind: NodeKind) -> bool {
    kind == NodeKind::Name || kind == NodeKind::Alias || kind == NodeKind::TypeName
}

/// The text of a quoted identifier from `pos` to `end`, after `acc`: two
/// double quotes in a row stand for one.
pub open spec fn unquoted(src: Seq<u8>, pos: int, end: int, acc: Seq<u8>) -> Seq<u8>
    decreases end - pos,
{
    if pos < 0 || pos >= end || end > src.len() {
        acc
    } else if src[pos] == DOUBLE_QUOTE && pos + 1 < end && src[pos + 1] == DOUBLE_QUOTE {
        unquoted(src, pos + 2, end, acc.push(DOUBLE_QUOTE))
    } else {
        unquoted(src, pos + 1, end, acc.push(src[pos]))
    }
}

/// The name that token `i` gives: for an unquoted identifier its text in
/// lower case, for a quoted one the text between the quotes; nothing for a
/// token that is no identifier or does not lie in the source.
pub open spec fn name_at(src: Seq<u8>, tokens: Seq<Token>, i: int) -> Seq<u8> {
    if 0 <= i < tokens.len() && tokens[i].start < tokens[i].end <= src.len() {
        let t = tokens[i];
        match t.kind {
            TokenKind::Ident => folded(src.subrange(t.start as int, t.end as int)),
            TokenKind::QuotedIdent => unquoted(src, t.start + 1, t.end - 1, Seq::empty()),
            _ => Seq::empty(),
        }
    } else {
        Seq::empty()
    }
}

/// The names that the tokens give, one for one.
pub open spec fn names_of(src: Seq<u8>, tokens: Seq<Token>) -> Seq<Seq<u8>> {
    Seq::new(tokens.len(), |i: int| name_at(src, tokens, i))
}

/// The eight big-endian bytes of a length, modulo 2^64.
pub open spec fn length_prefix(len: nat) -> Seq<u8> {
    let n = (len % 0x1_0000_0000_0000_0000) as u64;
    seq![
        (n >> 56) as u8,
        (n >> 48) as u8,
        (n >> 40) as u8,
        (n >> 32) as u8,
        (n >> 24) as u8,
        (n >> 16) as u8,
        (n >> 8) as u8,
        n as u8,
    ]
}

/// What one node adds to the canonical form.
pub open spec fn emission(names: Seq<Seq<u8>>, node: Node) -> Seq<u8> {
    if carries_name(node.kind) && node.first < names.len() {
        encode_utf8(tag_chars(node.kind)) + length_prefix(names[node.first as int].len())
            + names[node.first as int]
    } else {
        encode_utf8(tag_chars(node.kind))
    }
}

/// The canonical form of the first `n` nodes: the last of them first.
pub open spec fn canonical(names: Seq<Seq<u8>>, nodes: Seq<Node>, n: nat) -> Seq<u8>
    decreases n,
{
    if n == 0 {
        Seq::empty()
    } else {
        emission(names, nodes[n - 1]) + canonical(names, nodes, (n - 1) as nat)
    }
}

/// The character of a hexadecimal digit.
pub open spec fn hex_char(n: u8) -> char {
    if n < 10 {
        (0x30 + n) as char
    } else {
        (0x57 + n) as char
    }
}

/// Bytes in hexadecimal, two lower-case digits each.
pub open spec fn hex(bytes: Seq<u8>) -> Seq<char>
    decreases bytes.len(),
{
    if bytes.len() == 0 {
        Seq::empty()
    } else {
        hex(bytes.drop_last()).push(hex_char(bytes.last() / 16)).push(hex_char(bytes.last() % 16))
    }
}

/// The fingerprint that belongs to a canonical form.
pub open spec fn fingerprint_text(canon: Seq<u8>) -> Seq<char> {
    "02"@ + hex(sha1(canon))
}

fn hex_digit(n: u8) -> (s: &'static str)
    requires
        n < 16,
    ensures
        s@ == seq![hex_char(n)],
{
    proof {
        reveal_strlit("0");
        reveal_strlit("1");
        reveal_strlit("2");
        reveal_strlit("3");
        reveal_strlit("4");
        reveal_strlit("5");
        reveal_strlit("6");
        reveal_strlit("7");
        reveal_strlit("8");
        reveal_strlit("9");
        reveal_strlit("a");
        reveal_strlit("b");
        reveal_strlit("c");
        reveal_strlit("d");
        reveal_strlit("e");
        reveal_strlit("f");
    }
    let s = if n == 0 {
        "0"
    } else if n == 1 {
        "1"
    } else if n == 2 {
        "2"
    } else if n == 3 {
        "3"
    } else if n == 4 {
        "4"
    } else if n == 5 {
        "5"
    } else if n == 6 {
        "6"
    } else if n == 7 {
        "7"
    } else if n == 8 {
        "8"
    } else if n == 9 {
        "9"
    } else if n == 10 {
        "a"
    } else if n == 11 {
        "b"
    } else if n == 12 {
        "c"
    } else if n == 13 {
        "d"
    } else if n == 14 {
        "e"
    } else {
        "f"
    };
    assert(s@ =~= seq![hex_char(n)]);
    s
}

/// Writes a digest out as a fingerprint.
pub fn fingerprint_string(bytes: &Vec<u8>) -> (s: String)
    ensures
        s@ == "02"@ + hex(bytes@),
{
    let mut s = String::from_str("02");
    let mut i: usize = 0;
    while i < bytes.len()
        invariant
            i <= bytes.len(),
            s@ == "02"@ + hex(bytes@.subrange(0, i as int)),
        decreases bytes.len() - i,
    {
        let b = bytes[i];
        let ghost before = s@;
        s.append(hex_digit(b / 16));
        s.append(hex_digit(b % 16));
        proof {
            let longer = bytes@.subrange(0, i + 1);
            assert(longer.drop_last() =~= bytes@.subrange(0, i as int));
            assert(longer.last() == b);
            assert(s@ =~= "02"@ + hex(longer));
        }
        i += 1;
    }
    assert(bytes@.subrange(0, bytes@.len() as int) =~= bytes@);
    s
}

fn unquote(src: &[u8], from: usize, to: usize) -> (name: Vec<u8>)
    requires
        from <= to <= src.len(),
    ensures
        name@ == unquoted(src@, from as int, to as int, Seq::empty()),
{
    let mut name: Vec<u8> = Vec::new();
    let mut i: usize = from;
    while i < to
        invariant
            from <= i <= to <= src.len(),
            unquoted(src@, from as int, to as int, Seq::empty()) == unquoted(
                src@,
                i as int,
                to as int,
                name@,
            ),
        decreases to - i,
    {
        if src[i] == DOUBLE_QUOTE && i + 1 < to && src[i + 1] == DOUBLE_QUOTE {
            name.push(DOUBLE_QUOTE);
            i += 2;
        } else {
            name.push(src[i]);
            i += 1;
        }
    }
    name
}

/// The name that token `i` gives.
pub fn token_name(src: &[u8], tokens: &Vec<Token>, i: usize) -> (name: Vec<u8>)
    ensures
        name@ == name_at(src@, tokens@, i as int),
{
    if i < tokens.len() && tokens[i].start < tokens[i].end && tokens[i].end <= src.len() {
        let t = tokens[i];
        match t.kind {
            TokenKind::Ident => crate::lexer::fold_word(src, t.start, t.end),
            TokenKind::QuotedIdent => if t.end - t.start < 2 {
                Vec::new()
            } else {
                unquote(src, t.start + 1, t.end - 1)
            },
            _ => Vec::new(),
        }
    } else {
        Vec::new()
    }
}

fn push_length(out: &mut Vec<u8>, len: usize)
    ensures
        final(out)@ == old(out)@ + length_prefix(len as nat),
{
    let n: u64 = len as u64;
    out.push(#[verifier::truncate] ((n >> 56) as u8));
    out.push(#[verifier::truncate] ((n >> 48) as u8));
    out.push(#[verifier::truncate] ((n >> 40) as u8));
    out.push(#[verifier::truncate] ((n >> 32) as u8));
    out.push(#[verifier::truncate] ((n >> 24) as u8));
    out.push(#[verifier::truncate] ((n >> 16) as u8));
    out.push(#[verifier::truncate] ((n >> 8) as u8));
    out.push(#[verifier::truncate] (n as u8));
    assert(out@ =~= old(out)@ + length_prefix(len as nat));
}

/// Appends what one node adds to the canonical form.
fn emit(src: &[u8], tokens: &Vec<Token>, node: &Node, out: &mut Vec<u8>)
    ensures
        final(out)@ == old(out)@ + emission(names_of(src@, tokens@), *node),
{
    let tag = tag_text(node.kind);
    out.extend_from_slice(tag.as_bytes());
    let named = match node.kind {
        NodeKind::Name => true,
        NodeKind::Alias => true,
        NodeKind::TypeName => true,
        _ => false,
    };
    if named && node.first < tokens.len() {
        let name = token_name(src, tokens, node.first);
        push_length(out, name.len());
        out.extend_from_slice(name.as_slice());
        assert(out@ =~= old(out)@ + emission(names_of(src@, tokens@), *node));
    }
}

/// Writes the canonical form of a tree.
pub fn canonical_bytes(src: &[u8], tokens: &Vec<Token>, nodes: &Vec<Node>) -> (out: Vec<u8>)
    ensures
        out@ == canonical(names_of(src@, tokens@), nodes@, nodes@.len()),
{
    let ghost names = names_of(src@, tokens@);
    let mut out: Vec<u8> = Vec::new();
    let mut i: usize = nodes.len();
    while i > 0
        invariant
            i <= nodes.len(),
            names == names_of(src@, tokens@),
            out@ + canonical(names, nodes@, i as nat) == canonical(names, nodes@, nodes@.len()),
        decreases i,
    {
        i -= 1;
        let ghost before = out@;
        emit(src, tokens, &nodes[i], &mut out);
        assert(out@ + canonical(names, nodes@, i as nat) =~= before + canonical(
            names,
            nodes@,
            (i + 1) as nat,
        ));
    }
    assert(out@ + Seq::<u8>::empty() =~= out@);
    out
}

} // verus!
