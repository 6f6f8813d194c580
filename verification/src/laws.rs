//! What holds of the library as a whole, proved from its specifications.

use crate::error::{Cause, QueryError};
use crate::grammar::{
    expr, item, list, parenthesized, prefix, primary, select_core, select_stmt, statement,
    statements, statements_read, target, too_deep, tree_of, with_clause, Item, SyntaxError,
    SyntaxErrorKind, MAX_DEPTH,
};
use crate::token::{Keyword, Symbol};
use crate::fingerprint::{
    canonical, carries_name, emission, fingerprint_text, hex, hex_char, length_prefix, name_at,
    names_of, tag_chars, unquoted,
};
use crate::render::{end_byte, first_byte};
use crate::tree::{forest_ok, node_ok};
use vstd::utf8::encode_utf8;
use crate::sha1::sha1;
use crate::lexer::{
    lex, lex_from, token_at, token_at_advances, trivia_end, trivia_end_in_bounds, well_spaced,
};
use crate::token::{class_of, classes, TokClass, Token, TokenKind};
use crate::tree::Node;
use crate::{analysis, fingerprint_of, is_text};
use vstd::prelude::*;

verus! {

/// Two results that are the same to a caller: the same text, or the same
/// error.
pub open spec fn same_result(a: Result<String, QueryError>, b: Result<String, QueryError>) -> bool {
    match (a, b) {
        (Ok(s), Ok(t)) => s@ == t@,
        (Err(e), Err(f)) => e == f,
        _ => false,
    }
}

/// The fingerprint of a query is a function of its text: whatever two
/// calls on one text hand back is the same.
pub proof fn fingerprint_is_repeatable(
    query: Seq<u8>,
    first: Result<String, QueryError>,
    second: Result<String, QueryError>,
)
    requires
        is_text(first, fingerprint_of(query)),
        is_text(second, fingerprint_of(query)),
    ensures
        same_result(first, second),
{
}

/// The outcome of parsing is a function of the text: two calls on one text
/// fail together, with one error at one place, or give the same tokens and
/// nodes.
pub proof fn parse_is_repeatable(
    query: Seq<u8>,
    first: Result<(Seq<Token>, Seq<Node>), QueryError>,
    second: Result<(Seq<Token>, Seq<Node>), QueryError>,
)
    requires
        first == analysis(query),
        second == analysis(query),
    ensures
        first == second,
{
}

/// The tokens of a text that fits in memory lie in it in order, none
/// empty, none overlapping.
pub proof fn tokens_are_well_spaced(src: Seq<u8>)
    requires
        src.len() <= usize::MAX,
    ensures
        lex(src) matches Ok(tokens) ==> well_spaced(tokens, src.len()),
{
    lemma_lex_from_well_spaced(src, 0, Seq::empty());
}

proof fn lemma_lex_from_well_spaced(src: Seq<u8>, pos: int, acc: Seq<Token>)
    requires
        0 <= pos <= src.len(),
        src.len() <= usize::MAX,
        well_spaced(acc, src.len()),
        forall|i: int| 0 <= i < acc.len() ==> (#[trigger] acc[i]).end <= pos,
    ensures
        lex_from(src, pos, acc) matches Ok(tokens) ==> well_spaced(tokens, src.len()),
    decreases src.len() - pos,
{
    trivia_end_in_bounds(src, pos);
    match trivia_end(src, pos) {
        Err(_) => {},
        Ok(p) => {
            if p < src.len() {
                token_at_advances(src, p);
                match token_at(src, p) {
                    Err(_) => {},
                    Ok((kind, end)) => {
                        let t = Token { kind, start: p as usize, end: end as usize };
                        let more = acc.push(t);
                        assert forall|i: int| 0 <= i < more.len() implies (
                        #[trigger] more[i]).start < more[i].end <= src.len() by {
                            if i < acc.len() {
                                assert(more[i] == acc[i]);
                            }
                        }
                        assert forall|i: int, j: int| 0 <= i < j < more.len() implies (
                        #[trigger] more[i]).end <= (#[trigger] more[j]).start by {
                            assert(more[i] == acc[i]);
                            if j < acc.len() {
                                assert(more[j] == acc[j]);
                            }
                        }
                        assert forall|i: int| 0 <= i < more.len() implies (
                        #[trigger] more[i]).end <= end by {
                            if i < acc.len() {
                                assert(more[i] == acc[i]);
                            }
                        }
                        lemma_lex_from_well_spaced(src, end, more);
                    },
                }
            }
        },
    }
}

/// The bytes that a token covers.
pub open spec fn text_of(src: Seq<u8>, t: Token) -> Seq<u8> {
    src.subrange(t.start as int, t.end as int)
}

/// Whether two texts differ in nothing but the layout between their
/// tokens and the constants that they hold: both have tokens, as many, and
/// each token of one is a constant where the other's is one, and is else
/// of the same kind and has the same text.
pub open spec fn differ_only_in_constants(q1: Seq<u8>, q2: Seq<u8>) -> bool {
    match (lex(q1), lex(q2)) {
        (Ok(t1), Ok(t2)) => {
            &&& t1.len() == t2.len()
            &&& forall|i: int|
                0 <= i < t1.len() ==> {
                    ||| class_of(#[trigger] t1[i].kind) == TokClass::Literal && class_of(t2[i].kind)
                        == TokClass::Literal
                    ||| t1[i].kind == t2[i].kind && text_of(q1, t1[i]) == text_of(q2, t2[i])
                }
        },
        _ => false,
    }
}

/// Whether two texts have tokens of the same classes, one for one, and
/// identifiers of the same names. Texts that differ only in constants do,
/// and so do texts that differ in the case of their keywords and unquoted
/// identifiers.
pub open spec fn same_shape(q1: Seq<u8>, q2: Seq<u8>) -> bool {
    match (lex(q1), lex(q2)) {
        (Ok(t1), Ok(t2)) => classes(t1) == classes(t2) && names_of(q1, t1) == names_of(q2, t2),
        _ => false,
    }
}

proof fn lemma_unquoted_by_text(
    src1: Seq<u8>,
    from1: int,
    src2: Seq<u8>,
    from2: int,
    len: int,
    acc: Seq<u8>,
)
    requires
        0 <= from1,
        0 <= from2,
        0 <= len,
        from1 + len <= src1.len(),
        from2 + len <= src2.len(),
        src1.subrange(from1, from1 + len) == src2.subrange(from2, from2 + len),
    ensures
        unquoted(src1, from1, from1 + len, acc) == unquoted(src2, from2, from2 + len, acc),
    decreases len,
{
    let a = src1.subrange(from1, from1 + len);
    let b = src2.subrange(from2, from2 + len);
    if len > 0 {
        assert(src1[from1] == a[0]);
        assert(src2[from2] == b[0]);
        if len > 1 {
            assert(src1[from1 + 1] == a[1]);
            assert(src2[from2 + 1] == b[1]);
        }
        let step: int = if src1[from1] == crate::lexer::DOUBLE_QUOTE && 1 < len && src1[from1 + 1]
            == crate::lexer::DOUBLE_QUOTE {
            2
        } else {
            1
        };
        assert(src1.subrange(from1 + step, from1 + len) =~= a.subrange(step, len));
        assert(src2.subrange(from2 + step, from2 + len) =~= b.subrange(step, len));
        let more = if step == 2 {
            acc.push(crate::lexer::DOUBLE_QUOTE)
        } else {
            acc.push(src1[from1])
        };
        lemma_unquoted_by_text(src1, from1 + step, src2, from2 + step, len - step, more);
    }
}

proof fn lemma_name_by_text(q1: Seq<u8>, t1: Seq<Token>, q2: Seq<u8>, t2: Seq<Token>, i: int)
    requires
        0 <= i < t1.len() == t2.len(),
        well_spaced(t1, q1.len()),
        well_spaced(t2, q2.len()),
        t1[i].kind == t2[i].kind,
        text_of(q1, t1[i]) == text_of(q2, t2[i]),
    ensures
        name_at(q1, t1, i) == name_at(q2, t2, i),
{
    let a = t1[i];
    let b = t2[i];
    assert(text_of(q1, a).len() == a.end - a.start);
    assert(text_of(q2, b).len() == b.end - b.start);
    if a.kind == TokenKind::QuotedIdent {
        let len = a.end - a.start - 2;
        if len >= 0 {
            assert(q1.subrange(a.start + 1, a.start + 1 + len) =~= text_of(q1, a).subrange(
                1,
                1 + len,
            ));
            assert(q2.subrange(b.start + 1, b.start + 1 + len) =~= text_of(q2, b).subrange(
                1,
                1 + len,
            ));
            lemma_unquoted_by_text(q1, a.start + 1, q2, b.start + 1, len, Seq::empty());
        }
    }
}

/// Texts that fit in memory and differ only in constants have the same
/// shape.
pub proof fn constants_leave_the_shape(q1: Seq<u8>, q2: Seq<u8>)
    requires
        q1.len() <= usize::MAX,
        q2.len() <= usize::MAX,
        differ_only_in_constants(q1, q2),
    ensures
        same_shape(q1, q2),
{
    let t1 = lex(q1)->Ok_0;
    let t2 = lex(q2)->Ok_0;
    tokens_are_well_spaced(q1);
    tokens_are_well_spaced(q2);
    assert(classes(t1) =~= classes(t2));
    assert forall|i: int| 0 <= i < t1.len() implies name_at(q1, t1, i) == name_at(q2, t2, i) by {
        if class_of(t1[i].kind) == TokClass::Literal && class_of(t2[i].kind) == TokClass::Literal {
        } else {
            lemma_name_by_text(q1, t1, q2, t2, i);
        }
    }
    assert(names_of(q1, t1) =~= names_of(q2, t2));
}

/// The fingerprint does not change with the values of constants: texts of
/// the same shape both have a fingerprint, and the same one, or both have
/// none, for the same cause.
pub proof fn fingerprint_ignores_constants(q1: Seq<u8>, q2: Seq<u8>)
    requires
        same_shape(q1, q2),
    ensures
        match (fingerprint_of(q1), fingerprint_of(q2)) {
            (Ok(a), Ok(b)) => a == b,
            (Err(e), Err(f)) => e.cause == f.cause,
            _ => false,
        },
{
}

/// Whether a character is a digit or one of the letters `a` to `f`.
pub open spec fn is_hex_digit(c: char) -> bool {
    (0x30 <= c as u32 <= 0x39) || (0x61 <= c as u32 <= 0x66)
}

proof fn lemma_hex_form(bytes: Seq<u8>)
    ensures
        hex(bytes).len() == 2 * bytes.len(),
        forall|i: int| 0 <= i < hex(bytes).len() ==> is_hex_digit(#[trigger] hex(bytes)[i]),
    decreases bytes.len(),
{
    if bytes.len() > 0 {
        lemma_hex_form(bytes.drop_last());
        let before = hex(bytes.drop_last());
        let high = bytes.last() / 16;
        let low = bytes.last() % 16;
        assert(is_hex_digit(hex_char(high)));
        assert(is_hex_digit(hex_char(low)));
        assert forall|i: int| 0 <= i < hex(bytes).len() implies is_hex_digit(
            #[trigger] hex(bytes)[i],
        ) by {
            if i < before.len() {
                assert(hex(bytes)[i] == before[i]);
            }
        }
    }
}

/// Every fingerprint has one form: the version mark `02` and forty
/// hexadecimal digits.
pub proof fn fingerprint_has_one_form(canon: Seq<u8>)
    ensures
        fingerprint_text(canon).len() == 42,
        fingerprint_text(canon)[0] == '0',
        fingerprint_text(canon)[1] == '2',
        forall|i: int| 2 <= i < 42 ==> is_hex_digit(#[trigger] fingerprint_text(canon)[i]),
{
    reveal_strlit("02");
    let sum = sha1(canon);
    assert(sum.len() == 20);
    lemma_hex_form(sum);
    let text = fingerprint_text(canon);
    assert forall|i: int| 2 <= i < 42 implies is_hex_digit(#[trigger] text[i]) by {
        assert(text[i] == hex(sum)[i - 2]);
    }
}

/// In the tree of a text, every node covers at least one byte of the text,
/// and the bytes of a node lie inside the bytes of each node that it is
/// part of.
pub proof fn byte_spans_nest(tokens: Seq<Token>, nodes: Seq<Node>, len: nat, i: int, j: int)
    requires
        well_spaced(tokens, len),
        forest_ok(nodes, tokens.len()),
        0 <= i < nodes.len(),
        nodes[i].low <= j < i,
    ensures
        first_byte(tokens, nodes[i]) <= first_byte(tokens, nodes[j]),
        first_byte(tokens, nodes[j]) < end_byte(tokens, nodes[j]),
        end_byte(tokens, nodes[j]) <= end_byte(tokens, nodes[i]),
        end_byte(tokens, nodes[i]) <= len,
{
    reveal(node_ok);
    assert(node_ok(nodes, i));
    assert(node_ok(nodes, j));
    let outer = nodes[i];
    let inner = nodes[j];
    assert(outer.first <= inner.first < inner.end <= outer.end <= tokens.len());
    let a = tokens[outer.first as int];
    let b = tokens[inner.first as int];
    let c = tokens[inner.end - 1];
    let d = tokens[outer.end - 1];
    assert(a.start < a.end && b.start < b.end && c.start < c.end && d.start < d.end);
    assert(d.end <= len);
}

/// Whether no name is too long for its length to be written in eight
/// bytes: so it is of every name in a text that fits in memory.
pub open spec fn names_fit(names: Seq<Seq<u8>>) -> bool {
    forall|i: int| 0 <= i < names.len() ==> (#[trigger] names[i]).len() < 0x1_0000_0000_0000_0000
}

proof fn lemma_words_by_bytes(x: u64, y: u64)
    requires
        (x >> 56) as u8 == (y >> 56) as u8,
        (x >> 48) as u8 == (y >> 48) as u8,
        (x >> 40) as u8 == (y >> 40) as u8,
        (x >> 32) as u8 == (y >> 32) as u8,
        (x >> 24) as u8 == (y >> 24) as u8,
        (x >> 16) as u8 == (y >> 16) as u8,
        (x >> 8) as u8 == (y >> 8) as u8,
        x as u8 == y as u8,
    ensures
        x == y,
{
    assert(x == y) by (bit_vector)
        requires
            (x >> 56) as u8 == (y >> 56) as u8,
            (x >> 48) as u8 == (y >> 48) as u8,
            (x >> 40) as u8 == (y >> 40) as u8,
            (x >> 32) as u8 == (y >> 32) as u8,
            (x >> 24) as u8 == (y >> 24) as u8,
            (x >> 16) as u8 == (y >> 16) as u8,
            (x >> 8) as u8 == (y >> 8) as u8,
            x as u8 == y as u8,
    ;
}

proof fn lemma_length_prefix_tells(a: nat, b: nat)
    requires
        a < 0x1_0000_0000_0000_0000,
        b < 0x1_0000_0000_0000_0000,
        length_prefix(a) == length_prefix(b),
    ensures
        a == b,
{
    let x = (a % 0x1_0000_0000_0000_0000) as u64;
    let y = (b % 0x1_0000_0000_0000_0000) as u64;
    let p = length_prefix(a);
    let q = length_prefix(b);
    assert(p[0] == q[0] && p[1] == q[1] && p[2] == q[2] && p[3] == q[3] && p[4] == q[4] && p[5]
        == q[5] && p[6] == q[6] && p[7] == q[7]);
    lemma_words_by_bytes(x, y);
}

proof fn lemma_canonical_names(
    names1: Seq<Seq<u8>>,
    names2: Seq<Seq<u8>>,
    nodes: Seq<Node>,
    n: nat,
)
    requires
        n <= nodes.len(),
        names1.len() == names2.len(),
        names_fit(names1),
        names_fit(names2),
        canonical(names1, nodes, n) == canonical(names2, nodes, n),
    ensures
        forall|j: int|
            0 <= j < n && carries_name((#[trigger] nodes[j]).kind) && nodes[j].first < names1.len()
                ==> names1[nodes[j].first as int] == names2[nodes[j].first as int],
    decreases n,
{
    if n > 0 {
        let node = nodes[n - 1];
        let t = encode_utf8(tag_chars(node.kind));
        let r1 = canonical(names1, nodes, (n - 1) as nat);
        let r2 = canonical(names2, nodes, (n - 1) as nat);
        let w1 = canonical(names1, nodes, n);
        let w2 = canonical(names2, nodes, n);
        assert(w1 == emission(names1, node) + r1);
        assert(w2 == emission(names2, node) + r2);
        if carries_name(node.kind) && node.first < names1.len() {
            let a = names1[node.first as int];
            let b = names2[node.first as int];
            let l1 = length_prefix(a.len());
            let l2 = length_prefix(b.len());
            assert(l1.len() == 8 && l2.len() == 8);
            assert(w1 =~= t + l1 + a + r1);
            assert(w2 =~= t + l2 + b + r2);
            assert forall|k: int| 0 <= k < 8 implies l1[k] == l2[k] by {
                assert(w1[t.len() + k] == l1[k]);
                assert(w2[t.len() + k] == l2[k]);
            }
            assert(l1 =~= l2);
            lemma_length_prefix_tells(a.len(), b.len());
            assert forall|k: int| 0 <= k < a.len() implies a[k] == b[k] by {
                assert(w1[t.len() + 8 + k] == a[k]);
                assert(w2[t.len() + 8 + k] == b[k]);
            }
            assert(a =~= b);
            let cut = t.len() + 8 + a.len();
            assert(r1 =~= w1.subrange(cut as int, w1.len() as int));
            assert(r2 =~= w2.subrange(cut as int, w2.len() as int));
        } else {
            assert(w1 =~= t + r1);
            assert(w2 =~= t + r2);
            assert(r1 =~= w1.subrange(t.len() as int, w1.len() as int));
            assert(r2 =~= w2.subrange(t.len() as int, w2.len() as int));
        }
        lemma_canonical_names(names1, names2, nodes, (n - 1) as nat);
    }
}

/// The canonical form tells names apart: two texts with one tree, of which
/// some node carries a name in one text and another name in the other,
/// have different canonical forms. What the fingerprint is the digest of
/// differs, then, wherever a table, a column or an alias differs.
pub proof fn canonical_form_tells_names_apart(
    names1: Seq<Seq<u8>>,
    names2: Seq<Seq<u8>>,
    nodes: Seq<Node>,
    j: int,
)
    requires
        names1.len() == names2.len(),
        names_fit(names1),
        names_fit(names2),
        0 <= j < nodes.len(),
        carries_name(nodes[j].kind),
        nodes[j].first < names1.len(),
        names1[nodes[j].first as int] != names2[nodes[j].first as int],
    ensures
        canonical(names1, nodes, nodes.len()) != canonical(names2, nodes, nodes.len()),
{
    if canonical(names1, nodes, nodes.len()) == canonical(names2, nodes, nodes.len()) {
        lemma_canonical_names(names1, names2, nodes, nodes.len());
        assert(carries_name(nodes[j].kind));
    }
}

/// The empty text has the tree without statements, and no fingerprint.
pub proof fn empty_text_has_the_empty_tree()
    ensures
        analysis(Seq::empty()) == Ok::<(Seq<Token>, Seq<Node>), QueryError>(
            (Seq::empty(), Seq::empty()),
        ),
        fingerprint_of(Seq::empty()) matches Err(e) && e.cause == Cause::EmptyInput,
{
    reveal(trivia_end);
    let src = Seq::<u8>::empty();
    assert(lex(src) == Ok::<Seq<Token>, crate::lexer::LexError>(Seq::empty()));
    assert(classes(Seq::<Token>::empty()) =~= Seq::<TokClass>::empty());
}

proof fn lemma_parentheses_too_deep(
    k: Seq<TokClass>,
    pos: int,
    min: usize,
    depth: nat,
    out: Seq<Node>,
)
    requires
        0 <= pos,
        pos + depth < k.len(),
        forall|i: int| pos <= i <= pos + depth ==> #[trigger] k[i] == TokClass::Symbol(Symbol::LParen),
    ensures
        expr(k, pos, min, depth, out) == Err::<(Seq<Node>, int), SyntaxError>(
            too_deep(pos + depth),
        ),
    decreases depth,
{
    assert(k[pos] == TokClass::Symbol(Symbol::LParen));
    if depth > 0 {
        assert(k[pos + 1] == TokClass::Symbol(Symbol::LParen));
        lemma_parentheses_too_deep(k, pos + 1, crate::grammar::PREC_OR, (depth - 1) as nat, out);
    }
    assert(parenthesized(k, pos, depth, out) == Err::<(Seq<Node>, int), SyntaxError>(
        too_deep(pos + depth),
    ));
    assert(primary(k, pos, depth, out) == parenthesized(k, pos, depth, out));
    assert(prefix(k, pos, min, depth, out) == primary(k, pos, depth, out));
}

/// Nesting deeper than the limit is refused: a `SELECT` whose first
/// expression opens more parentheses than constructs may nest has no tree
/// but the error `DepthLimitExceeded`, found at the first parenthesis too
/// many, whatever follows.
pub proof fn deep_nesting_is_refused(k: Seq<TokClass>)
    requires
        k.len() > MAX_DEPTH + 1,
        k[0] == TokClass::Keyword(Keyword::Select),
        forall|i: int| 1 <= i <= MAX_DEPTH + 1 ==> #[trigger] k[i] == TokClass::Symbol(Symbol::LParen),
    ensures
        tree_of(k) == Err::<Seq<Node>, SyntaxError>(
            SyntaxError { kind: SyntaxErrorKind::DepthLimitExceeded, at: (MAX_DEPTH + 1) as usize },
        ),
{
    reveal(statement);
    let none = Seq::<Node>::empty();
    let depth = MAX_DEPTH as nat;
    assert(k[1] == TokClass::Symbol(Symbol::LParen));
    lemma_parentheses_too_deep(k, 1, crate::grammar::PREC_OR, depth, none);
    let e = too_deep(1 + depth as int);
    assert(expr(k, 1, crate::grammar::PREC_OR, depth, none) == Err::<(Seq<Node>, int), SyntaxError>(e));
    assert(target(k, 1, depth, none) == Err::<(Seq<Node>, int), SyntaxError>(e));
    assert(item(k, 1, depth, none, Item::Target) == Err::<(Seq<Node>, int), SyntaxError>(e));
    assert(list(k, 1, depth, none, Item::Target) == Err::<(Seq<Node>, int), SyntaxError>(e));
    assert(select_core(k, 0, depth, none) == Err::<(Seq<Node>, int), SyntaxError>(e));
    assert(with_clause(k, 0, depth, none) == Ok::<(Seq<Node>, int), SyntaxError>((none, 0)));
    assert(select_stmt(k, 0, depth, none) == Err::<(Seq<Node>, int), SyntaxError>(e));
    assert(statement(k, 0, depth, none) == Err::<(Seq<Node>, int), SyntaxError>(e));
    assert(statements(k, 0, none) == Err::<Seq<Node>, SyntaxError>(e));
}

/// Where there is no error, the statements read before the first error
/// are the tree.
pub proof fn all_is_read_where_nothing_fails(k: Seq<TokClass>, pos: int, out: Seq<Node>)
    ensures
        statements(k, pos, out) matches Ok(nodes) ==> statements_read(k, pos, out) == nodes,
    decreases k.len() - pos,
{
    if !(pos < 0 || pos >= k.len()) {
        if crate::grammar::is_mark(k, pos, Symbol::Semicolon) {
            all_is_read_where_nothing_fails(k, pos + 1, out);
        } else {
            match statement(k, pos, MAX_DEPTH as nat, out) {
                Err(e) => {},
                Ok((o, p)) => {
                    if p < k.len() && crate::grammar::is_mark(k, p, Symbol::Semicolon) && pos < p {
                        all_is_read_where_nothing_fails(k, p + 1, o);
                    }
                },
            }
        }
    }
}

} // verus!
