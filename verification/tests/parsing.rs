use pg_query_parser::error::{Cause, QueryError};
use pg_query_parser::grammar::{Expected, SyntaxError, SyntaxErrorKind, MAX_DEPTH};
use pg_query_parser::lexer::{tokenize, LexErrorKind};
use pg_query_parser::{diagnose, parse};
use pg_query_parser::statements::parse_tokens;
use pg_query_parser::token::{Keyword, Symbol, TokClass};
use pg_query_parser::tree::{BinaryOp, JoinKind, Node, NodeKind, SetOpKind, Truth};

type K = NodeKind;
type B = BinaryOp;

fn kinds(query: &str) -> Vec<NodeKind> {
    parse(query).unwrap().nodes.iter().map(|n| n.kind).collect()
}

fn failure(query: &str) -> QueryError {
    parse(query).unwrap_err()
}

fn node(kind: NodeKind, first: usize, end: usize, low: usize) -> Node {
    Node { kind, first, end, low }
}

const TAIL: [NodeKind; 4] =
    [NodeKind::ResTarget, NodeKind::TargetList, NodeKind::SelectStmt, NodeKind::RawStmt];

fn select_of(expression: &[NodeKind]) -> Vec<NodeKind> {
    let mut all = expression.to_vec();
    all.extend_from_slice(&TAIL);
    all
}

#[test]
fn tree_of_select_one() {
    let tree = parse("SELECT 1").unwrap();
    assert_eq!(tree.source, b"SELECT 1");
    assert_eq!(tree.tokens, tokenize(b"SELECT 1").unwrap());
    assert_eq!(
        tree.nodes,
        vec![
            node(NodeKind::Const, 1, 2, 0),
            node(NodeKind::ResTarget, 1, 2, 0),
            node(NodeKind::TargetList, 1, 2, 0),
            node(NodeKind::SelectStmt, 0, 2, 0),
            node(NodeKind::RawStmt, 0, 2, 0),
        ]
    );
}

#[test]
fn tree_of_nothing_has_no_nodes() {
    assert!(parse("").unwrap().nodes.is_empty());
    assert!(parse(" \n ").unwrap().nodes.is_empty());
    assert!(parse(";;;").unwrap().nodes.is_empty());
    assert!(parse("-- a comment").unwrap().nodes.is_empty());
    assert_eq!(parse(";;;").unwrap().tokens.len(), 3);
}

#[test]
fn product_binds_tighter_than_sum() {
    let tree = parse("SELECT 1 + 2 * 3").unwrap();
    assert_eq!(
        &tree.nodes[..5],
        &[
            node(NodeKind::Const, 1, 2, 0),
            node(NodeKind::Const, 3, 4, 1),
            node(NodeKind::Const, 5, 6, 2),
            node(NodeKind::Binary { op: BinaryOp::Times }, 3, 6, 1),
            node(NodeKind::Binary { op: BinaryOp::Plus }, 1, 6, 0),
        ]
    );
    let tree = parse("SELECT 1 * 2 + 3").unwrap();
    assert_eq!(
        &tree.nodes[..5],
        &[
            node(NodeKind::Const, 1, 2, 0),
            node(NodeKind::Const, 3, 4, 1),
            node(NodeKind::Binary { op: BinaryOp::Times }, 1, 4, 0),
            node(NodeKind::Const, 5, 6, 3),
            node(NodeKind::Binary { op: BinaryOp::Plus }, 1, 6, 0),
        ]
    );
}

#[test]
fn operators_of_one_strength_group_to_the_left() {
    let tree = parse("SELECT 1 - 2 - 3").unwrap();
    assert_eq!(
        &tree.nodes[..5],
        &[
            node(NodeKind::Const, 1, 2, 0),
            node(NodeKind::Const, 3, 4, 1),
            node(NodeKind::Binary { op: BinaryOp::Minus }, 1, 4, 0),
            node(NodeKind::Const, 5, 6, 3),
            node(NodeKind::Binary { op: BinaryOp::Minus }, 1, 6, 0),
        ]
    );
}

#[test]
fn parentheses_group_and_leave_no_node() {
    let tree = parse("SELECT (1 + 2) * 3").unwrap();
    assert_eq!(
        &tree.nodes[..5],
        &[
            node(NodeKind::Const, 2, 3, 0),
            node(NodeKind::Const, 4, 5, 1),
            node(NodeKind::Binary { op: BinaryOp::Plus }, 2, 5, 0),
            node(NodeKind::Const, 7, 8, 3),
            node(NodeKind::Binary { op: BinaryOp::Times }, 1, 8, 0),
        ]
    );
}

#[test]
fn every_level_of_strength() {
    assert_eq!(
        kinds("SELECT NOT 1 = 2 || 3 + 4 * 5 ^ - 6 OR 7 AND 8"),
        select_of(&[
            K::Const, K::Const, K::Const, K::Const, K::Const, K::Const,
            K::Negate,
            K::Binary { op: B::Power },
            K::Binary { op: B::Times },
            K::Binary { op: B::Plus },
            K::Binary { op: B::Concat },
            K::Binary { op: B::Eq },
            K::Not,
            K::Const, K::Const,
            K::Binary { op: B::And },
            K::Binary { op: B::Or },
        ])
    );
}

#[test]
fn every_comparison() {
    for (text, op) in [("=", B::Eq), ("<>", B::NotEq), ("!=", B::NotEq), ("<", B::Lt), ("<=", B::LtEq), (">", B::Gt),
        (">=", B::GtEq), ("/", B::Divide), ("%", B::Modulo), ("-", B::Minus)] {
        assert_eq!(
            kinds(&format!("SELECT 1 {} 2", text)),
            select_of(&[NodeKind::Const, NodeKind::Const, NodeKind::Binary { op }])
        );
    }
}

#[test]
fn not_and_signs() {
    assert_eq!(
        kinds("SELECT NOT a AND b"),
        select_of(&[K::Name, K::ColumnRef, K::Not, K::Name, K::ColumnRef, K::Binary { op: BinaryOp::And }])
    );
    assert_eq!(kinds("SELECT - a :: int"), select_of(&[K::Name, K::ColumnRef, K::TypeName, K::TypeCast, K::Negate]));
    assert_eq!(
        kinds("SELECT - 1 * + 2"),
        select_of(&[K::Const, K::Negate, K::Const, K::UnaryPlus, K::Binary { op: BinaryOp::Times }])
    );
    assert_eq!(kinds("SELECT NOT NOT TRUE"), select_of(&[K::Const, K::Not, K::Not]));
}

#[test]
fn is_between_in_like() {
    assert_eq!(
        kinds("SELECT a IS NULL"),
        select_of(&[K::Name, K::ColumnRef, K::IsTest { negated: false, value: Truth::Null }])
    );
    assert_eq!(
        kinds("SELECT a IS NOT TRUE"),
        select_of(&[K::Name, K::ColumnRef, K::IsTest { negated: true, value: Truth::True }])
    );
    assert_eq!(
        kinds("SELECT a = 1 IS FALSE"),
        select_of(&[
            K::Name, K::ColumnRef, K::Const,
            K::Binary { op: BinaryOp::Eq },
            K::IsTest { negated: false, value: Truth::False },
        ])
    );
    assert_eq!(
        kinds("SELECT a BETWEEN 1 AND 2 AND b"),
        select_of(&[
            K::Name, K::ColumnRef, K::Const, K::Const,
            K::Between { negated: false },
            K::Name, K::ColumnRef,
            K::Binary { op: BinaryOp::And },
        ])
    );
    assert_eq!(
        kinds("SELECT a NOT BETWEEN 1 AND 2"),
        select_of(&[K::Name, K::ColumnRef, K::Const, K::Const, K::Between { negated: true }])
    );
    assert_eq!(
        kinds("SELECT a IN (1, 2)"),
        select_of(&[K::Name, K::ColumnRef, K::Const, K::Const, K::InList { negated: false }])
    );
    assert_eq!(
        kinds("SELECT a NOT IN (SELECT 1)"),
        select_of(&[
            K::Name, K::ColumnRef, K::Const, K::ResTarget, K::TargetList, K::SelectStmt,
            K::InList { negated: true },
        ])
    );
    assert_eq!(
        kinds("SELECT a LIKE 'x' || 'y'"),
        select_of(&[
            K::Name, K::ColumnRef, K::Const, K::Const,
            K::Binary { op: BinaryOp::Concat },
            K::Like { negated: false },
        ])
    );
    assert_eq!(
        kinds("SELECT a NOT LIKE 'x'"),
        select_of(&[K::Name, K::ColumnRef, K::Const, K::Like { negated: true }])
    );
}

#[test]
fn columns_stars_calls() {
    assert_eq!(kinds("SELECT *"), select_of(&[K::Star]));
    assert_eq!(kinds("SELECT t.*"), select_of(&[K::Name, K::Star, K::ColumnRef]));
    assert_eq!(kinds("SELECT s.t.c"), select_of(&[K::Name, K::Name, K::Name, K::ColumnRef]));
    assert_eq!(kinds("SELECT now()"), select_of(&[K::Name, K::FuncCall]));
    assert_eq!(kinds("SELECT count(*)"), select_of(&[K::Name, K::Star, K::FuncCall]));
    assert_eq!(kinds("SELECT f(1, a)"), select_of(&[K::Name, K::Const, K::Name, K::ColumnRef, K::Args, K::FuncCall]));
    assert_eq!(
        kinds("SELECT sum(DISTINCT a)"),
        select_of(&[K::Name, K::Distinct, K::Name, K::ColumnRef, K::Args, K::FuncCall])
    );
    assert_eq!(
        kinds("SELECT rank() OVER (PARTITION BY a ORDER BY b DESC, c)"),
        select_of(&[
            K::Name,
            K::Name, K::ColumnRef, K::PartitionClause,
            K::Name, K::ColumnRef, K::SortBy { descending: true },
            K::Name, K::ColumnRef, K::SortBy { descending: false },
            K::SortClause,
            K::WindowDef,
            K::FuncCall,
        ])
    );
    assert_eq!(kinds("SELECT f() OVER ()"), select_of(&[K::Name, K::WindowDef, K::FuncCall]));
}

#[test]
fn case_exists_subquery() {
    assert_eq!(
        kinds("SELECT CASE WHEN a THEN 1 WHEN b THEN 2 ELSE 3 END"),
        select_of(&[
            K::Name, K::ColumnRef, K::Const, K::CaseWhen,
            K::Name, K::ColumnRef, K::Const, K::CaseWhen,
            K::Const, K::CaseDefault,
            K::CaseExpr,
        ])
    );
    assert_eq!(
        kinds("SELECT CASE a WHEN 1 THEN 2 END"),
        select_of(&[K::Name, K::ColumnRef, K::CaseArg, K::Const, K::Const, K::CaseWhen, K::CaseExpr])
    );
    assert_eq!(
        kinds("SELECT EXISTS (SELECT 1)"),
        select_of(&[K::Const, K::ResTarget, K::TargetList, K::SelectStmt, K::Exists])
    );
    assert_eq!(
        kinds("SELECT (SELECT 1) + 1"),
        select_of(&[
            K::Const, K::ResTarget, K::TargetList, K::SelectStmt, K::SubLink,
            K::Const,
            K::Binary { op: BinaryOp::Plus },
        ])
    );
}

#[test]
fn clauses_of_select() {
    assert_eq!(
        kinds(
            "SELECT DISTINCT a AS x, b y FROM t WHERE a GROUP BY a, b HAVING b \
             ORDER BY a ASC, b DESC LIMIT 1 OFFSET 2"
        ),
        vec![
            K::Distinct,
            K::Name, K::ColumnRef, K::Alias, K::ResTarget,
            K::Name, K::ColumnRef, K::Alias, K::ResTarget,
            K::TargetList,
            K::Name, K::RangeVar, K::FromClause,
            K::Name, K::ColumnRef, K::WhereClause,
            K::Name, K::ColumnRef, K::Name, K::ColumnRef, K::GroupClause,
            K::Name, K::ColumnRef, K::HavingClause,
            K::Name, K::ColumnRef, K::SortBy { descending: false },
            K::Name, K::ColumnRef, K::SortBy { descending: true },
            K::SortClause,
            K::Const, K::LimitCount,
            K::Const, K::LimitOffset,
            K::SelectStmt,
            K::RawStmt,
        ]
    );
}

#[test]
fn tables_and_joins() {
    assert_eq!(
        kinds("SELECT * FROM s.t AS a, u b, (SELECT 1) AS c, (VALUES (1)) d")[3..],
        [
            K::Name, K::Name, K::Alias, K::RangeVar,
            K::Name, K::Alias, K::RangeVar,
            K::Const, K::ResTarget, K::TargetList, K::SelectStmt, K::Alias, K::RangeSubselect,
            K::Const, K::Row, K::ValuesLists, K::SelectStmt, K::Alias, K::RangeSubselect,
            K::FromClause,
            K::SelectStmt,
            K::RawStmt,
        ]
    );
    assert_eq!(
        kinds(
            "SELECT * FROM a JOIN b ON TRUE INNER JOIN c USING (x, y) LEFT JOIN d ON 1 \
             RIGHT OUTER JOIN e ON 2 FULL OUTER JOIN f ON 3 CROSS JOIN g"
        )[3..],
        [
            K::Name, K::RangeVar,
            K::Name, K::RangeVar, K::Const, K::JoinOn, K::JoinExpr { join: JoinKind::Inner },
            K::Name, K::RangeVar, K::Name, K::Name, K::UsingClause, K::JoinExpr { join: JoinKind::Inner },
            K::Name, K::RangeVar, K::Const, K::JoinOn, K::JoinExpr { join: JoinKind::Left },
            K::Name, K::RangeVar, K::Const, K::JoinOn, K::JoinExpr { join: JoinKind::Right },
            K::Name, K::RangeVar, K::Const, K::JoinOn, K::JoinExpr { join: JoinKind::Full },
            K::Name, K::RangeVar, K::JoinExpr { join: JoinKind::Cross },
            K::FromClause,
            K::SelectStmt,
            K::RawStmt,
        ]
    );
}

#[test]
fn joins_group_to_the_left() {
    let tree = parse("SELECT * FROM a JOIN b ON 1 JOIN c ON 2").unwrap();
    let joins: Vec<&Node> = tree
        .nodes
        .iter()
        .filter(|n| matches!(n.kind, NodeKind::JoinExpr { .. }))
        .collect();
    assert_eq!(joins.len(), 2);
    assert_eq!((joins[0].first, joins[0].end, joins[0].low), (3, 8, 3));
    assert_eq!((joins[1].first, joins[1].end, joins[1].low), (3, 12, 3));
}

#[test]
fn set_operations() {
    assert_eq!(
        kinds("SELECT 1 UNION ALL SELECT 2 ORDER BY 1 LIMIT 3"),
        vec![
            K::Const, K::ResTarget, K::TargetList, K::SelectStmt,
            K::SetOp { set_op: SetOpKind::Union, all: true },
            K::Const, K::ResTarget, K::TargetList, K::SelectStmt,
            K::Const, K::SortBy { descending: false }, K::SortClause,
            K::Const, K::LimitCount,
            K::SelectStmt,
            K::RawStmt,
        ]
    );
    assert_eq!(
        kinds("SELECT 1 INTERSECT SELECT 2 EXCEPT (SELECT 3)"),
        vec![
            K::Const, K::ResTarget, K::TargetList, K::SelectStmt,
            K::SetOp { set_op: SetOpKind::Intersect, all: false },
            K::Const, K::ResTarget, K::TargetList, K::SelectStmt,
            K::SelectStmt,
            K::SetOp { set_op: SetOpKind::Except, all: false },
            K::Const, K::ResTarget, K::TargetList, K::SelectStmt,
            K::SelectStmt,
            K::RawStmt,
        ]
    );
}

#[test]
fn with_and_values() {
    assert_eq!(
        kinds("WITH a AS (SELECT 1), b AS (VALUES (1, 2), (3, 4)) SELECT * FROM a"),
        vec![
            K::Name, K::Const, K::ResTarget, K::TargetList, K::SelectStmt, K::CommonTableExpr,
            K::Name, K::Const, K::Const, K::Row, K::Const, K::Const, K::Row, K::ValuesLists, K::SelectStmt, K::CommonTableExpr,
            K::WithClause { recursive: false },
            K::Star, K::ResTarget, K::TargetList,
            K::Name, K::RangeVar, K::FromClause,
            K::SelectStmt,
            K::RawStmt,
        ]
    );
    assert_eq!(kinds("WITH RECURSIVE r AS (SELECT 1) SELECT 2")[6], K::WithClause { recursive: true });
}

#[test]
fn insert_update_delete() {
    assert_eq!(
        kinds("INSERT INTO s.t (a, b) VALUES (1, 'x')"),
        vec![
            K::Name, K::Name, K::RangeVar,
            K::Name, K::Name, K::ColumnList,
            K::Const, K::Const, K::Row, K::ValuesLists, K::SelectStmt,
            K::InsertStmt,
            K::RawStmt,
        ]
    );
    assert_eq!(
        kinds("INSERT INTO t DEFAULT VALUES"),
        vec![K::Name, K::RangeVar, K::DefaultValues, K::InsertStmt, K::RawStmt]
    );
    assert_eq!(
        kinds("INSERT INTO t SELECT * FROM u"),
        vec![
            K::Name, K::RangeVar,
            K::Star, K::ResTarget, K::TargetList, K::Name, K::RangeVar, K::FromClause, K::SelectStmt,
            K::InsertStmt,
            K::RawStmt,
        ]
    );
    assert_eq!(
        kinds("UPDATE t AS x SET a = 1, b = a + 1 WHERE c"),
        vec![
            K::Name, K::Alias, K::RangeVar,
            K::Name, K::Const, K::Assignment,
            K::Name, K::Name, K::ColumnRef, K::Const, K::Binary { op: BinaryOp::Plus }, K::Assignment,
            K::SetClause,
            K::Name, K::ColumnRef, K::WhereClause,
            K::UpdateStmt,
            K::RawStmt,
        ]
    );
    assert_eq!(
        kinds("DELETE FROM t WHERE a = 1"),
        vec![
            K::Name, K::RangeVar,
            K::Name, K::ColumnRef, K::Const, K::Binary { op: BinaryOp::Eq }, K::WhereClause,
            K::DeleteStmt,
            K::RawStmt,
        ]
    );
    assert_eq!(kinds("DELETE FROM t"), vec![K::Name, K::RangeVar, K::DeleteStmt, K::RawStmt]);
}

#[test]
fn statement_kind_follows_the_first_word() {
    let cases = [
        ("SELECT 1", NodeKind::SelectStmt),
        ("VALUES (1)", NodeKind::SelectStmt),
        ("WITH a AS (SELECT 1) SELECT 2", NodeKind::SelectStmt),
        ("INSERT INTO t DEFAULT VALUES", NodeKind::InsertStmt),
        ("UPDATE t SET a = 1", NodeKind::UpdateStmt),
        ("DELETE FROM t", NodeKind::DeleteStmt),
    ];
    for (query, kind) in cases {
        let tree = parse(query).unwrap();
        let n = tree.nodes.len();
        assert_eq!(tree.nodes[n - 1].kind, NodeKind::RawStmt);
        assert_eq!(tree.nodes[n - 2].kind, kind);
        assert_eq!(tree.nodes[n - 1].low, 0);
        assert_eq!(tree.nodes[n - 2].low, 0);
        assert_eq!(tree.nodes[n - 1].first, 0);
        assert_eq!(tree.nodes[n - 1].end, tree.tokens.len());
    }
}

#[test]
fn statements_stand_in_a_row() {
    let tree = parse("SELECT 1; ; DELETE FROM t; UPDATE t SET a = 1;").unwrap();
    let roots: Vec<(usize, &Node)> = tree
        .nodes
        .iter()
        .enumerate()
        .filter(|(_, n)| n.kind == NodeKind::RawStmt)
        .collect();
    assert_eq!(roots.len(), 3);
    assert_eq!(roots[0].1.low, 0);
    assert_eq!(roots[1].1.low, roots[0].0 + 1);
    assert_eq!(roots[2].1.low, roots[1].0 + 1);
    assert_eq!(roots[2].0, tree.nodes.len() - 1);
    assert_eq!(tree.nodes[roots[0].0 - 1].kind, NodeKind::SelectStmt);
    assert_eq!(tree.nodes[roots[1].0 - 1].kind, NodeKind::DeleteStmt);
    assert_eq!(tree.nodes[roots[2].0 - 1].kind, NodeKind::UpdateStmt);
}

#[test]
fn every_node_closes_a_subtree_inside_its_tokens() {
    let query = "WITH r AS (SELECT a, count(*) FROM t GROUP BY a) \
                 SELECT DISTINCT foo, bar FROM sys.baz INNER JOIN (VALUES ('a', $1)) x ON TRUE \
                 WHERE col_a = '123' AND col_b IN (SELECT b FROM r WHERE NOT EXISTS (SELECT 1)) \
                 ORDER BY col_b; UPDATE t SET a = CASE WHEN b THEN 1 ELSE -2 END";
    let tree = parse(query).unwrap();
    assert!(tree.nodes.len() > 40);
    for (i, n) in tree.nodes.iter().enumerate() {
        assert!(n.low <= i);
        assert!(n.first < n.end && n.end <= tree.tokens.len());
        for j in n.low..i {
            let m = &tree.nodes[j];
            assert!(n.low <= m.low, "node {} reaches out of node {}", j, i);
            assert!(n.first <= m.first && m.end <= n.end, "node {} lies outside node {}", j, i);
        }
    }
}

#[test]
fn the_sample_query_parses() {
    let tree = parse(
        "
                SELECT DISTINCT foo, bar
                FROM sys.baz INNER JOIN (VALUES ('a', $1)) x ON TRUE
                WHERE col_a = '123'
                ORDER BY col_b;
                ",
    )
    .unwrap();
    assert_eq!(tree.nodes.last().unwrap().kind, NodeKind::RawStmt);
    assert_eq!(tree.tokens.len(), 30);
}

#[test]
fn syntax_errors_and_their_places() {
    let unexpected = |found, expected, offset, line, column| QueryError {
        cause: Cause::Unexpected { found, expected },
        offset,
        line,
        column,
    };
    assert_eq!(
        failure("INSERT FROM DOES NOT WORK"),
        unexpected(TokClass::Keyword(Keyword::From), Expected::Word(Keyword::Into), 7, 1, 8)
    );
    assert_eq!(failure("SELECT"), unexpected(TokClass::End, Expected::Expression, 6, 1, 7));
    assert_eq!(failure("SELECT 1 FROM"), unexpected(TokClass::End, Expected::Identifier, 13, 1, 14));
    assert_eq!(
        failure("SELECT 1 2"),
        unexpected(TokClass::Literal, Expected::EndOfStatement, 9, 1, 10)
    );
    assert_eq!(
        failure("SELECT a b c"),
        unexpected(TokClass::Ident, Expected::EndOfStatement, 11, 1, 12)
    );
    assert_eq!(
        failure("SELECT (1"),
        unexpected(TokClass::End, Expected::Mark(Symbol::RParen), 9, 1, 10)
    );
    assert_eq!(
        failure("SELECT 1,\n  FROM t"),
        unexpected(TokClass::Keyword(Keyword::From), Expected::Expression, 12, 2, 3)
    );
    assert_eq!(
        failure("UPDATE t x = 1"),
        unexpected(TokClass::Symbol(Symbol::Eq), Expected::Word(Keyword::SetKw), 11, 1, 12)
    );
    assert_eq!(
        failure("DELETE t"),
        unexpected(TokClass::Ident, Expected::Word(Keyword::From), 7, 1, 8)
    );
    assert_eq!(failure("CREATE"), unexpected(TokClass::Ident, Expected::Statement, 0, 1, 1));
    assert_eq!(
        failure("SELECT 1; 2"),
        unexpected(TokClass::Literal, Expected::Statement, 10, 1, 11)
    );
    assert_eq!(
        failure("SELECT a IS 1"),
        unexpected(TokClass::Literal, Expected::TruthValue, 12, 1, 13)
    );
    assert_eq!(
        failure("SELECT * FROM a JOIN b"),
        unexpected(TokClass::End, Expected::JoinCondition, 22, 1, 23)
    );
    assert_eq!(
        failure("SELECT * FROM (SELECT 1)"),
        unexpected(TokClass::End, Expected::Identifier, 24, 1, 25)
    );
    assert_eq!(
        failure("SELECT 1 UNION 2"),
        unexpected(TokClass::Literal, Expected::Query, 15, 1, 16)
    );
    assert_eq!(
        failure("SELECT a BETWEEN 1 OR 2"),
        unexpected(TokClass::Keyword(Keyword::Or), Expected::Word(Keyword::And), 19, 1, 20)
    );
    assert_eq!(
        failure("SELECT a GROUP a"),
        unexpected(TokClass::Ident, Expected::Word(Keyword::By), 15, 1, 16)
    );
    assert_eq!(
        failure("SELECT a FROM t GROUP a"),
        unexpected(TokClass::Ident, Expected::Word(Keyword::By), 22, 1, 23)
    );
    assert_eq!(
        failure("SELECT CASE 1 END"),
        unexpected(TokClass::Keyword(Keyword::End), Expected::Word(Keyword::When), 14, 1, 15)
    );
}

#[test]
fn the_first_error_is_the_one_reported() {
    assert_eq!(
        failure("SELECT 1; SELECT FROM; SELECT ("),
        QueryError {
            cause: Cause::Unexpected {
                found: TokClass::Keyword(Keyword::From),
                expected: Expected::Expression,
            },
            offset: 17,
            line: 1,
            column: 18,
        }
    );
    assert_eq!(
        failure("SELECT ( 'abc"),
        QueryError {
            cause: Cause::Lexical(LexErrorKind::UnterminatedString),
            offset: 9,
            line: 1,
            column: 10,
        }
    );
}

#[test]
fn lines_and_columns_count_from_one() {
    let e = failure("SELECT 1\n\nFROM t WHERE\n   ?");
    assert_eq!(e.cause, Cause::Lexical(LexErrorKind::UnexpectedCharacter));
    assert_eq!((e.offset, e.line, e.column), (26, 4, 4));
    let e = failure("\n\n(");
    assert_eq!((e.offset, e.line, e.column), (2, 3, 1));
    let e = failure("SELECT\n");
    assert_eq!((e.offset, e.line, e.column), (7, 2, 1));
}

fn nested(levels: usize) -> String {
    let mut q = String::from("SELECT ");
    for _ in 0..levels {
        q.push('(');
    }
    q.push('1');
    for _ in 0..levels {
        q.push(')');
    }
    q
}

#[test]
fn nesting_up_to_the_limit_parses() {
    assert_eq!(MAX_DEPTH, 128);
    let tree = parse(&nested(128)).unwrap();
    assert_eq!(tree.nodes.len(), 5);
    assert_eq!(tree.nodes[0], node(NodeKind::Const, 129, 130, 0));
    assert_eq!(tree.nodes[1], node(NodeKind::ResTarget, 1, 258, 0));
}

#[test]
fn nesting_past_the_limit_is_refused() {
    assert_eq!(
        failure(&nested(129)),
        QueryError { cause: Cause::DepthLimitExceeded, offset: 135, line: 1, column: 136 }
    );
}

#[test]
fn very_deep_nesting_is_refused() {
    assert_eq!(failure(&nested(10_000)).cause, Cause::DepthLimitExceeded);
    let mut q = String::from("SELECT ");
    for _ in 0..10_000 {
        q.push_str("(SELECT ");
    }
    assert_eq!(failure(&q).cause, Cause::DepthLimitExceeded);
    let mut q = String::from("SELECT ");
    for _ in 0..10_000 {
        q.push_str("NOT ");
    }
    q.push('1');
    assert_eq!(failure(&q).cause, Cause::DepthLimitExceeded);
    let mut q = String::from("SELECT ");
    for _ in 0..10_000 {
        q.push_str("- ");
    }
    q.push('1');
    assert_eq!(failure(&q).cause, Cause::DepthLimitExceeded);
}

#[test]
fn long_chains_and_lists_do_not_nest() {
    let mut q = String::from("SELECT 1");
    for _ in 0..20_000 {
        q.push_str(" + 1");
    }
    assert_eq!(parse(&q).unwrap().nodes.len(), 2 * 20_000 + 1 + 4);
    let mut q = String::from("SELECT a IN (1");
    for _ in 0..20_000 {
        q.push_str(", 1");
    }
    q.push(')');
    assert_eq!(parse(&q).unwrap().nodes.len(), 2 + 20_001 + 1 + 4);
}

#[test]
fn parse_tokens_reports_the_token_index() {
    let tokens = tokenize(b"SELECT 1 FROM").unwrap();
    assert_eq!(
        parse_tokens(&tokens).unwrap_err(),
        SyntaxError { kind: SyntaxErrorKind::Unexpected(Expected::Identifier), at: 3 }
    );
    let tokens = tokenize(b"SELECT a, b FROM t").unwrap();
    assert_eq!(parse_tokens(&tokens).unwrap().len(), 12);
}

#[test]
fn children_of_a_node_in_source_order() {
    let tree = parse("SELECT a, 12 FROM t WHERE b").unwrap();
    let root = tree.nodes.len() - 1;
    assert_eq!(tree.statements(), vec![root]);
    let select = tree.children(root);
    assert_eq!(select, vec![root - 1]);
    let clauses = tree.children(root - 1);
    let clause_kinds: Vec<NodeKind> = clauses.iter().map(|c| tree.nodes[*c].kind).collect();
    assert_eq!(
        clause_kinds,
        vec![NodeKind::TargetList, NodeKind::FromClause, NodeKind::WhereClause]
    );
    let targets = tree.children(clauses[0]);
    assert_eq!(targets, vec![2, 4]);
    assert_eq!(tree.children(0), vec![]);
    assert_eq!(tree.children(1), vec![0]);
    assert_eq!(tree.children(tree.nodes.len()), vec![]);
}

#[test]
fn children_tile_the_subtree_of_every_node() {
    let tree = parse(
        "WITH r AS (SELECT 1) SELECT f(a, b, c) OVER (ORDER BY d), CASE WHEN e THEN 1 END \
         FROM t JOIN u ON t.x = u.x WHERE a IN (1, 2, 3) UNION SELECT 4; DELETE FROM v",
    )
    .unwrap();
    for (i, n) in tree.nodes.iter().enumerate() {
        let kids = tree.children(i);
        let mut next = n.low;
        for k in &kids {
            assert_eq!(tree.nodes[*k].low, next);
            next = *k + 1;
        }
        assert_eq!(next, i);
    }
    let statements = tree.statements();
    assert_eq!(statements.len(), 2);
    assert_eq!(tree.nodes[statements[0]].low, 0);
    assert_eq!(tree.nodes[statements[1]].low, statements[0] + 1);
    assert_eq!(statements[1], tree.nodes.len() - 1);
    assert_eq!(parse("").unwrap().statements(), vec![]);
}

#[test]
fn same_shape_is_what_the_fingerprint_tells() {
    let a = parse("SELECT a FROM t WHERE x = 1").unwrap();
    let b = parse("select A from T where X = $1 -- the same").unwrap();
    let c = parse("SELECT a FROM t WHERE x > 1").unwrap();
    assert!(a.same_shape(&b));
    assert!(b.same_shape(&a));
    assert!(a.same_shape(&a));
    assert!(!a.same_shape(&c));
    assert!(!c.same_shape(&b));
    assert_eq!(a.canonical(), b.canonical());
    assert!(parse("").unwrap().same_shape(&parse(";").unwrap()));
    assert!(parse("").unwrap().canonical().is_empty());
}

#[test]
fn canonical_form_of_a_small_query() {
    let tree = parse("SELECT x FROM \"T\"").unwrap();
    let mut expected: Vec<u8> = Vec::new();
    expected.extend_from_slice(b"RawStmtstmt");
    expected.extend_from_slice(b"SelectStmt");
    expected.extend_from_slice(b"fromClause");
    expected.extend_from_slice(b"RangeVar");
    expected.extend_from_slice(b"String");
    expected.extend_from_slice(&[0, 0, 0, 0, 0, 0, 0, 1]);
    expected.extend_from_slice(b"T");
    expected.extend_from_slice(b"targetList");
    expected.extend_from_slice(b"ResTarget");
    expected.extend_from_slice(b"ColumnRef");
    expected.extend_from_slice(b"String");
    expected.extend_from_slice(&[0, 0, 0, 0, 0, 0, 0, 1]);
    expected.extend_from_slice(b"x");
    assert_eq!(tree.canonical(), expected);
}

#[test]
fn token_text_is_the_source_under_the_token() {
    let tree = parse("SELECT \"a b\", 'c''d' FROM t").unwrap();
    assert_eq!(tree.token_text(0), b"SELECT");
    assert_eq!(tree.token_text(1), b"\"a b\"");
    assert_eq!(tree.token_text(3), b"'c''d'");
    assert_eq!(tree.token_text(5), b"t");
    assert_eq!(tree.token_text(6), b"");
}

#[test]
fn failure_keeps_the_statements_before_the_error() {
    let query = "SELECT 1; DELETE FROM t; SELECT FROM; SELECT 3";
    let failure = diagnose(query).unwrap_err();
    assert_eq!(failure.error, parse(query).unwrap_err());
    assert_eq!(failure.error.offset, 32);
    assert_eq!(failure.parsed.source, query.as_bytes());
    assert_eq!(failure.parsed.tokens, tokenize(query.as_bytes()).unwrap());
    let kept: Vec<NodeKind> = failure.parsed.nodes.iter().map(|n| n.kind).collect();
    assert_eq!(kept, [kinds("SELECT 1"), kinds("DELETE FROM t")].concat());
    assert_eq!(failure.parsed.statements(), vec![4, 8]);
}

#[test]
fn failure_after_a_whole_statement_keeps_it() {
    let failure = diagnose("SELECT 1 2").unwrap_err();
    assert_eq!(
        failure.error.cause,
        Cause::Unexpected { found: TokClass::Literal, expected: Expected::EndOfStatement }
    );
    assert_eq!(failure.parsed.nodes, parse("SELECT 1").unwrap().nodes);
}

#[test]
fn failure_in_the_first_statement_keeps_nothing() {
    let failure = diagnose("SELECT (; SELECT 2").unwrap_err();
    assert!(failure.parsed.nodes.is_empty());
    assert_eq!(failure.parsed.tokens.len(), 5);
    let failure = diagnose("SELECT 1; SELECT 'abc").unwrap_err();
    assert_eq!(failure.error.cause, Cause::Lexical(LexErrorKind::UnterminatedString));
    assert!(failure.parsed.nodes.is_empty());
    assert!(failure.parsed.tokens.is_empty());
    assert_eq!(failure.parsed.source, b"SELECT 1; SELECT 'abc");
}

#[test]
fn diagnose_of_a_good_text_is_its_tree() {
    let query = "SELECT a FROM t; UPDATE t SET a = 1";
    let tree = diagnose(query).unwrap();
    assert_eq!(tree.nodes, parse(query).unwrap().nodes);
    assert_eq!(tree.tokens, parse(query).unwrap().tokens);
    assert!(diagnose("").unwrap().nodes.is_empty());
}
