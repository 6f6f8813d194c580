use pg_query_parser::error::{Cause, QueryError};
use pg_query_parser::{fingerprint, parse};

#[test]
fn fingerprint_is_repeatable() {
    let queries = [
        "SELECT 1",
        "SELECT a, b FROM t WHERE a = 1 ORDER BY b DESC LIMIT 10",
        "INSERT INTO t (a, b) VALUES (1, 'x')",
        "UPDATE t SET a = a + 1 WHERE b IS NOT NULL",
        "DELETE FROM t WHERE a IN (SELECT b FROM u)",
    ];
    for q in queries {
        let first = fingerprint(q).unwrap();
        for _ in 0..3 {
            assert_eq!(fingerprint(q).unwrap(), first);
        }
    }
}

#[test]
fn fingerprint_of_select_one_is_pinned() {
    assert_eq!(
        fingerprint("SELECT 1").unwrap(),
        "02a281c251c3a43d2fe7457dff01f76c5cc523f8c8"
    );
}

#[test]
fn fingerprint_ignores_the_values_of_constants() {
    let pinned = "02a281c251c3a43d2fe7457dff01f76c5cc523f8c8";
    assert_eq!(fingerprint("SELECT 2").unwrap(), pinned);
    assert_eq!(fingerprint("SELECT 1000000").unwrap(), pinned);
    assert_eq!(fingerprint("SELECT 1.5e3").unwrap(), pinned);
    assert_eq!(fingerprint("SELECT 'one'").unwrap(), pinned);
    assert_eq!(fingerprint("SELECT $tag$ one $tag$").unwrap(), pinned);
    assert_eq!(fingerprint("SELECT $1").unwrap(), pinned);
    assert_eq!(fingerprint("SELECT $27").unwrap(), pinned);
    assert_eq!(
        fingerprint("SELECT a FROM t WHERE x = 1 AND y LIKE 'a%' LIMIT 5").unwrap(),
        fingerprint("SELECT a FROM t WHERE x = $1 AND y LIKE $2 LIMIT 500").unwrap()
    );
}

#[test]
fn fingerprint_ignores_layout_and_comments() {
    assert_eq!(
        fingerprint("select\n\ta -- the column\nfrom /* the /* only */ table */ t;").unwrap(),
        fingerprint("SELECT a FROM t").unwrap()
    );
}

#[test]
fn fingerprint_tells_tables_apart() {
    assert_ne!(
        fingerprint("SELECT a FROM t").unwrap(),
        fingerprint("SELECT a FROM u").unwrap()
    );
}

#[test]
fn fingerprint_of_a_query_with_names() {
    assert_eq!(
        fingerprint("SELECT a FROM t").unwrap(),
        "02f40550d31632527951d22e5614c8c3d850aa99e5"
    );
    assert_eq!(
        fingerprint("SELECT a FROM u").unwrap(),
        "0224cc9c0b2e9a120987076fc3849e9c68ec03e159"
    );
    assert_eq!(
        fingerprint("SELECT a AS b FROM t WHERE x = 1").unwrap(),
        "028fb5af48813814c37468f9c8a898637dc74bf3a1"
    );
}

#[test]
fn fingerprint_folds_unquoted_names_only() {
    let plain = fingerprint("SELECT a FROM t").unwrap();
    assert_eq!(fingerprint("SELECT A FROM T").unwrap(), plain);
    assert_eq!(fingerprint("SELECT \"a\" FROM \"t\"").unwrap(), plain);
    assert_ne!(fingerprint("SELECT \"A\" FROM t").unwrap(), plain);
    assert_eq!(
        fingerprint("SELECT \"a\"\"b\" FROM t").unwrap(),
        fingerprint("SELECT \"a\"\"b\" FROM T").unwrap()
    );
    assert_ne!(
        fingerprint("SELECT \"a\"\"b\" FROM t").unwrap(),
        fingerprint("SELECT \"a\"\"\"\"b\" FROM t").unwrap()
    );
}

#[test]
fn fingerprint_counts_aliases() {
    assert_ne!(
        fingerprint("SELECT a AS x FROM t").unwrap(),
        fingerprint("SELECT a AS y FROM t").unwrap()
    );
    assert_eq!(
        fingerprint("SELECT a AS x FROM t").unwrap(),
        fingerprint("SELECT a x FROM t").unwrap()
    );
}

#[test]
fn fingerprint_tells_operators_and_clauses_apart() {
    let base = fingerprint("SELECT a FROM t WHERE a = 1").unwrap();
    assert_ne!(fingerprint("SELECT a FROM t WHERE a <> 1").unwrap(), base);
    assert_ne!(fingerprint("SELECT a FROM t WHERE a < 1").unwrap(), base);
    assert_ne!(fingerprint("SELECT a FROM t HAVING a = 1").unwrap(), base);
    assert_ne!(fingerprint("SELECT DISTINCT a FROM t WHERE a = 1").unwrap(), base);
    assert_ne!(fingerprint("SELECT a FROM t WHERE NOT a = 1").unwrap(), base);
    assert_eq!(fingerprint("SELECT a FROM t WHERE (a = 1)").unwrap(), base);
    assert_eq!(fingerprint("SELECT a FROM t WHERE a != 2").unwrap(),
        fingerprint("SELECT a FROM t WHERE a <> 1").unwrap());
}

#[test]
fn fingerprint_of_a_tree_is_that_of_its_query() {
    let q = "WITH r AS (SELECT 1) SELECT * FROM r UNION ALL SELECT 2";
    let tree = parse(q).unwrap();
    assert_eq!(tree.fingerprint().unwrap(), fingerprint(q).unwrap());
}

#[test]
fn fingerprint_of_no_statement_is_empty_input() {
    let expected = QueryError { cause: Cause::EmptyInput, offset: 0, line: 1, column: 1 };
    assert_eq!(fingerprint("").unwrap_err(), expected);
    assert_eq!(fingerprint(" ; ; ").unwrap_err(), expected);
    assert_eq!(fingerprint("/* nothing */").unwrap_err(), expected);
    assert_eq!(parse("").unwrap().fingerprint().unwrap_err(), expected);
}

#[test]
fn fingerprint_passes_parse_errors_on() {
    for q in ["INSERT FROM DOES NOT WORK", "SELECT 'abc", "SELECT (", "SELECT 1 FROM"] {
        assert_eq!(fingerprint(q).unwrap_err(), parse(q).unwrap_err());
    }
}

#[test]
fn fingerprint_has_version_and_forty_digits() {
    let f = fingerprint("SELECT a, b FROM t JOIN u USING (a)").unwrap();
    assert_eq!(f.len(), 42);
    assert!(f.starts_with("02"));
    assert!(f.bytes().all(|b| b.is_ascii_digit() || (b'a'..=b'f').contains(&b)));
}

#[test]
fn fingerprint_of_several_statements_counts_all() {
    assert_ne!(
        fingerprint("SELECT 1; SELECT 2").unwrap(),
        fingerprint("SELECT 1").unwrap()
    );
    assert_eq!(
        fingerprint("SELECT 1; SELECT 2").unwrap(),
        fingerprint("SELECT 3;;SELECT 4;").unwrap()
    );
}

#[test]
fn canonical_form_differs_where_a_name_differs() {
    let t = parse("SELECT a FROM t").unwrap();
    let u = parse("SELECT a FROM u").unwrap();
    let aliased = parse("SELECT a FROM t AS u").unwrap();
    assert_eq!(t.nodes, u.nodes);
    assert!(!t.same_shape(&u));
    assert_ne!(t.canonical(), u.canonical());
    assert!(!t.same_shape(&aliased));
    assert!(!u.same_shape(&aliased));
}
