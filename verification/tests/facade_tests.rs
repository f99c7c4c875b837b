use ezdb::errors::PersistenceError;
use ezdb::persistence::SqlitePersistence;
use ezdb::policy::MutationPolicy;
use ezdb::policy::Policy;
use ezdb::policy::QueryPolicy;
use ezdb::values::SqlValue;
use ezdb::values::WireValue;

fn fresh() -> SqlitePersistence {
    SqlitePersistence::in_memory().unwrap()
}

#[test]
fn create_insert_and_read_back() {
    let p = fresh();
    p.mutate_raw("CREATE TABLE foo (x INTEGER)").unwrap();
    p.mutate_raw("INSERT INTO foo (x) VALUES (1),(2)").unwrap();
    let rows = p.query_raw("SELECT x FROM foo ORDER BY x").unwrap();
    assert_eq!(rows.len(), 2);
    assert_eq!(rows[0], vec![("x".to_string(), SqlValue::Integer(1))]);
    assert_eq!(rows[1], vec![("x".to_string(), SqlValue::Integer(2))]);
}

#[test]
fn row_columns_come_out_in_name_order() {
    let p = fresh();
    let rows = p.query_raw("SELECT 2 AS b, 1 AS a, 3 AS c").unwrap();
    assert_eq!(rows.len(), 1);
    assert_eq!(rows[0][0], ("a".to_string(), SqlValue::Integer(1)));
    assert_eq!(rows[0][1], ("b".to_string(), SqlValue::Integer(2)));
    assert_eq!(rows[0][2], ("c".to_string(), SqlValue::Integer(3)));
}

#[test]
fn column_types_are_bridged() {
    let p = fresh();
    let rows = p.query_raw("SELECT NULL AS a, 'hi' AS b, 2.5 AS c, x'0102' AS d").unwrap();
    assert_eq!(rows[0][0].1, SqlValue::Null);
    assert_eq!(rows[0][1].1, SqlValue::Text("hi".to_string()));
    assert_eq!(rows[0][2].1, SqlValue::Float((2.5f64).to_bits()));
    assert_eq!(rows[0][3].1, SqlValue::Bytes(vec![1u8, 2u8]));
}

#[test]
fn mutation_refuses_row_returning_sql() {
    let p = fresh();
    match p.mutate_raw("SELECT 1") {
        Err(PersistenceError::Unknown(_)) => {},
        other => panic!("unexpected result: {:?}", other),
    }
}

#[test]
fn sql_errors_are_unknown_with_engine_text() {
    let p = fresh();
    match p.query_raw("SELECT definitely not sql") {
        Err(PersistenceError::Unknown(m)) => assert!(!m.is_empty()),
        other => panic!("unexpected result: {:?}", other),
    }
}

fn demo_policy() -> Policy {
    Policy {
        queries: vec![QueryPolicy {
            name: "all_foo".to_string(),
            raw_sql: "SELECT x FROM foo".to_string(),
        }],
        mutations: vec![MutationPolicy {
            name: "add_foo".to_string(),
            raw_sql: "INSERT INTO foo (x) VALUES (:v)".to_string(),
        }],
    }
}

#[test]
fn named_query_resolution() {
    let p = fresh();
    p.mutate_raw("CREATE TABLE foo (x INTEGER)").unwrap();
    p.mutate_raw("INSERT INTO foo (x) VALUES (1),(2)").unwrap();
    p.set_policy(demo_policy()).unwrap();
    let rows = p.query_named("all_foo".to_string(), vec![]).unwrap();
    assert_eq!(rows.len(), 2);
    assert_eq!(rows[0], vec![("x".to_string(), SqlValue::Integer(1))]);
    assert_eq!(rows[1], vec![("x".to_string(), SqlValue::Integer(2))]);
}

#[test]
fn missing_named_query_reports_not_found() {
    let p = fresh();
    let e = p.query_named("missing".to_string(), vec![]).unwrap_err();
    assert_eq!(e, PersistenceError::NoSuchQuery("missing".to_string()));
    assert_eq!(e.error_code(), "not_found");
    assert_eq!(e.error_message(), "no such query");
    assert_eq!(e.detail_name(), Some("missing".to_string()));
}

#[test]
fn named_mutation_binds_parameters() {
    let p = fresh();
    p.mutate_raw("CREATE TABLE foo (x INTEGER)").unwrap();
    p.set_policy(demo_policy()).unwrap();
    p.mutate_named(
        "add_foo".to_string(),
        vec![(":v".to_string(), WireValue::Integer(7))],
    ).unwrap();
    let rows = p.query_named("all_foo".to_string(), vec![]).unwrap();
    assert_eq!(rows, vec![vec![("x".to_string(), SqlValue::Integer(7))]]);
}

#[test]
fn named_lookup_does_not_cross_kinds() {
    let p = fresh();
    p.mutate_raw("CREATE TABLE foo (x INTEGER)").unwrap();
    p.set_policy(demo_policy()).unwrap();
    match p.query_named("add_foo".to_string(), vec![]) {
        Err(PersistenceError::NoSuchQuery(n)) => assert_eq!(n, "add_foo"),
        other => panic!("unexpected result: {:?}", other),
    }
    match p.mutate_named("all_foo".to_string(), vec![]) {
        Err(PersistenceError::NoSuchQuery(n)) => assert_eq!(n, "all_foo"),
        other => panic!("unexpected result: {:?}", other),
    }
}

#[test]
fn bool_parameter_reaches_engine_as_integer() {
    let p = fresh();
    p.set_policy(Policy {
        queries: vec![QueryPolicy {
            name: "echo".to_string(),
            raw_sql: "SELECT :b AS r".to_string(),
        }],
        mutations: vec![],
    }).unwrap();
    let rows = p.query_named(
        "echo".to_string(),
        vec![(":b".to_string(), WireValue::Bool(true))],
    ).unwrap();
    assert_eq!(rows, vec![vec![("r".to_string(), SqlValue::Integer(1))]]);
}

#[test]
fn float_parameter_round_trips_through_engine() {
    let p = fresh();
    p.set_policy(Policy {
        queries: vec![QueryPolicy {
            name: "echo".to_string(),
            raw_sql: "SELECT :f AS r".to_string(),
        }],
        mutations: vec![],
    }).unwrap();
    let rows = p.query_named(
        "echo".to_string(),
        vec![(":f".to_string(), WireValue::Float(rusqlite::types::Value::Real(2.5)))],
    ).unwrap();
    assert_eq!(rows, vec![vec![("r".to_string(), SqlValue::Float((2.5f64).to_bits()))]]);
}

#[test]
fn composite_parameter_is_rejected() {
    let p = fresh();
    p.set_policy(demo_policy()).unwrap();
    match p.query_named(
        "all_foo".to_string(),
        vec![("a".to_string(), WireValue::Composite)],
    ) {
        Err(PersistenceError::Unknown(m)) => assert_eq!(m, "unsupported parameter shape"),
        other => panic!("unexpected result: {:?}", other),
    }
}

#[test]
fn policy_round_trips_as_multiset() {
    let p = fresh();
    let stored = Policy {
        queries: vec![
            QueryPolicy { name: "q1".to_string(), raw_sql: "SELECT 1".to_string() },
            QueryPolicy { name: "q2".to_string(), raw_sql: "SELECT 2".to_string() },
        ],
        mutations: vec![MutationPolicy {
            name: "m1".to_string(),
            raw_sql: "DELETE FROM foo".to_string(),
        }],
    };
    p.set_policy(stored).unwrap();
    let fetched = p.fetch_policy().unwrap();
    let mut queries: Vec<(String, String)> = fetched
        .queries
        .iter()
        .map(|q| (q.name.clone(), q.raw_sql.clone()))
        .collect();
    queries.sort();
    assert_eq!(
        queries,
        vec![
            ("q1".to_string(), "SELECT 1".to_string()),
            ("q2".to_string(), "SELECT 2".to_string()),
        ]
    );
    let mutations: Vec<(String, String)> = fetched
        .mutations
        .iter()
        .map(|m| (m.name.clone(), m.raw_sql.clone()))
        .collect();
    assert_eq!(mutations, vec![("m1".to_string(), "DELETE FROM foo".to_string())]);
}

#[test]
fn set_policy_replaces_everything() {
    let p = fresh();
    p.set_policy(demo_policy()).unwrap();
    p.set_policy(Policy {
        queries: vec![QueryPolicy {
            name: "only".to_string(),
            raw_sql: "SELECT 1".to_string(),
        }],
        mutations: vec![],
    }).unwrap();
    let fetched = p.fetch_policy().unwrap();
    assert_eq!(fetched.queries.len(), 1);
    assert_eq!(fetched.queries[0].name, "only");
    assert!(fetched.mutations.is_empty());
    match p.query_named("all_foo".to_string(), vec![]) {
        Err(PersistenceError::NoSuchQuery(_)) => {},
        other => panic!("unexpected result: {:?}", other),
    }
}

#[test]
fn duplicate_policy_entry_fails_whole_set() {
    let p = fresh();
    let dup = Policy {
        queries: vec![
            QueryPolicy { name: "q".to_string(), raw_sql: "SELECT 1".to_string() },
            QueryPolicy { name: "q".to_string(), raw_sql: "SELECT 2".to_string() },
        ],
        mutations: vec![],
    };
    match p.set_policy(dup) {
        Err(PersistenceError::Unknown(_)) => {},
        other => panic!("unexpected result: {:?}", other),
    }
    let fetched = p.fetch_policy().unwrap();
    assert!(fetched.queries.is_empty());
}

#[test]
fn databases_are_isolated() {
    let a = fresh();
    let b = fresh();
    a.mutate_raw("CREATE TABLE t (x INTEGER)").unwrap();
    a.mutate_raw("INSERT INTO t (x) VALUES (1)").unwrap();
    match b.query_raw("SELECT x FROM t") {
        Err(PersistenceError::Unknown(_)) => {},
        other => panic!("the second database saw the first one's table: {:?}", other),
    }
    let rows = a.query_raw("SELECT x FROM t").unwrap();
    assert_eq!(rows.len(), 1);
}

#[test]
fn interrupt_handle_is_safe_when_idle() {
    let p = fresh();
    let handle = p.get_interrupt_handle();
    handle.interrupt();
    handle.interrupt();
    p.mutate_raw("CREATE TABLE t (x INTEGER)").unwrap();
}

#[test]
fn error_envelope_fields() {
    assert_eq!(PersistenceError::Busy.error_code(), "busy");
    assert_eq!(
        PersistenceError::Busy.error_message(),
        "Database is busy, back off and try again"
    );
    assert_eq!(PersistenceError::Interrupted.error_code(), "interrupted");
    assert_eq!(
        PersistenceError::Interrupted.error_message(),
        "Operation was interrupted"
    );
    assert_eq!(
        PersistenceError::Unknown("boom".to_string()).error_code(),
        "unknown"
    );
    assert_eq!(PersistenceError::Unknown("boom".to_string()).error_message(), "boom");
    assert_eq!(PersistenceError::Busy.detail_name(), None);
}
