use ezdb::errors::PersistenceError;
use ezdb::persistence::bind_verdict;
use ezdb::persistence::lookup_verdict;
use ezdb::persistence::mutation_policies_of_pairs;
use ezdb::persistence::named_pairs_of_rows;
use ezdb::persistence::policy_row_args;
use ezdb::persistence::query_policies_of_pairs;
use ezdb::values::SqlValue;

#[test]
fn policy_rows_carry_kind_name_and_sql() {
    let q = policy_row_args(true, &"q".to_string(), &"SELECT 1".to_string());
    assert_eq!(q, vec!["query".to_string(), "q".to_string(), "SELECT 1".to_string()]);
    let m = policy_row_args(false, &"m".to_string(), &"DELETE FROM t".to_string());
    assert_eq!(
        m,
        vec!["mutation".to_string(), "m".to_string(), "DELETE FROM t".to_string()]
    );
}

#[test]
fn metadata_rows_read_back_as_pairs() {
    let rows = vec![
        vec![
            ("name".to_string(), SqlValue::Text("q1".to_string())),
            ("raw_sql".to_string(), SqlValue::Text("SELECT 1".to_string())),
        ],
        vec![
            ("name".to_string(), SqlValue::Text("q2".to_string())),
            ("raw_sql".to_string(), SqlValue::Text("SELECT 2".to_string())),
        ],
    ];
    let pairs = named_pairs_of_rows(rows).unwrap();
    assert_eq!(
        pairs,
        vec![
            ("q1".to_string(), "SELECT 1".to_string()),
            ("q2".to_string(), "SELECT 2".to_string()),
        ]
    );
}

#[test]
fn malformed_metadata_row_is_reported() {
    let short = vec![vec![("name".to_string(), SqlValue::Text("q".to_string()))]];
    assert!(matches!(named_pairs_of_rows(short), Err(PersistenceError::Unknown(_))));
    let wrong_type = vec![vec![
        ("name".to_string(), SqlValue::Integer(1)),
        ("raw_sql".to_string(), SqlValue::Text("SELECT 1".to_string())),
    ]];
    assert!(matches!(named_pairs_of_rows(wrong_type), Err(PersistenceError::Unknown(_))));
}

#[test]
fn pairs_become_policy_entries_in_order() {
    let pairs = vec![
        ("a".to_string(), "SELECT 1".to_string()),
        ("b".to_string(), "SELECT 2".to_string()),
    ];
    let queries = query_policies_of_pairs(pairs.clone());
    assert_eq!(queries.len(), 2);
    assert_eq!(queries[0].name, "a");
    assert_eq!(queries[0].raw_sql, "SELECT 1");
    assert_eq!(queries[1].name, "b");
    let mutations = mutation_policies_of_pairs(pairs);
    assert_eq!(mutations.len(), 2);
    assert_eq!(mutations[1].name, "b");
    assert_eq!(mutations[1].raw_sql, "SELECT 2");
}

#[test]
fn lookup_verdict_hands_on_stored_sql() {
    let r = lookup_verdict(Some("SELECT 1".to_string()), "q".to_string());
    assert_eq!(r, Ok("SELECT 1".to_string()));
}

#[test]
fn lookup_verdict_reports_missing_name() {
    let r = lookup_verdict(None, "missing".to_string());
    assert_eq!(r, Err(PersistenceError::NoSuchQuery("missing".to_string())));
}

#[test]
fn bind_verdict_accepts_bound_and_names_unbound() {
    assert_eq!(bind_verdict(true, &":v".to_string()), Ok(()));
    match bind_verdict(false, &":v".to_string()) {
        Err(PersistenceError::Unknown(m)) => assert_eq!(m, "invalid parameter name: :v"),
        other => panic!("unexpected bind result: {:?}", other),
    }
}
