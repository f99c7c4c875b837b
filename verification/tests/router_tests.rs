use ezdb::persistence::SqliteFactory;
use ezdb::router::Router;
use ezdb::tokens::parse_address;

#[test]
fn same_address_resolves_to_same_worker() {
    let mut router = Router::new(SqliteFactory::InMemory);
    let a1 = parse_address("p", "db").unwrap();
    let a2 = parse_address("p", "db").unwrap();
    let (id1, fresh1) = router.resolve(a1).unwrap();
    assert_eq!(id1, 0);
    assert!(fresh1.is_some());
    let (id2, fresh2) = router.resolve(a2).unwrap();
    assert_eq!(id2, id1);
    assert!(fresh2.is_none());
}

#[test]
fn different_addresses_get_different_workers() {
    let mut router = Router::new(SqliteFactory::InMemory);
    let a = parse_address("p", "a").unwrap();
    let b = parse_address("p", "b").unwrap();
    let q = parse_address("q", "a").unwrap();
    let (ida, fa) = router.resolve(a).unwrap();
    let (idb, fb) = router.resolve(b).unwrap();
    let (idq, fq) = router.resolve(q).unwrap();
    assert!(fa.is_some() && fb.is_some() && fq.is_some());
    assert_ne!(ida, idb);
    assert_ne!(ida, idq);
    assert_ne!(idb, idq);
}

#[test]
fn routes_survive_later_resolutions() {
    let mut router = Router::new(SqliteFactory::InMemory);
    let first = parse_address("p", "db").unwrap();
    let (id_first, _) = router.resolve(first).unwrap();
    for k in 0..5 {
        let other = parse_address("p", &format!("other{}", k)).unwrap();
        router.resolve(other).unwrap();
    }
    let again = parse_address("p", "db").unwrap();
    let (id_again, fresh) = router.resolve(again).unwrap();
    assert_eq!(id_again, id_first);
    assert!(fresh.is_none());
}

#[test]
fn file_backed_databases_share_state_per_address() {
    let dir = "/tmp";
    let addr1 = parse_address("ezdbtest", "shared").unwrap();
    let factory = SqliteFactory::FileSystem { dir: dir.to_string() };
    let first = factory.open(&addr1).unwrap();
    first.mutate_raw("DROP TABLE IF EXISTS t").unwrap();
    first.mutate_raw("CREATE TABLE t (x INTEGER)").unwrap();
    first.mutate_raw("INSERT INTO t (x) VALUES (5)").unwrap();
    let addr2 = parse_address("ezdbtest", "shared").unwrap();
    let second = factory.open(&addr2).unwrap();
    let rows = second.query_raw("SELECT x FROM t").unwrap();
    assert_eq!(rows.len(), 1);
    first.mutate_raw("DROP TABLE t").unwrap();
}
