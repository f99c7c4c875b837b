use ezdb::tokens::DatabaseAddress;
use ezdb::tokens::DatabaseId;
use ezdb::tokens::ProjectId;
use ezdb::tokens::is_admin_token;
use ezdb::tokens::is_valid_token;
use ezdb::tokens::parse_address;

#[test]
fn accepts_minimal_token() {
    assert!(is_valid_token("a"));
    assert!(is_valid_token("Z"));
}

#[test]
fn rejects_empty_token() {
    assert!(!is_valid_token(""));
}

#[test]
fn accepts_alphanumeric_tail() {
    assert!(is_valid_token("a1B2c3"));
    assert!(is_valid_token("project9"));
}

#[test]
fn rejects_leading_digit() {
    assert!(!is_valid_token("1bad"));
    assert!(!is_valid_token("9"));
}

#[test]
fn rejects_punctuation_and_spaces() {
    assert!(!is_valid_token("a-b"));
    assert!(!is_valid_token("a b"));
    assert!(!is_valid_token("a_b"));
    assert!(!is_valid_token("a/b"));
    assert!(!is_valid_token("a.b"));
}

#[test]
fn rejects_non_ascii() {
    assert!(!is_valid_token("caf\u{e9}"));
    assert!(!is_valid_token("\u{e9}"));
}

#[test]
fn enforces_length_bounds() {
    let ok: String = "a".repeat(32);
    assert!(is_valid_token(&ok));
    let long: String = "a".repeat(33);
    assert!(!is_valid_token(&long));
}

#[test]
fn filename_projection() {
    let project_id = ProjectId::new("p").unwrap();
    let database_id = DatabaseId::new("db").unwrap();
    let addr = DatabaseAddress { project_id, database_id };
    assert_eq!(addr.filename(), "p-db.sqlite");
}

#[test]
fn parse_address_accepts_valid_segments() {
    let addr = parse_address("proj1", "db2").unwrap();
    assert_eq!(addr.project_id.as_str(), "proj1");
    assert_eq!(addr.database_id.as_str(), "db2");
}

#[test]
fn bad_token_rejected_before_routing() {
    assert!(parse_address("1bad", "db").is_none());
    assert!(parse_address("p", "bad!").is_none());
}

#[test]
fn admin_credential_is_exact() {
    assert!(is_admin_token("admin"));
    assert!(!is_admin_token("Admin"));
    assert!(!is_admin_token("admin "));
    assert!(!is_admin_token(""));
}

#[test]
fn address_equality_is_by_text() {
    let a = parse_address("p", "db").unwrap();
    let b = parse_address("p", "db").unwrap();
    let c = parse_address("p", "dc").unwrap();
    assert!(a.addr_eq(&b));
    assert!(!a.addr_eq(&c));
}
