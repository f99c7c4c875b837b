//! The persistence façade: one SQL connection per instance, the six data
//! operations against it, and the metadata table that stores the policy.
//!
//! Every operation classifies an engine failure through
//! [`crate::errors::spec_engine_failure`]: the façade itself never reports
//! `Busy` (only a worker mailbox does) and reports `NoSuchQuery` exactly for
//! a named operation whose name the metadata table does not hold.

use vstd::prelude::*;
use vstd::string::StringExecFns;
use crate::errors::PersistenceError;
use crate::errors::classify_engine_failure;
use crate::errors::spec_engine_failure;
use crate::policy::MutationPolicy;
use crate::policy::Policy;
use crate::policy::QueryPolicy;
use crate::rows::build_table;
use crate::rows::table_wf;
use crate::sqlite::conn_execute;
use crate::sqlite::conn_execute_text_params;
use crate::sqlite::conn_interrupt_handle;
use crate::sqlite::conn_open_in_memory;
use crate::sqlite::conn_open_path;
use crate::sqlite::conn_prepare;
use crate::sqlite::conn_query_single_text;
use crate::sqlite::engine_error_is_interrupt;
use crate::sqlite::engine_error_text;
use crate::sqlite::stmt_bind_named;
use crate::sqlite::stmt_collect_rows;
use crate::sqlite::stmt_raw_execute;
use crate::tokens::DatabaseAddress;
use crate::values::SqlValue;
use crate::values::WireValue;
use crate::values::bridge_params;

verus! {

/// Maps one engine error into the core's taxonomy: an interrupt verdict
/// becomes `Interrupted`, anything else keeps the engine's text as
/// `Unknown`.
fn map_engine_error(e: rusqlite::Error) -> (r: PersistenceError)
    ensures
        spec_engine_failure(r),
{
    let interrupted = engine_error_is_interrupt(&e);
    let text = engine_error_text(&e);
    classify_engine_failure(interrupted, text)
}

/// Creates the metadata table when it is not there yet; runs on every open.
fn initialize_metadata(conn: &rusqlite::Connection) -> (r: Result<(), PersistenceError>)
    ensures
        r matches Err(e) ==> spec_engine_failure(e),
{
    let created = conn_execute(
        conn,
        "CREATE TABLE IF NOT EXISTS __ezdb_metadata__ (type TEXT NOT NULL, name TEXT NOT NULL, raw_sql TEXT NOT NULL, PRIMARY KEY (type, name))",
    );
    match created {
        Ok(_) => Ok(()),
        Err(e) => Err(map_engine_error(e)),
    }
}

/// A persistence façade backed by one embedded SQL connection.
pub struct SqlitePersistence {
    conn: rusqlite::Connection,
}

impl SqlitePersistence {
    /// Opens a fresh, ephemeral in-memory database.
    pub fn in_memory() -> (r: Result<SqlitePersistence, PersistenceError>)
        ensures
            r matches Err(e) ==> spec_engine_failure(e),
    {
        match conn_open_in_memory() {
            Err(e) => Err(map_engine_error(e)),
            Ok(conn) => {
                match initialize_metadata(&conn) {
                    Err(e) => Err(e),
                    Ok(()) => Ok(SqlitePersistence { conn }),
                }
            },
        }
    }

    /// Opens (creating it on first use) the database file at `path`.
    pub fn from_file(path: &str) -> (r: Result<SqlitePersistence, PersistenceError>)
        ensures
            r matches Err(e) ==> spec_engine_failure(e),
    {
        match conn_open_path(path) {
            Err(e) => Err(map_engine_error(e)),
            Ok(conn) => {
                match initialize_metadata(&conn) {
                    Err(e) => Err(e),
                    Ok(()) => Ok(SqlitePersistence { conn }),
                }
            },
        }
    }

    /// A sendable handle that cancels whatever statement is executing
    /// against this connection when fired, from any thread.
    pub fn get_interrupt_handle(&self) -> rusqlite::InterruptHandle {
        conn_interrupt_handle(&self.conn)
    }

    /// Runs one ad-hoc query with no parameters and returns its rows, each
    /// an ordered map from column name to value.
    pub fn query_raw(&self, query: &str) -> (r: Result<
        Vec<Vec<(String, SqlValue)>>,
        PersistenceError,
    >)
        ensures
            r matches Ok(t) ==> table_wf(t@),
            r matches Err(e) ==> spec_engine_failure(e),
    {
        let mut stmt = match conn_prepare(&self.conn, query) {
            Ok(s) => s,
            Err(e) => {
                return Err(map_engine_error(e));
            },
        };
        match stmt_collect_rows(&mut stmt) {
            Ok(raw) => Ok(build_table(raw)),
            Err(e) => Err(map_engine_error(e)),
        }
    }

    /// Executes one ad-hoc statement with no parameters and no row output.
    pub fn mutate_raw(&self, stmt: &str) -> (r: Result<(), PersistenceError>)
        ensures
            r matches Err(e) ==> spec_engine_failure(e),
    {
        match conn_execute(&self.conn, stmt) {
            Ok(_) => Ok(()),
            Err(e) => Err(map_engine_error(e)),
        }
    }

    /// Resolves `name` in the policy's queries and runs the stored SQL with
    /// `params` bound by name, inside one transaction.
    ///
    /// The failure taxonomy: `NoSuchQuery(name)` exactly when the metadata
    /// table holds no query called `name`; never `Busy`; otherwise what the
    /// engine or the parameter bridge reports.
    pub fn query_named(&self, name: String, params: Vec<(String, WireValue)>) -> (r: Result<
        Vec<Vec<(String, SqlValue)>>,
        PersistenceError,
    >)
        ensures
            r matches Ok(t) ==> table_wf(t@),
            !(r matches Err(PersistenceError::Busy)),
            r matches Err(PersistenceError::NoSuchQuery(n)) ==> n@ == name@,
            (exists|i: int|
                0 <= i < params@.len() && (#[trigger] params@[i].1) is Composite) ==> !(
            r is Ok),
    {
        match self.run_named(true, name, params) {
            Ok(t) => Ok(t),
            Err(e) => Err(e),
        }
    }

    /// Resolves `name` in the policy's mutations and executes the stored
    /// SQL with `params` bound by name, inside one transaction; no row
    /// output. The failure taxonomy is that of [`Self::query_named`].
    pub fn mutate_named(&self, name: String, params: Vec<(String, WireValue)>) -> (r: Result<
        (),
        PersistenceError,
    >)
        ensures
            !(r matches Err(PersistenceError::Busy)),
            r matches Err(PersistenceError::NoSuchQuery(n)) ==> n@ == name@,
            (exists|i: int|
                0 <= i < params@.len() && (#[trigger] params@[i].1) is Composite) ==> !(
            r is Ok),
    {
        match self.run_named(false, name, params) {
            Ok(_) => Ok(()),
            Err(e) => Err(e),
        }
    }

    /// The shared body of the two named operations: looks the name up under
    /// the requested kind, bridges and binds the parameters, and runs the
    /// statement, all inside one transaction that is rolled back on any
    /// failure.
    fn run_named(&self, is_query: bool, name: String, params: Vec<(String, WireValue)>) -> (r:
        Result<Vec<Vec<(String, SqlValue)>>, PersistenceError>)
        ensures
            r matches Ok(t) ==> table_wf(t@),
            !(r matches Err(PersistenceError::Busy)),
            r matches Err(PersistenceError::NoSuchQuery(n)) ==> n@ == name@,
            (exists|i: int|
                0 <= i < params@.len() && (#[trigger] params@[i].1) is Composite) ==> !(
            r is Ok),
    {
        if let Err(e) = conn_execute(&self.conn, "BEGIN DEFERRED") {
            return Err(map_engine_error(e));
        }
        let lookup_sql = if is_query {
            "SELECT raw_sql FROM __ezdb_metadata__ WHERE type = 'query' AND name = ?"
        } else {
            "SELECT raw_sql FROM __ezdb_metadata__ WHERE type = 'mutation' AND name = ?"
        };
        let found = match conn_query_single_text(&self.conn, lookup_sql, name.as_str()) {
            Err(e) => {
                self.rollback();
                return Err(map_engine_error(e));
            },
            Ok(f) => f,
        };
        let stored = match lookup_verdict(found, name) {
            Err(e) => {
                self.rollback();
                return Err(e);
            },
            Ok(sql) => sql,
        };
        let bound = match bridge_params(params) {
            Err(e) => {
                self.rollback();
                return Err(e);
            },
            Ok(b) => b,
        };
        let mut stmt = match conn_prepare(&self.conn, stored.as_str()) {
            Err(e) => {
                self.rollback();
                return Err(map_engine_error(e));
            },
            Ok(s) => s,
        };
        let mut i: usize = 0;
        while i < bound.len()
            decreases bound.len() - i,
        {
            match stmt_bind_named(&mut stmt, bound[i].0.as_str(), &bound[i].1) {
                Err(e) => {
                    self.rollback();
                    return Err(map_engine_error(e));
                },
                Ok(was_bound) => {
                    if let Err(e) = bind_verdict(was_bound, &bound[i].0) {
                        self.rollback();
                        return Err(e);
                    }
                },
            }
            i = i + 1;
        }
        let rows = if is_query {
            match stmt_collect_rows(&mut stmt) {
                Err(e) => {
                    self.rollback();
                    return Err(map_engine_error(e));
                },
                Ok(raw) => build_table(raw),
            }
        } else {
            match stmt_raw_execute(&mut stmt) {
                Err(e) => {
                    self.rollback();
                    return Err(map_engine_error(e));
                },
                Ok(_) => Vec::new(),
            }
        };
        if let Err(e) = conn_execute(&self.conn, "COMMIT") {
            self.rollback();
            return Err(map_engine_error(e));
        }
        Ok(rows)
    }

    /// Abandons the open transaction; its own failure is ignored, as there
    /// is nothing left to undo.
    fn rollback(&self) {
        let _ = conn_execute(&self.conn, "ROLLBACK");
    }

    /// Reads the whole policy out of the metadata table: first the queries,
    /// then the mutations, each in the engine's scan order.
    pub fn fetch_policy(&self) -> (r: Result<Policy, PersistenceError>)
        ensures
            r matches Err(e) ==> spec_engine_failure(e),
    {
        let qrows = match self.query_raw(
            "SELECT name, raw_sql FROM __ezdb_metadata__ WHERE type = 'query'",
        ) {
            Err(e) => {
                return Err(e);
            },
            Ok(t) => t,
        };
        let qpairs = match named_pairs_of_rows(qrows) {
            Err(e) => {
                return Err(e);
            },
            Ok(v) => v,
        };
        let mrows = match self.query_raw(
            "SELECT name, raw_sql FROM __ezdb_metadata__ WHERE type = 'mutation'",
        ) {
            Err(e) => {
                return Err(e);
            },
            Ok(t) => t,
        };
        let mpairs = match named_pairs_of_rows(mrows) {
            Err(e) => {
                return Err(e);
            },
            Ok(v) => v,
        };
        Ok(Policy { queries: query_policies_of_pairs(qpairs), mutations: mutation_policies_of_pairs(mpairs) })
    }

    /// Replaces the whole policy: inside one transaction, deletes every
    /// metadata row, then inserts one `(kind, name, raw_sql)` row per entry,
    /// queries first. A conflict inside the new policy surfaces as the
    /// engine's own failure.
    pub fn set_policy(&self, policy: Policy) -> (r: Result<(), PersistenceError>)
        ensures
            r matches Err(e) ==> spec_engine_failure(e),
    {
        if let Err(e) = conn_execute(&self.conn, "BEGIN DEFERRED") {
            return Err(map_engine_error(e));
        }
        if let Err(e) = conn_execute(&self.conn, "DELETE FROM __ezdb_metadata__") {
            self.rollback();
            return Err(map_engine_error(e));
        }
        let mut i: usize = 0;
        while i < policy.queries.len()
            decreases policy.queries.len() - i,
        {
            let args = policy_row_args(true, &policy.queries[i].name, &policy.queries[i].raw_sql);
            if let Err(e) = conn_execute_text_params(
                &self.conn,
                "INSERT INTO __ezdb_metadata__ (type, name, raw_sql) VALUES (?, ?, ?)",
                &args,
            ) {
                self.rollback();
                return Err(map_engine_error(e));
            }
            i = i + 1;
        }
        let mut j: usize = 0;
        while j < policy.mutations.len()
            decreases policy.mutations.len() - j,
        {
            let args = policy_row_args(
                false,
                &policy.mutations[j].name,
                &policy.mutations[j].raw_sql,
            );
            if let Err(e) = conn_execute_text_params(
                &self.conn,
                "INSERT INTO __ezdb_metadata__ (type, name, raw_sql) VALUES (?, ?, ?)",
                &args,
            ) {
                self.rollback();
                return Err(map_engine_error(e));
            }
            j = j + 1;
        }
        if let Err(e) = conn_execute(&self.conn, "COMMIT") {
            self.rollback();
            return Err(map_engine_error(e));
        }
        Ok(())
    }
}

/// What a persistence backend owes the worker: the six data operations with
/// their failure taxonomy, and the interrupt handle. `Busy` is never a
/// backend's verdict, and `NoSuchQuery` carries exactly the name a named
/// operation failed to resolve.
pub trait Persistence: Sized {
    fn query_named(&self, name: String, params: Vec<(String, WireValue)>) -> (r: Result<
        Vec<Vec<(String, SqlValue)>>,
        PersistenceError,
    >)
        ensures
            r matches Ok(t) ==> table_wf(t@),
            !(r matches Err(PersistenceError::Busy)),
            r matches Err(PersistenceError::NoSuchQuery(n)) ==> n@ == name@,
    ;

    fn mutate_named(&self, name: String, params: Vec<(String, WireValue)>) -> (r: Result<
        (),
        PersistenceError,
    >)
        ensures
            !(r matches Err(PersistenceError::Busy)),
            r matches Err(PersistenceError::NoSuchQuery(n)) ==> n@ == name@,
    ;

    fn query_raw(&self, query: String) -> (r: Result<
        Vec<Vec<(String, SqlValue)>>,
        PersistenceError,
    >)
        ensures
            r matches Ok(t) ==> table_wf(t@),
            r matches Err(e) ==> spec_engine_failure(e),
    ;

    fn mutate_raw(&self, stmt: String) -> (r: Result<(), PersistenceError>)
        ensures
            r matches Err(e) ==> spec_engine_failure(e),
    ;

    fn fetch_policy(&self) -> (r: Result<Policy, PersistenceError>)
        ensures
            r matches Err(e) ==> spec_engine_failure(e),
    ;

    fn set_policy(&self, policy: Policy) -> (r: Result<(), PersistenceError>)
        ensures
            r matches Err(e) ==> spec_engine_failure(e),
    ;

    fn get_interrupt_handle(&self) -> rusqlite::InterruptHandle;
}

impl Persistence for SqlitePersistence {
    fn query_named(&self, name: String, params: Vec<(String, WireValue)>) -> (r: Result<
        Vec<Vec<(String, SqlValue)>>,
        PersistenceError,
    >) {
        SqlitePersistence::query_named(self, name, params)
    }

    fn mutate_named(&self, name: String, params: Vec<(String, WireValue)>) -> (r: Result<
        (),
        PersistenceError,
    >) {
        SqlitePersistence::mutate_named(self, name, params)
    }

    fn query_raw(&self, query: String) -> (r: Result<
        Vec<Vec<(String, SqlValue)>>,
        PersistenceError,
    >) {
        SqlitePersistence::query_raw(self, query.as_str())
    }

    fn mutate_raw(&self, stmt: String) -> (r: Result<(), PersistenceError>) {
        SqlitePersistence::mutate_raw(self, stmt.as_str())
    }

    fn fetch_policy(&self) -> (r: Result<Policy, PersistenceError>) {
        SqlitePersistence::fetch_policy(self)
    }

    fn set_policy(&self, policy: Policy) -> (r: Result<(), PersistenceError>) {
        SqlitePersistence::set_policy(self, policy)
    }

    fn get_interrupt_handle(&self) -> rusqlite::InterruptHandle {
        SqlitePersistence::get_interrupt_handle(self)
    }
}

/// The verdict on a policy lookup, for every value the metadata query can
/// return: a stored SQL text is handed on unchanged, and an absent name
/// fails with `NoSuchQuery` carrying exactly that name — so a missing named
/// operation is decided here, before any user SQL is prepared or run.
pub fn lookup_verdict(stored: Option<String>, name: String) -> (r: Result<
    String,
    PersistenceError,
>)
    ensures
        stored matches Some(s) ==> r == Ok::<String, PersistenceError>(s),
        stored is None ==> r == Err::<String, PersistenceError>(
            PersistenceError::NoSuchQuery(name),
        ),
{
    match stored {
        Some(s) => Ok(s),
        None => Err(PersistenceError::NoSuchQuery(name)),
    }
}

/// The verdict on one parameter bind, for either outcome the statement can
/// report: a bound parameter is accepted; a name the statement does not
/// know fails as `Unknown`, naming the offending parameter.
pub fn bind_verdict(was_bound: bool, name: &String) -> (r: Result<(), PersistenceError>)
    ensures
        was_bound ==> r is Ok,
        !was_bound ==> (r matches Err(PersistenceError::Unknown(m)) && m@
            == "invalid parameter name: "@ + name@),
{
    if was_bound {
        Ok(())
    } else {
        let mut text = "invalid parameter name: ".to_owned();
        text.append(name.as_str());
        Err(PersistenceError::Unknown(text))
    }
}

/// The metadata row written for one policy entry: its kind tag, its name,
/// and its SQL, in the insert statement's parameter order.
pub fn policy_row_args(kind_is_query: bool, name: &String, raw_sql: &String) -> (r: Vec<String>)
    ensures
        r@.len() == 3,
        kind_is_query ==> r@[0]@ == "query"@,
        !kind_is_query ==> r@[0]@ == "mutation"@,
        r@[1]@ == name@,
        r@[2]@ == raw_sql@,
{
    let mut v: Vec<String> = Vec::new();
    if kind_is_query {
        v.push("query".to_owned());
    } else {
        v.push("mutation".to_owned());
    }
    v.push(name.clone());
    v.push(raw_sql.clone());
    v
}

/// What one metadata row must look like to yield a policy entry: exactly
/// the two selected text columns, as `(name, raw_sql)`.
pub open spec fn spec_text_pair(row: Seq<(String, SqlValue)>) -> Option<(Seq<char>, Seq<char>)> {
    if row.len() == 2 {
        match (row[0].1, row[1].1) {
            (SqlValue::Text(a), SqlValue::Text(b)) => Some((a@, b@)),
            _ => None,
        }
    } else {
        None
    }
}

/// Reads each metadata row as a `(name, raw_sql)` pair; any row of another
/// shape means the metadata table was tampered with, and is reported as an
/// `Unknown` failure.
#[verifier::loop_isolation(false)]
pub fn named_pairs_of_rows(rows: Vec<Vec<(String, SqlValue)>>) -> (r: Result<
    Vec<(String, String)>,
    PersistenceError,
>)
    ensures
        r is Ok <==> (forall|i: int|
            0 <= i < rows@.len() ==> (#[trigger] spec_text_pair(rows@[i]@)) is Some),
        r matches Ok(v) ==> v@.len() == rows@.len() && (forall|i: int|
            0 <= i < v@.len() ==> (spec_text_pair(rows@[i]@) matches Some(p) && (
            #[trigger] v@[i]).0@ == p.0 && v@[i].1@ == p.1)),
        r matches Err(e) ==> e is Unknown,
{
    let ghost orig = rows@;
    let mut rest = rows;
    let mut out: Vec<(String, String)> = Vec::new();
    let ghost p: int = 0;
    loop
        invariant
            0 <= p <= orig.len(),
            rest@ =~= orig.skip(p),
            out@.len() == p,
            forall|i: int| 0 <= i < p ==> (#[trigger] spec_text_pair(orig[i]@)) is Some,
            forall|i: int|
                0 <= i < p ==> (spec_text_pair(orig[i]@) matches Some(q) && (#[trigger] out@[i]).0@
                    == q.0 && out@[i].1@ == q.1),
        decreases orig.len() - p,
    {
        if rest.len() == 0 {
            return Ok(out);
        }
        proof {
            assert(orig.skip(p)[0] == orig[p]);
        }
        let row = rest.remove(0);
        proof {
            assert(rest@ =~= orig.skip(p + 1));
            assert(row == orig[p]);
        }
        let ghost r0 = row@;
        if row.len() != 2 {
            proof {
                assert(spec_text_pair(orig[p]@) is None);
            }
            return Err(PersistenceError::Unknown("malformed policy metadata row".to_owned()));
        }
        let mut row = row;
        let (_n1, v1) = row.remove(0);
        proof {
            assert(v1 == r0[0].1);
            assert(row@[0] == r0[1]);
        }
        let (_n2, v2) = row.remove(0);
        proof {
            assert(v2 == r0[1].1);
        }
        match (v1, v2) {
            (SqlValue::Text(a), SqlValue::Text(b)) => {
                proof {
                    assert(spec_text_pair(orig[p]@) matches Some(q) && q.0 == a@ && q.1 == b@);
                }
                out.push((a, b));
            },
            _ => {
                proof {
                    assert(spec_text_pair(orig[p]@) is None);
                }
                return Err(
                    PersistenceError::Unknown("malformed policy metadata row".to_owned()),
                );
            },
        }
        proof {
            p = p + 1;
        }
    }
}

/// Wraps fetched `(name, raw_sql)` pairs as the policy's queries, in order.
#[verifier::loop_isolation(false)]
pub fn query_policies_of_pairs(pairs: Vec<(String, String)>) -> (r: Vec<QueryPolicy>)
    ensures
        r@.len() == pairs@.len(),
        forall|i: int|
            0 <= i < r@.len() ==> (#[trigger] r@[i]).name@ == pairs@[i].0@ && r@[i].raw_sql@
                == pairs@[i].1@,
{
    let ghost orig = pairs@;
    let mut rest = pairs;
    let mut out: Vec<QueryPolicy> = Vec::new();
    let ghost p: int = 0;
    loop
        invariant
            0 <= p <= orig.len(),
            rest@ =~= orig.skip(p),
            out@.len() == p,
            forall|i: int|
                0 <= i < p ==> (#[trigger] out@[i]).name@ == orig[i].0@ && out@[i].raw_sql@
                    == orig[i].1@,
        decreases orig.len() - p,
    {
        if rest.len() == 0 {
            return out;
        }
        proof {
            assert(orig.skip(p)[0] == orig[p]);
        }
        let (name, raw_sql) = rest.remove(0);
        proof {
            assert(rest@ =~= orig.skip(p + 1));
        }
        out.push(QueryPolicy { name, raw_sql });
        proof {
            p = p + 1;
        }
    }
}

/// Wraps fetched `(name, raw_sql)` pairs as the policy's mutations, in
/// order.
#[verifier::loop_isolation(false)]
pub fn mutation_policies_of_pairs(pairs: Vec<(String, String)>) -> (r: Vec<MutationPolicy>)
    ensures
        r@.len() == pairs@.len(),
        forall|i: int|
            0 <= i < r@.len() ==> (#[trigger] r@[i]).name@ == pairs@[i].0@ && r@[i].raw_sql@
                == pairs@[i].1@,
{
    let ghost orig = pairs@;
    let mut rest = pairs;
    let mut out: Vec<MutationPolicy> = Vec::new();
    let ghost p: int = 0;
    loop
        invariant
            0 <= p <= orig.len(),
            rest@ =~= orig.skip(p),
            out@.len() == p,
            forall|i: int|
                0 <= i < p ==> (#[trigger] out@[i]).name@ == orig[i].0@ && out@[i].raw_sql@
                    == orig[i].1@,
        decreases orig.len() - p,
    {
        if rest.len() == 0 {
            return out;
        }
        proof {
            assert(orig.skip(p)[0] == orig[p]);
        }
        let (name, raw_sql) = rest.remove(0);
        proof {
            assert(rest@ =~= orig.skip(p + 1));
        }
        out.push(MutationPolicy { name, raw_sql });
        proof {
            p = p + 1;
        }
    }
}

/// The factory that the router consults on the first reference to an
/// address: either every database lives in memory, or each is backed by one
/// file under the configured directory.
pub enum SqliteFactory {
    InMemory,
    FileSystem { dir: String },
}

impl SqliteFactory {
    /// Opens (creating on first use) the database that backs `addr`. A
    /// second open of the same address under a `FileSystem` factory reaches
    /// the same underlying file, by the determinism of the filename
    /// projection.
    pub fn open(&self, addr: &DatabaseAddress) -> (r: Result<SqlitePersistence, PersistenceError>)
        ensures
            r matches Err(e) ==> spec_engine_failure(e),
    {
        match self {
            SqliteFactory::InMemory => SqlitePersistence::in_memory(),
            SqliteFactory::FileSystem { dir } => {
                let mut path = dir.clone();
                path.append("/");
                let fname = addr.filename();
                path.append(fname.as_str());
                SqlitePersistence::from_file(path.as_str())
            },
        }
    }
}

} // verus!
