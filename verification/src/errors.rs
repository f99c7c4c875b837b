//! The error taxonomy of the core, and its projection onto the wire
//! envelope's `code` / `message` / `details.name` fields.

use vstd::prelude::*;

verus! {

/// Every failure the core can surface. `Unknown` carries an opaque
/// engine-supplied message; `NoSuchQuery` names the missing policy entry;
/// `Interrupted` reports cooperative cancellation; `Busy` reports a full
/// worker mailbox.
#[derive(Debug, Clone, PartialEq, Eq)]
pub enum PersistenceError {
    Unknown(String),
    NoSuchQuery(String),
    Busy,
    Interrupted,
}

/// The envelope `code` for each error kind.
pub open spec fn spec_error_code(e: PersistenceError) -> Seq<char> {
    match e {
        PersistenceError::Unknown(_) => "unknown"@,
        PersistenceError::NoSuchQuery(_) => "not_found"@,
        PersistenceError::Interrupted => "interrupted"@,
        PersistenceError::Busy => "busy"@,
    }
}

/// The envelope `message` for each error kind.
pub open spec fn spec_error_message(e: PersistenceError) -> Seq<char> {
    match e {
        PersistenceError::Unknown(m) => m@,
        PersistenceError::NoSuchQuery(_) => "no such query"@,
        PersistenceError::Interrupted => "Operation was interrupted"@,
        PersistenceError::Busy => "Database is busy, back off and try again"@,
    }
}

impl PersistenceError {
    /// The `code` field of the error envelope.
    pub fn error_code(&self) -> (r: String)
        ensures
            r@ == spec_error_code(*self),
    {
        match self {
            PersistenceError::Unknown(_) => "unknown".to_owned(),
            PersistenceError::NoSuchQuery(_) => "not_found".to_owned(),
            PersistenceError::Interrupted => "interrupted".to_owned(),
            PersistenceError::Busy => "busy".to_owned(),
        }
    }

    /// The `message` field of the error envelope.
    pub fn error_message(&self) -> (r: String)
        ensures
            r@ == spec_error_message(*self),
    {
        match self {
            PersistenceError::Unknown(m) => m.clone(),
            PersistenceError::NoSuchQuery(_) => "no such query".to_owned(),
            PersistenceError::Interrupted => "Operation was interrupted".to_owned(),
            PersistenceError::Busy => "Database is busy, back off and try again".to_owned(),
        }
    }

    /// The `details.name` field of the error envelope: present exactly for a
    /// missing named query.
    pub fn detail_name(&self) -> (r: Option<String>)
        ensures
            self matches PersistenceError::NoSuchQuery(m) ==> r matches Some(n) && n@ == m@,
            !(self is NoSuchQuery) ==> r is None,
    {
        match self {
            PersistenceError::NoSuchQuery(n) => Some(n.clone()),
            _ => None,
        }
    }
}

/// The failures the engine itself can produce at the persistence boundary:
/// never `Busy` (that is the worker mailbox's verdict) and never
/// `NoSuchQuery` (that is the policy lookup's verdict).
pub open spec fn spec_engine_failure(e: PersistenceError) -> bool {
    e is Interrupted || e is Unknown
}

/// Folds the engine's verdict on a failed call into the core's taxonomy: an
/// interrupt becomes `Interrupted`, anything else keeps the engine's message
/// as `Unknown`.
pub fn classify_engine_failure(interrupted: bool, message: String) -> (r: PersistenceError)
    ensures
        interrupted ==> r == PersistenceError::Interrupted,
        !interrupted ==> r == PersistenceError::Unknown(message),
{
    if interrupted {
        PersistenceError::Interrupted
    } else {
        PersistenceError::Unknown(message)
    }
}

} // verus!
