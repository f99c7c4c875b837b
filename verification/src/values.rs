//! The self-describing value model: wire-level values coming in from the
//! boundary, bind values handed to the engine, and the SQL column values
//! that come back in result rows.
//!
//! Floating-point numbers never appear as plain values inside the core. An
//! inbound floating-point parameter is carried opaquely, as the engine's own
//! owned value, built at the boundary; an outbound floating-point column is
//! carried as the raw bit pattern of the engine's eight-byte real, which the
//! boundary turns back into a number when it renders output.

use vstd::prelude::*;

verus! {

/// A value as the boundary hands it in: the self-describing shapes a JSON
/// body can carry. `Float` holds the engine's owned representation of the
/// number, built at the boundary. `Composite` stands for an array or an
/// object, which the core rejects as a bind parameter.
#[derive(Debug, Clone)]
pub enum WireValue {
    Null,
    Bool(bool),
    Integer(i64),
    Float(rusqlite::types::Value),
    Text(String),
    Composite,
}

/// A value bound as a statement parameter. `Real` holds the engine's owned
/// representation of a floating-point number, passed through untouched.
#[derive(Debug, Clone)]
pub enum BindValue {
    Null,
    Integer(i64),
    Real(rusqlite::types::Value),
    Text(String),
}

/// A SQL column value as a result row holds it. `Float` carries the bit
/// pattern of the engine's eight-byte real.
#[derive(Debug, Clone, PartialEq)]
pub enum SqlValue {
    Null,
    Integer(i64),
    Float(u64),
    Text(String),
    Bytes(Vec<u8>),
}

/// What the bridge makes of one inbound wire value, when it accepts it:
/// booleans are normalised to the integers 0 and 1, everything else keeps
/// its shape. `Composite` has no image; the bridge rejects it.
pub open spec fn spec_bridged(w: WireValue) -> BindValue {
    match w {
        WireValue::Null => BindValue::Null,
        WireValue::Bool(b) => BindValue::Integer(if b { 1 } else { 0 }),
        WireValue::Integer(i) => BindValue::Integer(i),
        WireValue::Float(v) => BindValue::Real(v),
        WireValue::Text(s) => BindValue::Text(s),
        WireValue::Composite => BindValue::Null,  // arbitrary; Composite is never bridged
    }
}

/// Turns one inbound wire value into a bind value, or rejects it.
pub fn bridge_value(w: WireValue) -> (r: Option<BindValue>)
    ensures
        r is Some <==> !(w is Composite),
        r matches Some(v) ==> v == spec_bridged(w),
{
    match w {
        WireValue::Null => Some(BindValue::Null),
        WireValue::Bool(b) => Some(BindValue::Integer(if b { 1 } else { 0 })),
        WireValue::Integer(i) => Some(BindValue::Integer(i)),
        WireValue::Float(v) => Some(BindValue::Real(v)),
        WireValue::Text(s) => Some(BindValue::Text(s)),
        WireValue::Composite => None,
    }
}

/// Bridges a whole parameter list, keeping names and order. The list is
/// accepted exactly when no parameter is an array or an object; a rejected
/// list reports the unsupported shape.
#[verifier::loop_isolation(false)]
pub fn bridge_params(params: Vec<(String, WireValue)>) -> (r: Result<
    Vec<(String, BindValue)>,
    crate::errors::PersistenceError,
>)
    ensures
        r is Ok <==> (forall|i: int|
            0 <= i < params@.len() ==> !((#[trigger] params@[i].1) is Composite)),
        r matches Ok(v) ==> v@.len() == params@.len() && (forall|i: int|
            0 <= i < v@.len() ==> (#[trigger] v@[i]).0@ == params@[i].0@ && v@[i].1
                == spec_bridged(params@[i].1)),
        r matches Err(e) ==> e matches crate::errors::PersistenceError::Unknown(m) && m@
            == "unsupported parameter shape"@,
{
    let ghost orig = params@;
    let mut rest = params;
    let mut out: Vec<(String, BindValue)> = Vec::new();
    let ghost p: int = 0;
    loop
        invariant
            0 <= p <= orig.len(),
            rest@ =~= orig.skip(p),
            out@.len() == p,
            forall|i: int|
                0 <= i < p ==> (#[trigger] out@[i]).0@ == orig[i].0@ && out@[i].1 == spec_bridged(
                    orig[i].1,
                ),
            forall|i: int| 0 <= i < p ==> !((#[trigger] orig[i].1) is Composite),
        decreases orig.len() - p,
    {
        if rest.len() == 0 {
            return Ok(out);
        }
        proof {
            assert(orig.skip(p)[0] == orig[p]);
        }
        let (k, w) = rest.remove(0);
        proof {
            assert(rest@ =~= orig.skip(p + 1));
        }
        match bridge_value(w) {
            Some(b) => {
                out.push((k, b));
            },
            None => {
                return Err(
                    crate::errors::PersistenceError::Unknown(
                        "unsupported parameter shape".to_owned(),
                    ),
                );
            },
        }
        proof {
            p = p + 1;
        }
    }
}

} // verus!
