//! The generic value representation exchanged with the host application, and
//! the bind direction of the coercion codec: mapping a generic value onto the
//! relational backend's parameter types.

use vstd::prelude::*;

verus! {

/// A dynamically typed value: the one representation used both for the
/// parameters a caller passes in and for the rows and documents handed back.
///
/// Numbers appear in two carriers.  `Int` holds a 64-bit signed integer, as
/// decoded from a relational INTEGER column.  `Float` holds the bit pattern
/// of a 64-bit IEEE 754 float; the driver edge converts between this pattern
/// and the machine float type, so the pure core never computes on floats.
#[derive(Debug, PartialEq)]
pub enum Value {
    Null,
    Bool(bool),
    Int(i64),
    Float(u64),
    Text(String),
    Arr(Vec<Value>),
    Obj(Vec<(String, Value)>),
}

/// One positional parameter, coerced for the relational backend.  `Int` and
/// `Float` are both bound as 64-bit floats by the driver edge (binding an
/// integer through the float path loses exactness beyond 2^53, a documented
/// caveat of the bind direction).  `Other` carries a value with any remaining
/// tag, bound through the driver's generic structured-value path.
#[derive(Debug, PartialEq)]
pub enum BindParam {
    Null,
    Text(String),
    Int(i64),
    Float(u64),
    Other(Value),
}

/// What the bind direction does with one generic value.
pub open spec fn spec_bind(v: Value) -> BindParam {
    match v {
        Value::Null => BindParam::Null,
        Value::Text(s) => BindParam::Text(s),
        Value::Int(i) => BindParam::Int(i),
        Value::Float(b) => BindParam::Float(b),
        _ => BindParam::Other(v),
    }
}

/// Coerces one generic value into the parameter the relational driver binds.
pub fn bind_param(v: Value) -> (r: BindParam)
    ensures
        r == spec_bind(v),
{
    match v {
        Value::Null => BindParam::Null,
        Value::Text(s) => BindParam::Text(s),
        Value::Int(i) => BindParam::Int(i),
        Value::Float(b) => BindParam::Float(b),
        other => BindParam::Other(other),
    }
}

/// Coerces a whole parameter list, keeping the caller's order: the parameter
/// at each position binds exactly the value at that position.
pub fn bind_params(values: Vec<Value>) -> (r: Vec<BindParam>)
    ensures
        r@.len() == values@.len(),
        forall|i: int| 0 <= i < values@.len() ==> r@[i] == spec_bind(values@[i]),
{
    let ghost orig = values@;
    let mut rest = values;
    let mut r: Vec<BindParam> = Vec::new();
    while rest.len() > 0
        invariant
            r@.len() + rest@.len() == orig.len(),
            rest@ =~= orig.subrange(r@.len() as int, orig.len() as int),
            forall|i: int| 0 <= i < r@.len() ==> r@[i] == spec_bind(orig[i]),
        decreases rest@.len(),
    {
        let v = rest.remove(0);
        r.push(bind_param(v));
    }
    r
}

} // verus!
