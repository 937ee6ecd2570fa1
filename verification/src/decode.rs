//! The decode direction of the coercion codec for the relational backend.
//!
//! Decoding a cell happens in two verified steps around one driver call.
//! `plan_cell` reads the cell's nullness and its column's declared type name
//! and picks the decode strategy, or rejects the whole query when the name is
//! unknown.  The driver edge then extracts the native value that the strategy
//! asks for, reporting the outcome as a plain `Fetched` value, and
//! `finish_cell` turns that outcome into a generic value — a failed
//! extraction degrades to null rather than aborting the row.

use vstd::prelude::*;
use crate::error::DbError;
use crate::value::Value;

verus! {

/// The decode strategy selected for one cell by its column's declared type.
#[derive(Debug, PartialEq, Eq, Structural, Clone, Copy)]
pub enum DecodePlan {
    /// The cell is null at the source, or the column is declared NULL: emit
    /// null without consulting the declared type further.
    EmitNull,
    /// TEXT: extract a UTF-8 string.
    Text,
    /// REAL: extract a 64-bit float.
    Real,
    /// INTEGER or NUMERIC: extract a 64-bit signed integer.
    Integer,
    /// BOOLEAN: extract a boolean.
    Boolean,
    /// DATE: extract a date, rendered in its fixed textual form.
    Date,
    /// TIME: extract a time of day, rendered textually.
    Time,
    /// DATETIME: extract a combined date and time, rendered textually.
    DateTime,
    /// BLOB: extract the raw bytes.
    Blob,
}

/// The outcome of the driver's extraction for one cell: the native value in
/// plain form, or `Failed` when the driver could not decode the cell as the
/// strategy's type.  Floats arrive as their IEEE 754 bit pattern; dates and
/// times arrive already rendered as text.
#[derive(Debug, PartialEq)]
pub enum Fetched {
    Failed,
    Text(String),
    Real(u64),
    Int(i64),
    Bool(bool),
    Rendered(String),
    Bytes(Vec<u8>),
}

/// The strategy the declared type name selects, or `None` when the name is
/// not one the codec knows.  A null source cell selects `EmitNull` before the
/// declared type is consulted at all.
pub open spec fn spec_plan(is_null: bool, decl: Seq<char>) -> Option<DecodePlan> {
    if is_null {
        Some(DecodePlan::EmitNull)
    } else if decl == "TEXT"@ {
        Some(DecodePlan::Text)
    } else if decl == "REAL"@ {
        Some(DecodePlan::Real)
    } else if decl == "INTEGER"@ || decl == "NUMERIC"@ {
        Some(DecodePlan::Integer)
    } else if decl == "BOOLEAN"@ {
        Some(DecodePlan::Boolean)
    } else if decl == "DATE"@ {
        Some(DecodePlan::Date)
    } else if decl == "TIME"@ {
        Some(DecodePlan::Time)
    } else if decl == "DATETIME"@ {
        Some(DecodePlan::DateTime)
    } else if decl == "BLOB"@ {
        Some(DecodePlan::Blob)
    } else if decl == "NULL"@ {
        Some(DecodePlan::EmitNull)
    } else {
        None
    }
}

/// Selects the decode strategy for one cell, or fails the whole query with
/// `UnsupportedDatatype` naming the declared type it could not interpret.
pub fn plan_cell(is_null: bool, decl: &str) -> (r: Result<DecodePlan, DbError>)
    ensures
        match spec_plan(is_null, decl@) {
            Some(p) => r == Ok::<DecodePlan, DbError>(p),
            None => (r matches Err(DbError::UnsupportedDatatype(t)) && t@ == decl@),
        },
{
    if is_null {
        Ok(DecodePlan::EmitNull)
    } else if crate::text::str_eq(decl, "TEXT") {
        Ok(DecodePlan::Text)
    } else if crate::text::str_eq(decl, "REAL") {
        Ok(DecodePlan::Real)
    } else if crate::text::str_eq(decl, "INTEGER") || crate::text::str_eq(decl, "NUMERIC") {
        Ok(DecodePlan::Integer)
    } else if crate::text::str_eq(decl, "BOOLEAN") {
        Ok(DecodePlan::Boolean)
    } else if crate::text::str_eq(decl, "DATE") {
        Ok(DecodePlan::Date)
    } else if crate::text::str_eq(decl, "TIME") {
        Ok(DecodePlan::Time)
    } else if crate::text::str_eq(decl, "DATETIME") {
        Ok(DecodePlan::DateTime)
    } else if crate::text::str_eq(decl, "BLOB") {
        Ok(DecodePlan::Blob)
    } else if crate::text::str_eq(decl, "NULL") {
        Ok(DecodePlan::EmitNull)
    } else {
        Err(DbError::UnsupportedDatatype(decl.to_owned()))
    }
}

/// Each byte of a blob, emitted as a number.
pub open spec fn bytes_as_values(b: Seq<u8>) -> Seq<Value> {
    Seq::new(b.len(), |i: int| Value::Int(b[i] as i64))
}

/// How the generic value `r` must relate to a strategy and an extraction
/// outcome: the typed value passes through when the outcome matches the
/// strategy, and anything else — a failed extraction, or an outcome of the
/// wrong shape — degrades to null.
pub open spec fn finish_rel(plan: DecodePlan, fetched: Fetched, r: Value) -> bool {
    match plan {
        DecodePlan::EmitNull => r == Value::Null,
        DecodePlan::Text => match fetched {
            Fetched::Text(s) => r == Value::Text(s),
            _ => r == Value::Null,
        },
        DecodePlan::Real => match fetched {
            Fetched::Real(b) => r == Value::Float(b),
            _ => r == Value::Null,
        },
        DecodePlan::Integer => match fetched {
            Fetched::Int(i) => r == Value::Int(i),
            _ => r == Value::Null,
        },
        DecodePlan::Boolean => match fetched {
            Fetched::Bool(b) => r == Value::Bool(b),
            _ => r == Value::Null,
        },
        DecodePlan::Date | DecodePlan::Time | DecodePlan::DateTime => match fetched {
            Fetched::Rendered(s) => r == Value::Text(s),
            _ => r == Value::Null,
        },
        DecodePlan::Blob => match fetched {
            Fetched::Bytes(b) => (r matches Value::Arr(vs) && vs@ == bytes_as_values(b@)),
            _ => r == Value::Null,
        },
    }
}

/// Turns the driver's extraction outcome into the cell's generic value.
pub fn finish_cell(plan: DecodePlan, fetched: Fetched) -> (r: Value)
    ensures
        finish_rel(plan, fetched, r),
{
    match plan {
        DecodePlan::EmitNull => Value::Null,
        DecodePlan::Text => match fetched {
            Fetched::Text(s) => Value::Text(s),
            _ => Value::Null,
        },
        DecodePlan::Real => match fetched {
            Fetched::Real(b) => Value::Float(b),
            _ => Value::Null,
        },
        DecodePlan::Integer => match fetched {
            Fetched::Int(i) => Value::Int(i),
            _ => Value::Null,
        },
        DecodePlan::Boolean => match fetched {
            Fetched::Bool(b) => Value::Bool(b),
            _ => Value::Null,
        },
        DecodePlan::Date | DecodePlan::Time | DecodePlan::DateTime => match fetched {
            Fetched::Rendered(s) => Value::Text(s),
            _ => Value::Null,
        },
        DecodePlan::Blob => match fetched {
            Fetched::Bytes(b) => {
                let mut vs: Vec<Value> = Vec::new();
                let mut i: usize = 0;
                let n = b.len();
                while i < n
                    invariant
                        n == b@.len(),
                        i <= n,
                        vs@.len() == i,
                        forall|j: int| 0 <= j < i ==> vs@[j] == Value::Int(b@[j] as i64),
                    decreases n - i,
                {
                    vs.push(Value::Int(b[i] as i64));
                    i += 1;
                }
                proof {
                    assert(vs@ =~= bytes_as_values(b@));
                }
                Value::Arr(vs)
            },
            _ => Value::Null,
        },
    }
}

/// Decoding a null source cell always yields generic null, whatever the
/// column's declared type — even one the codec does not know: the null check
/// precedes the type dispatch, so no strategy and no `UnsupportedDatatype`
/// rejection is ever reached for it.
pub proof fn lemma_null_cell_decodes_null(decl: Seq<char>, fetched: Fetched, r: Value)
    requires
        finish_rel(DecodePlan::EmitNull, fetched, r),
    ensures
        spec_plan(true, decl) == Some(DecodePlan::EmitNull),
        r == Value::Null,
{
}

/// Round trip for strings: binding a string parameter hands the driver that
/// very string, and decoding it back from a TEXT column yields it unchanged.
pub proof fn lemma_text_round_trip(s: String, r: Value)
    requires
        finish_rel(DecodePlan::Text, Fetched::Text(s), r),
    ensures
        crate::value::spec_bind(Value::Text(s)) == crate::value::BindParam::Text(s),
        r == Value::Text(s),
{
}

/// Round trip for 64-bit floats: the bind direction passes the float's bit
/// pattern through untouched, and decoding it back from a REAL column yields
/// the same pattern, hence the same float.
pub proof fn lemma_real_round_trip(bits: u64, r: Value)
    requires
        finish_rel(DecodePlan::Real, Fetched::Real(bits), r),
    ensures
        crate::value::spec_bind(Value::Float(bits)) == crate::value::BindParam::Float(bits),
        r == Value::Float(bits),
{
}

} // verus!
