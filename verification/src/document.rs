//! The decode direction of the coercion codec for the document backend.
//!
//! A command reply that is paginated exposes a cursor field holding an array
//! of documents.  The driver edge reduces each native field value to a plain
//! `BsonVal` before handing the reply over: floats become their bit pattern,
//! and every native type outside the closed set the codec passes through —
//! binary, dates, nested documents, integer subtypes — arrives already
//! rendered as its textual representation, a deliberate boundary that trades
//! structure for a bounded decoder.  Everything after that reduction is
//! decided and verified here.

use vstd::prelude::*;
use crate::value::Value;

verus! {

/// One native field value of the document store, in plain form.
#[derive(Debug)]
pub enum BsonVal {
    /// A 64-bit float, as its IEEE 754 bit pattern.
    F64(u64),
    Str(String),
    Bool(bool),
    Null,
    Arr(Vec<BsonVal>),
    /// Any other native type, rendered textually by the driver edge.
    Rendered(String),
}

/// One element of a reply's cursor array: a sub-document, given as its
/// fields, or a native value of any other shape.
#[derive(Debug)]
pub enum ReplyItem {
    Doc(Vec<(String, BsonVal)>),
    NotDoc,
}

/// Every element of the array is a string.
pub open spec fn all_strings(elems: Seq<BsonVal>) -> bool {
    forall|i: int| 0 <= i < elems.len() ==> elems[i] is Str
}

/// How a decoded generic value `r` must relate to a native field value:
/// floats, strings, booleans and null pass through; an array is kept only
/// when every element is a string, and degrades to an empty array otherwise;
/// a value of any other native type passes through as its rendered text.
pub open spec fn field_rel(v: BsonVal, r: Value) -> bool {
    match v {
        BsonVal::F64(b) => r == Value::Float(b),
        BsonVal::Str(s) => r == Value::Text(s),
        BsonVal::Bool(b) => r == Value::Bool(b),
        BsonVal::Null => r == Value::Null,
        BsonVal::Rendered(s) => r == Value::Text(s),
        BsonVal::Arr(elems) => (r matches Value::Arr(vs) && if all_strings(elems@) {
            vs@.len() == elems@.len() && forall|i: int|
                0 <= i < elems@.len() ==> vs@[i] == Value::Text(elems@[i]->Str_0)
        } else {
            vs@.len() == 0
        }),
    }
}

/// Decodes one field value of a cursor document.
pub fn decode_field(v: &BsonVal) -> (r: Value)
    ensures
        field_rel(*v, r),
{
    match v {
        BsonVal::F64(b) => Value::Float(*b),
        BsonVal::Str(s) => Value::Text(s.clone()),
        BsonVal::Bool(b) => Value::Bool(*b),
        BsonVal::Null => Value::Null,
        BsonVal::Rendered(s) => Value::Text(s.clone()),
        BsonVal::Arr(elems) => {
            let n = elems.len();
            let mut vs: Vec<Value> = Vec::new();
            let mut ok = true;
            let mut i: usize = 0;
            while i < n
                invariant
                    n == elems@.len(),
                    i <= n,
                    ok ==> vs@.len() == i,
                    ok ==> forall|j: int| 0 <= j < i ==> elems@[j] is Str,
                    ok ==> forall|j: int| 0 <= j < i ==> vs@[j] == Value::Text(elems@[j]->Str_0),
                    !ok ==> !all_strings(elems@),
                decreases n - i,
            {
                match &elems[i] {
                    BsonVal::Str(s) => {
                        vs.push(Value::Text(s.clone()));
                    },
                    _ => {
                        ok = false;
                    },
                }
                i += 1;
            }
            if ok {
                Value::Arr(vs)
            } else {
                Value::Arr(Vec::new())
            }
        },
    }
}

/// How a decoded row must relate to a cursor document: field by field, in
/// order, each key kept and each value decoded.
pub open spec fn row_rel(fields: Seq<(String, BsonVal)>, row: Seq<(String, Value)>) -> bool {
    &&& row.len() == fields.len()
    &&& forall|i: int| 0 <= i < fields.len()
        ==> (#[trigger] row[i]).0 == fields[i].0 && field_rel(fields[i].1, row[i].1)
}

/// Decodes one cursor document into a row keyed by its field names.
pub fn decode_document(fields: Vec<(String, BsonVal)>) -> (r: Vec<(String, Value)>)
    ensures
        row_rel(fields@, r@),
{
    let ghost orig = fields@;
    let mut rest = fields;
    let mut r: Vec<(String, Value)> = Vec::new();
    while rest.len() > 0
        invariant
            r@.len() + rest@.len() == orig.len(),
            rest@ =~= orig.subrange(r@.len() as int, orig.len() as int),
            forall|i: int| 0 <= i < r@.len()
                ==> (#[trigger] r@[i]).0 == orig[i].0 && field_rel(orig[i].1, r@[i].1),
        decreases rest@.len(),
    {
        let ghost idx = r@.len() as int;
        let (k, v) = rest.remove(0);
        proof {
            assert(k == orig[idx].0);
            assert(v == orig[idx].1);
        }
        let d = decode_field(&v);
        let ghost r_before = r@;
        r.push((k, d));
        proof {
            assert(rest@ =~= orig.subrange(r@.len() as int, orig.len() as int));
            assert forall|i: int| 0 <= i < r@.len()
                implies (#[trigger] r@[i]).0 == orig[i].0 && field_rel(orig[i].1, r@[i].1) by {
                if i < idx {
                    assert(r@[i] == r_before[i]);
                } else {
                    assert(r@[i] == (k, d));
                    assert(field_rel(v, d));
                }
            }
        }
    }
    proof {
        assert(r@.len() == fields@.len());
    }
    r
}

/// How the decoded result must relate to a reply's cursor array: each
/// sub-document yields one row, in order, and elements of any other shape
/// are skipped.
pub open spec fn reply_rel(items: Seq<ReplyItem>, rows: Seq<Vec<(String, Value)>>) -> bool
    decreases items.len(),
{
    if items.len() == 0 {
        rows.len() == 0
    } else {
        match items.last() {
            ReplyItem::Doc(fs) => {
                &&& rows.len() > 0
                &&& row_rel(fs@, rows.last()@)
                &&& reply_rel(items.drop_last(), rows.drop_last())
            },
            ReplyItem::NotDoc => reply_rel(items.drop_last(), rows),
        }
    }
}

/// Decodes a command reply's cursor array into rows.  A reply without a
/// cursor-shaped array — `cursor` here is `None` — yields no rows at all.
pub fn decode_reply(cursor: Option<Vec<ReplyItem>>) -> (r: Vec<Vec<(String, Value)>>)
    ensures
        match cursor {
            Some(items) => reply_rel(items@, r@),
            None => r@.len() == 0,
        },
{
    match cursor {
        None => Vec::new(),
        Some(items) => {
            let ghost orig = items@;
            let mut rest = items;
            let mut rows: Vec<Vec<(String, Value)>> = Vec::new();
            let ghost mut k: int = 0;
            while rest.len() > 0
                invariant
                    0 <= k <= orig.len(),
                    k + rest@.len() == orig.len(),
                    rest@ =~= orig.subrange(k, orig.len() as int),
                    reply_rel(orig.subrange(0, k), rows@),
                decreases rest@.len(),
            {
                let ghost rows_before = rows@;
                let item = rest.remove(0);
                proof {
                    assert(item == orig[k]);
                }
                match item {
                    ReplyItem::Doc(fs) => {
                        let row = decode_document(fs);
                        rows.push(row);
                        proof {
                            let p = orig.subrange(0, k + 1);
                            assert(p.last() == orig[k]);
                            assert(p.drop_last() =~= orig.subrange(0, k));
                            assert(rows@.drop_last() =~= rows_before);
                            assert(rows@.last() == row);
                            assert(reply_rel(p, rows@));
                        }
                    },
                    ReplyItem::NotDoc => {
                        proof {
                            let p = orig.subrange(0, k + 1);
                            assert(p.last() == orig[k]);
                            assert(p.drop_last() =~= orig.subrange(0, k));
                            assert(reply_rel(p, rows@));
                        }
                    },
                }
                proof {
                    k = k + 1;
                }
            }
            proof {
                assert(orig.subrange(0, k) =~= orig);
            }
            rows
        },
    }
}

} // verus!
