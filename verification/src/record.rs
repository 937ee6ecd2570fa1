//! Assembly of a decoded relational row: a mapping from column name to
//! generic value with map-insertion semantics, so that when two columns of
//! one row share a name, the last value for that name wins.

use vstd::prelude::*;
use vstd::pervasive::VecAdditionalExecFns;
use crate::value::Value;

verus! {

/// The mapping that a sequence of (name, value) pairs denotes when each pair
/// is inserted in order: the last pair for a name gives its value.
pub open spec fn record_map(pairs: Seq<(String, Value)>) -> Map<Seq<char>, Value>
    decreases pairs.len(),
{
    if pairs.len() == 0 {
        Map::empty()
    } else {
        record_map(pairs.drop_last()).insert(pairs.last().0@, pairs.last().1)
    }
}

/// No two pairs share a name.
pub open spec fn keys_unique(pairs: Seq<(String, Value)>) -> bool {
    forall|i: int, j: int| 0 <= i < j < pairs.len()
        ==> (#[trigger] pairs[i]).0@ != (#[trigger] pairs[j]).0@
}

/// Appending a pair inserts its name into the denoted mapping.
proof fn lemma_record_push(pairs: Seq<(String, Value)>, p: (String, Value))
    ensures
        record_map(pairs.push(p)) == record_map(pairs).insert(p.0@, p.1),
{
    assert(pairs.push(p).drop_last() =~= pairs);
    assert(pairs.push(p).last() == p);
}

/// Overwriting the one pair that holds a name also just inserts that name.
proof fn lemma_record_update(pairs: Seq<(String, Value)>, idx: int, p: (String, Value))
    requires
        keys_unique(pairs),
        0 <= idx < pairs.len(),
        pairs[idx].0@ == p.0@,
    ensures
        record_map(pairs.update(idx, p)) == record_map(pairs).insert(p.0@, p.1),
    decreases pairs.len(),
{
    let u = pairs.update(idx, p);
    if idx == pairs.len() - 1 {
        assert(u.drop_last() =~= pairs.drop_last());
        assert(u.last() == p);
        assert(record_map(pairs.drop_last()).insert(pairs.last().0@, pairs.last().1).insert(
            p.0@,
            p.1,
        ) =~= record_map(pairs.drop_last()).insert(p.0@, p.1));
    } else {
        let d = pairs.drop_last();
        assert(keys_unique(d));
        assert(d[idx].0@ == p.0@);
        lemma_record_update(d, idx, p);
        assert(u.drop_last() =~= d.update(idx, p));
        assert(u.last() == pairs.last());
        assert(pairs[idx].0@ != pairs.last().0@);
        assert(record_map(d).insert(p.0@, p.1).insert(pairs.last().0@, pairs.last().1)
            =~= record_map(d).insert(pairs.last().0@, pairs.last().1).insert(p.0@, p.1));
    }
}

/// Finds the pair holding `key`, if any.
fn find_key(rec: &Vec<(String, Value)>, key: &str) -> (r: Option<usize>)
    ensures
        match r {
            Some(i) => 0 <= i < rec@.len() && rec@[i as int].0@ == key@,
            None => forall|i: int| 0 <= i < rec@.len() ==> (#[trigger] rec@[i]).0@ != key@,
        },
{
    let n = rec.len();
    let mut i: usize = 0;
    while i < n
        invariant
            n == rec@.len(),
            i <= n,
            forall|j: int| 0 <= j < i ==> (#[trigger] rec@[j]).0@ != key@,
        decreases n - i,
    {
        if crate::text::str_eq(rec[i].0.as_str(), key) {
            return Some(i);
        }
        i += 1;
    }
    None
}

/// Builds the row mapping from decoded cells in column order.  The result
/// holds each name once, bound to the value of the last cell that carried it,
/// exactly the mapping the input pairs denote.
pub fn build_record(pairs: Vec<(String, Value)>) -> (r: Vec<(String, Value)>)
    ensures
        keys_unique(r@),
        record_map(r@) == record_map(pairs@),
{
    let ghost orig = pairs@;
    let mut rest = pairs;
    let mut r: Vec<(String, Value)> = Vec::new();
    let ghost mut k: int = 0;
    while rest.len() > 0
        invariant
            0 <= k <= orig.len(),
            k + rest@.len() == orig.len(),
            rest@ =~= orig.subrange(k, orig.len() as int),
            keys_unique(r@),
            record_map(r@) == record_map(orig.subrange(0, k)),
        decreases rest@.len(),
    {
        let (key, val) = rest.remove(0);
        proof {
            assert(key == orig[k].0);
            assert(val == orig[k].1);
            let prefix = orig.subrange(0, k + 1);
            assert(prefix.drop_last() =~= orig.subrange(0, k));
            assert(prefix.last() == orig[k]);
            assert(record_map(prefix) == record_map(orig.subrange(0, k)).insert(key@, val));
        }
        let ghost r_before = r@;
        match find_key(&r, key.as_str()) {
            Some(i) => {
                r.set(i, (key, val));
                proof {
                    lemma_record_update(r_before, i as int, (key, val));
                    assert(r@ == r_before.update(i as int, (key, val)));
                    assert forall|a: int, b: int| 0 <= a < b < r@.len()
                        implies (#[trigger] r@[a]).0@ != (#[trigger] r@[b]).0@ by {
                        assert(r_before[a].0@ != r_before[b].0@);
                    }
                }
            },
            None => {
                r.push((key, val));
                proof {
                    lemma_record_push(r_before, (key, val));
                    assert forall|a: int, b: int| 0 <= a < b < r@.len()
                        implies (#[trigger] r@[a]).0@ != (#[trigger] r@[b]).0@ by {
                        if b < r@.len() - 1 {
                            assert(r@[a] == r_before[a]);
                            assert(r@[b] == r_before[b]);
                        } else {
                            assert(r@[a] == r_before[a]);
                            assert(r@[b] == (key, val));
                        }
                    }
                }
            },
        }
        proof {
            k = k + 1;
        }
    }
    proof {
        assert(orig.subrange(0, k) =~= orig);
    }
    r
}

} // verus!
