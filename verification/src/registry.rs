//! The connection registry: a mapping from connection name to a live backend
//! handle.  Entries are inserted only by `load` (replacing any prior entry
//! for the name, last writer wins), removed only by `close`, and looked up by
//! `query`.  The handle type is a parameter: the registry never inspects a
//! handle, it only stores, hands out and drains them, so the driver layer
//! instantiates it with its native pool and client types.

use vstd::prelude::*;
use crate::error::DbError;

verus! {

/// The mapping a sequence of (name, handle) entries denotes.
pub open spec fn reg_map<H>(s: Seq<(String, H)>) -> Map<Seq<char>, H>
    decreases s.len(),
{
    if s.len() == 0 {
        Map::empty()
    } else {
        reg_map(s.drop_last()).insert(s.last().0@, s.last().1)
    }
}

/// No two entries share a name.
pub open spec fn names_unique<H>(s: Seq<(String, H)>) -> bool {
    forall|i: int, j: int| 0 <= i < j < s.len()
        ==> (#[trigger] s[i]).0@ != (#[trigger] s[j]).0@
}

/// Each entry's name is in the denoted mapping, bound to its handle.
proof fn lemma_reg_index<H>(s: Seq<(String, H)>, i: int)
    requires
        names_unique(s),
        0 <= i < s.len(),
    ensures
        reg_map(s).contains_key(s[i].0@),
        reg_map(s)[s[i].0@] == s[i].1,
    decreases s.len(),
{
    if i < s.len() - 1 {
        let d = s.drop_last();
        assert(names_unique(d));
        lemma_reg_index(d, i);
        assert(s[i].0@ != s.last().0@);
    }
}

/// A name no entry holds is not in the denoted mapping.
proof fn lemma_reg_absent<H>(s: Seq<(String, H)>, k: Seq<char>)
    requires
        forall|i: int| 0 <= i < s.len() ==> (#[trigger] s[i]).0@ != k,
    ensures
        !reg_map(s).contains_key(k),
    decreases s.len(),
{
    if s.len() > 0 {
        lemma_reg_absent(s.drop_last(), k);
    }
}

/// Appending an entry inserts its name.
proof fn lemma_reg_push<H>(s: Seq<(String, H)>, p: (String, H))
    ensures
        reg_map(s.push(p)) == reg_map(s).insert(p.0@, p.1),
{
    assert(s.push(p).drop_last() =~= s);
    assert(s.push(p).last() == p);
}

/// Removing the one entry that holds a name removes that name.
proof fn lemma_reg_remove<H>(s: Seq<(String, H)>, i: int)
    requires
        names_unique(s),
        0 <= i < s.len(),
    ensures
        reg_map(s.remove(i)) == reg_map(s).remove(s[i].0@),
    decreases s.len(),
{
    if i == s.len() - 1 {
        assert(s.remove(i) =~= s.drop_last());
        assert forall|j: int| 0 <= j < s.drop_last().len()
            implies (#[trigger] s.drop_last()[j]).0@ != s[i].0@ by {
            assert(s.drop_last()[j] == s[j]);
        }
        lemma_reg_absent(s.drop_last(), s[i].0@);
        assert(reg_map(s.drop_last()).insert(s[i].0@, s[i].1).remove(s[i].0@)
            =~= reg_map(s.drop_last()));
    } else {
        let d = s.drop_last();
        assert(names_unique(d));
        lemma_reg_remove(d, i);
        assert(s.remove(i).drop_last() =~= d.remove(i));
        assert(s.remove(i).last() == s.last());
        assert(s[i].0@ != s.last().0@);
        assert(reg_map(d).remove(s[i].0@).insert(s.last().0@, s.last().1)
            =~= reg_map(d).insert(s.last().0@, s.last().1).remove(s[i].0@));
    }
}

/// Uniqueness of names survives removing an entry.
proof fn lemma_unique_remove<H>(s: Seq<(String, H)>, i: int)
    requires
        names_unique(s),
        0 <= i < s.len(),
    ensures
        names_unique(s.remove(i)),
{
    let t = s.remove(i);
    assert forall|a: int, b: int| 0 <= a < b < t.len()
        implies (#[trigger] t[a]).0@ != (#[trigger] t[b]).0@ by {
        if b < i {
            assert(t[a] == s[a]);
            assert(t[b] == s[b]);
        } else if a < i {
            assert(t[a] == s[a]);
            assert(t[b] == s[b + 1]);
        } else {
            assert(t[a] == s[a + 1]);
            assert(t[b] == s[b + 1]);
        }
    }
}

/// After removing the one entry holding a name, no entry holds it.
proof fn lemma_remove_frees_name<H>(s: Seq<(String, H)>, i: int)
    requires
        names_unique(s),
        0 <= i < s.len(),
    ensures
        forall|j: int| 0 <= j < s.remove(i).len()
            ==> (#[trigger] s.remove(i)[j]).0@ != s[i].0@,
{
    let t = s.remove(i);
    assert forall|j: int| 0 <= j < t.len() implies (#[trigger] t[j]).0@ != s[i].0@ by {
        if j < i {
            assert(t[j] == s[j]);
        } else {
            assert(t[j] == s[j + 1]);
        }
    }
}

/// Uniqueness of names survives appending a name no entry holds.
proof fn lemma_unique_push<H>(s: Seq<(String, H)>, p: (String, H))
    requires
        names_unique(s),
        forall|i: int| 0 <= i < s.len() ==> (#[trigger] s[i]).0@ != p.0@,
    ensures
        names_unique(s.push(p)),
{
    let t = s.push(p);
    assert forall|a: int, b: int| 0 <= a < b < t.len()
        implies (#[trigger] t[a]).0@ != (#[trigger] t[b]).0@ by {
        assert(t[a] == s[a]);
        if b < s.len() {
            assert(t[b] == s[b]);
        } else {
            assert(t[b] == p);
        }
    }
}

/// The registry of live connections, one entry per name.
pub struct DbInstances<H> {
    entries: Vec<(String, H)>,
}

impl<H> DbInstances<H> {
    /// The mapping from connection name to handle that this registry holds.
    pub closed spec fn map_view(&self) -> Map<Seq<char>, H> {
        reg_map(self.entries@)
    }

    /// Well-formed: no name is held twice.
    pub closed spec fn wf(&self) -> bool {
        names_unique(self.entries@)
    }

    /// An empty registry: nothing is loaded.
    pub fn new() -> (r: Self)
        ensures
            r.wf(),
            r.map_view() == Map::<Seq<char>, H>::empty(),
    {
        DbInstances { entries: Vec::new() }
    }

    /// Finds the position of `name`, if loaded.
    fn position_of(&self, name: &str) -> (r: Option<usize>)
        ensures
            match r {
                Some(i) => 0 <= i < self.entries@.len() && self.entries@[i as int].0@ == name@,
                None => forall|i: int| 0 <= i < self.entries@.len()
                    ==> (#[trigger] self.entries@[i]).0@ != name@,
            },
    {
        let n = self.entries.len();
        let mut i: usize = 0;
        while i < n
            invariant
                n == self.entries@.len(),
                i <= n,
                forall|j: int| 0 <= j < i ==> (#[trigger] self.entries@[j]).0@ != name@,
            decreases n - i,
        {
            if crate::text::str_eq(self.entries[i].0.as_str(), name) {
                return Some(i);
            }
            i += 1;
        }
        None
    }

    /// Inserts `handle` under `name`, replacing and returning any prior
    /// handle for that name: the last writer wins, and the caller decides
    /// what to do with a handle it displaced.
    pub fn load(&mut self, name: String, handle: H) -> (replaced: Option<H>)
        requires
            old(self).wf(),
        ensures
            final(self).wf(),
            final(self).map_view() == old(self).map_view().insert(name@, handle),
            match replaced {
                Some(h) => old(self).map_view().contains_key(name@)
                    && h == old(self).map_view()[name@],
                None => !old(self).map_view().contains_key(name@),
            },
    {
        let ghost before = self.entries@;
        match self.position_of(name.as_str()) {
            Some(i) => {
                let (_, old_h) = self.entries.remove(i);
                proof {
                    lemma_reg_index(before, i as int);
                    lemma_reg_remove(before, i as int);
                    lemma_unique_remove(before, i as int);
                    lemma_remove_frees_name(before, i as int);
                }
                let ghost mid = self.entries@;
                self.entries.push((name, handle));
                proof {
                    lemma_reg_push(mid, (name, handle));
                    lemma_unique_push(mid, (name, handle));
                    assert(reg_map(before).remove(name@).insert(name@, handle)
                        =~= reg_map(before).insert(name@, handle));
                }
                Some(old_h)
            },
            None => {
                proof {
                    lemma_reg_absent(before, name@);
                }
                self.entries.push((name, handle));
                proof {
                    lemma_reg_push(before, (name, handle));
                    lemma_unique_push(before, (name, handle));
                }
                None
            },
        }
    }

    /// Looks up the handle loaded under `name`.  Fails with
    /// `DatabaseNotLoaded`, naming that exact key, if and only if no entry
    /// holds the name.
    pub fn get(&self, name: &String) -> (r: Result<&H, DbError>)
        requires
            self.wf(),
        ensures
            match r {
                Ok(h) => self.map_view().contains_key(name@)
                    && *h == self.map_view()[name@],
                Err(e) => !self.map_view().contains_key(name@)
                    && (e matches DbError::DatabaseNotLoaded(n) && n@ == name@),
            },
    {
        match self.position_of(name.as_str()) {
            Some(i) => {
                proof {
                    lemma_reg_index(self.entries@, i as int);
                }
                Ok(&self.entries[i].1)
            },
            None => {
                proof {
                    lemma_reg_absent(self.entries@, name@);
                }
                Err(DbError::DatabaseNotLoaded(name.clone()))
            },
        }
    }

    /// Removes and returns the handle loaded under `name`.  Fails with
    /// `DatabaseNotLoaded`, naming that exact key and leaving the registry
    /// unchanged, if and only if no entry holds the name.
    pub fn remove(&mut self, name: &String) -> (r: Result<H, DbError>)
        requires
            old(self).wf(),
        ensures
            final(self).wf(),
            match r {
                Ok(h) => old(self).map_view().contains_key(name@)
                    && h == old(self).map_view()[name@]
                    && final(self).map_view() == old(self).map_view().remove(name@),
                Err(e) => !old(self).map_view().contains_key(name@)
                    && final(self).map_view() == old(self).map_view()
                    && (e matches DbError::DatabaseNotLoaded(n) && n@ == name@),
            },
    {
        let ghost before = self.entries@;
        match self.position_of(name.as_str()) {
            Some(i) => {
                let (_, h) = self.entries.remove(i);
                proof {
                    lemma_reg_index(before, i as int);
                    lemma_reg_remove(before, i as int);
                    lemma_unique_remove(before, i as int);
                }
                Ok(h)
            },
            None => {
                proof {
                    lemma_reg_absent(before, name@);
                }
                Err(DbError::DatabaseNotLoaded(name.clone()))
            },
        }
    }

    /// Removes every entry, returning each name with its handle so the
    /// caller can release backend resources; the registry is empty after.
    pub fn remove_all(&mut self) -> (r: Vec<(String, H)>)
        requires
            old(self).wf(),
        ensures
            final(self).wf(),
            final(self).map_view() == Map::<Seq<char>, H>::empty(),
            names_unique(r@),
            reg_map(r@) == old(self).map_view(),
    {
        let mut out: Vec<(String, H)> = Vec::new();
        core::mem::swap(&mut out, &mut self.entries);
        out
    }

    /// The command surface's close: with a name, removes that one entry (an
    /// absent name is an error naming it); with none, removes every entry.
    /// Either way the removed entries come back so the caller can release
    /// each handle's backend resources; closing itself never fails.
    pub fn close(&mut self, name: Option<&String>) -> (r: Result<Vec<(String, H)>, DbError>)
        requires
            old(self).wf(),
        ensures
            final(self).wf(),
            match name {
                None => (r matches Ok(hs)
                    && final(self).map_view() == Map::<Seq<char>, H>::empty()
                    && names_unique(hs@)
                    && reg_map(hs@) == old(self).map_view()),
                Some(n) => match r {
                    Ok(hs) => old(self).map_view().contains_key(n@)
                        && final(self).map_view() == old(self).map_view().remove(n@)
                        && hs@.len() == 1
                        && hs@[0].0@ == n@
                        && hs@[0].1 == old(self).map_view()[n@],
                    Err(e) => !old(self).map_view().contains_key(n@)
                        && final(self).map_view() == old(self).map_view()
                        && (e matches DbError::DatabaseNotLoaded(k) && k@ == n@),
                },
            },
    {
        match name {
            None => Ok(self.remove_all()),
            Some(n) => {
                let h = self.remove(n)?;
                let mut out: Vec<(String, H)> = Vec::new();
                out.push((n.clone(), h));
                Ok(out)
            },
        }
    }
}

/// Loading a name that is already loaded replaces the prior handle: however
/// the registry looked before, after a second load of the same name a lookup
/// yields the handle given to that load, never an earlier one.
pub proof fn lemma_reload_replaces<H>(
    before: Map<Seq<char>, H>,
    name: Seq<char>,
    first: H,
    second: H,
)
    ensures
        before.insert(name, first).insert(name, second).contains_key(name),
        before.insert(name, first).insert(name, second)[name] == second,
{
}

/// Closing everything unloads every name: in an empty registry no lookup
/// succeeds, whatever name is asked for.
pub proof fn lemma_close_all_unloads<H>(reg: DbInstances<H>, name: Seq<char>)
    requires
        reg.map_view() == Map::<Seq<char>, H>::empty(),
    ensures
        !reg.map_view().contains_key(name),
{
}

} // verus!
