//! The table-settings registry.
//!
//! Maps `(database, table)` to the list of index bindings fed by that
//! table. One table may feed several indices. The registry is populated
//! during setup and read by hook code; an unregistered table simply has no
//! bindings, and hooks short-circuit silently.

use vstd::prelude::*;
use crate::assoc::{
    assoc_at, distinct_key_views, lemma_assoc_absent, lemma_assoc_found, lemma_assoc_push,
    lemma_assoc_update,
};

verus! {

/// One binding from a SQL table to an index: the index fed, and the
/// projection query that renders one row (by rowid) into one document.
/// The caller-supplied primary-key extractor runs in the unverified shell
/// and hands its result to `record_delete_event` as a plain string.
pub struct TableIndexSettings {
    pub index_name: String,
    pub update_query: String,
}

impl TableIndexSettings {
    /// Copies a binding; the copy equals the original.
    pub fn duplicate(&self) -> (r: TableIndexSettings)
        ensures
            r == *self,
    {
        TableIndexSettings {
            index_name: self.index_name.clone(),
            update_query: self.update_query.clone(),
        }
    }
}

/// The registry: `(database, table)` to bindings, each pair at most once.
pub struct SettingsRegistry {
    pub entries: Vec<((String, String), Vec<TableIndexSettings>)>,
}

impl SettingsRegistry {
    /// Each `(database, table)` pair appears at most once.
    pub open spec fn wf(self) -> bool {
        distinct_key_views(self.entries@)
    }

    /// The bindings registered for the given database and table; empty when
    /// the table is not registered.
    pub open spec fn bindings_for(self, db: Seq<char>, table: Seq<char>) -> Seq<
        TableIndexSettings,
    > {
        match assoc_at(self.entries@, (db, table)) {
            Some(v) => v@,
            None => Seq::empty(),
        }
    }

    /// Creates an empty registry.
    pub fn new() -> (r: SettingsRegistry)
        ensures
            r.wf(),
            forall|db: Seq<char>, t: Seq<char>|
                r.bindings_for(db, t) == Seq::<TableIndexSettings>::empty(),
    {
        SettingsRegistry { entries: Vec::new() }
    }

    /// Registers further bindings for a table, after any it already has.
    /// Every other table's bindings are untouched.
    #[verifier::loop_isolation(false)]
    pub fn bind(&mut self, database: String, table: String, settings: Vec<TableIndexSettings>)
        requires
            old(self).wf(),
        ensures
            final(self).wf(),
            final(self).bindings_for(database@, table@) == old(self).bindings_for(
                database@,
                table@,
            ) + settings@,
            forall|db: Seq<char>, t: Seq<char>|
                (db, t) != (database@, table@) ==> final(self).bindings_for(db, t) == old(
                    self,
                ).bindings_for(db, t),
    {
        let ghost orig = self.entries@;
        let ghost key = (database@, table@);
        let n = self.entries.len();
        let mut i: usize = 0;
        while i < n
            invariant
                n == self.entries.len(),
                i <= n,
                *self == *old(self),
                forall|j: int| 0 <= j < i ==> self.entries@[j].0@ != key,
            decreases n - i,
        {
            if self.entries[i].0.0 == database && self.entries[i].0.1 == table {
                let (name, mut have) = self.entries.remove(i);
                let mut more = settings;
                have.append(&mut more);
                self.entries.insert(i, (name, have));
                proof {
                    let e = self.entries@[i as int];
                    assert(self.entries@ =~= orig.update(i as int, e));
                    assert(e.0@ == orig[i as int].0@);
                    assert forall|a: int, b: int|
                        0 <= a < b < self.entries@.len() implies self.entries@[a].0@
                        != self.entries@[b].0@ by {
                        assert(self.entries@[a].0@ == orig[a].0@);
                        assert(self.entries@[b].0@ == orig[b].0@);
                    }
                    assert forall|db: Seq<char>, t: Seq<char>| true implies assoc_at(
                        self.entries@,
                        (db, t),
                    ) == (if (db, t) == key {
                        Some(e.1)
                    } else {
                        assoc_at(orig, (db, t))
                    }) by {
                        lemma_assoc_update(orig, i as int, e, (db, t));
                    }
                    lemma_assoc_found(orig, i as int, key);
                }
                return ;
            }
            i = i + 1;
        }
        self.entries.push(((database, table), settings));
        proof {
            let e = self.entries@.last();
            assert(self.entries@ == orig.push(e));
            assert forall|db: Seq<char>, t: Seq<char>| true implies assoc_at(
                self.entries@,
                (db, t),
            ) == (if (db, t) == key {
                Some(e.1)
            } else {
                assoc_at(orig, (db, t))
            }) by {
                lemma_assoc_push(orig, e, (db, t));
            }
            lemma_assoc_absent(orig, key);
            assert(final(self).bindings_for(database@, table@) =~= old(self).bindings_for(
                database@,
                table@,
            ) + e.1@);
            assert forall|a: int, b: int|
                0 <= a < b < self.entries@.len() implies self.entries@[a].0@
                != self.entries@[b].0@ by {
                if b == self.entries@.len() - 1 {
                    assert(self.entries@[a].0@ != key);
                } else {
                    assert(self.entries@[a] == orig[a]);
                    assert(self.entries@[b] == orig[b]);
                }
            }
        }
    }

    /// Builder form of `bind`, as setup code chains it.
    pub fn with_table(
        self,
        database: String,
        table: String,
        settings: Vec<TableIndexSettings>,
    ) -> (r: SettingsRegistry)
        requires
            self.wf(),
        ensures
            r.wf(),
            r.bindings_for(database@, table@) == self.bindings_for(database@, table@) + settings@,
            forall|db: Seq<char>, t: Seq<char>|
                (db, t) != (database@, table@) ==> r.bindings_for(db, t) == self.bindings_for(
                    db,
                    t,
                ),
    {
        let mut out = self;
        out.bind(database, table, settings);
        out
    }

    /// The bindings for the given database and table, if any are
    /// registered.
    #[verifier::loop_isolation(false)]
    pub fn lookup(&self, database: &String, table: &String) -> (r: Option<
        &Vec<TableIndexSettings>,
    >)
        requires
            self.wf(),
        ensures
            match r {
                Some(v) => v@ == self.bindings_for(database@, table@),
                None => self.bindings_for(database@, table@) == Seq::<TableIndexSettings>::empty(),
            },
            r is Some <==> assoc_at(self.entries@, (database@, table@)) is Some,
    {
        let n = self.entries.len();
        let mut i: usize = 0;
        while i < n
            invariant
                n == self.entries.len(),
                i <= n,
                forall|j: int| 0 <= j < i ==> self.entries@[j].0@ != (database@, table@),
            decreases n - i,
        {
            if self.entries[i].0.0 == *database && self.entries[i].0.1 == *table {
                proof {
                    lemma_assoc_found(self.entries@, i as int, (database@, table@));
                }
                return Some(&self.entries[i].1);
            }
            i = i + 1;
        }
        proof {
            lemma_assoc_absent(self.entries@, (database@, table@));
        }
        None
    }
}

} // verus!
