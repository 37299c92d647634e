//! The per-connection pending-changes buffer.
//!
//! Valid for the span of one SQL transaction: a map from index name to the
//! ordered list of operations emitted for that index. Hooks append; commit
//! swaps the buffer out wholesale and hands the contents to the dispatch
//! channel; rollback clears it in place, so nothing from a rolled-back
//! transaction can ever reach the worker. Operations stay in emission
//! order throughout.

use vstd::prelude::*;
use crate::assoc::{
    assoc_at, distinct_key_views, lemma_assoc_absent, lemma_assoc_drop_first, lemma_assoc_found,
    lemma_assoc_push, lemma_assoc_update,
};
use crate::ops::TableUpdate;

verus! {

/// Pending operations, grouped by index name. Also the shape of one
/// change-set message: commit transfers the whole buffer by value.
pub struct PendingChanges {
    pub entries: Vec<(String, Vec<TableUpdate>)>,
}

/// The operations that an entry list holds for index name `k`; empty when
/// the list has no entry for it.
pub open spec fn entry_ops(s: Seq<(String, Vec<TableUpdate>)>, k: Seq<char>) -> Seq<TableUpdate> {
    match assoc_at(s, k) {
        Some(v) => v@,
        None => Seq::empty(),
    }
}

impl PendingChanges {
    /// Each index name appears at most once.
    pub open spec fn wf(self) -> bool {
        distinct_key_views(self.entries@)
    }

    /// The underlying entries, for specs that speak about iteration order.
    pub open spec fn entries_view(self) -> Seq<(String, Vec<TableUpdate>)> {
        self.entries@
    }

    /// The operations pending for the index named `k`, in emission order;
    /// empty when the buffer holds nothing for it.
    pub open spec fn ops_for(self, k: Seq<char>) -> Seq<TableUpdate> {
        entry_ops(self.entries@, k)
    }

    /// Creates an empty buffer.
    pub fn new() -> (r: PendingChanges)
        ensures
            r.wf(),
            r.entries_view() =~= Seq::<(String, Vec<TableUpdate>)>::empty(),
            forall|k: Seq<char>| r.ops_for(k) == Seq::<TableUpdate>::empty(),
    {
        PendingChanges { entries: Vec::new() }
    }

    /// How many indices have pending operations.
    pub fn num_indices(&self) -> (n: usize)
        ensures
            n == self.entries_view().len(),
    {
        self.entries.len()
    }

    /// Appends `ops` to the index named `index_name`, creating its entry if
    /// none exists. Every other index's pending list is untouched.
    #[verifier::loop_isolation(false)]
    pub fn append_ops(&mut self, index_name: String, ops: Vec<TableUpdate>)
        requires
            old(self).wf(),
        ensures
            final(self).wf(),
            final(self).ops_for(index_name@) == old(self).ops_for(index_name@) + ops@,
            forall|k: Seq<char>|
                k != index_name@ ==> final(self).ops_for(k) == old(self).ops_for(k),
    {
        let ghost orig = self.entries@;
        let n = self.entries.len();
        let mut i: usize = 0;
        while i < n
            invariant
                n == self.entries.len(),
                i <= n,
                *self == *old(self),
                orig == self.entries@,
                forall|j: int| 0 <= j < i ==> self.entries@[j].0@ != index_name@,
            decreases n - i,
        {
            if self.entries[i].0 == index_name {
                let (name, mut have) = self.entries.remove(i);
                let mut more = ops;
                have.append(&mut more);
                self.entries.insert(i, (name, have));
                proof {
                    let e = self.entries@[i as int];
                    assert(self.entries@ =~= orig.update(i as int, e));
                    assert(e.0@ == orig[i as int].0@);
                    assert forall|a: int, b: int|
                        0 <= a < b < self.entries@.len() implies self.entries@[a].0@
                        != self.entries@[b].0@ by {
                        assert(self.entries@[a].0@ == orig[a].0@);
                        assert(self.entries@[b].0@ == orig[b].0@);
                    }
                    assert forall|k: Seq<char>| true implies entry_ops(self.entries@, k) == (if k
                        == index_name@ {
                        entry_ops(orig, k) + ops@
                    } else {
                        entry_ops(orig, k)
                    }) by {
                        lemma_assoc_update(orig, i as int, e, k);
                        if k == index_name@ {
                            lemma_assoc_found(orig, i as int, k);
                        }
                    }
                }
                return ;
            }
            i = i + 1;
        }
        self.entries.push((index_name, ops));
        proof {
            let e = self.entries@.last();
            assert forall|k: Seq<char>| true implies entry_ops(self.entries@, k) == (if k
                == index_name@ {
                entry_ops(orig, k) + ops@
            } else {
                entry_ops(orig, k)
            }) by {
                assert(self.entries@ == orig.push(e));
                lemma_assoc_push(orig, e, k);
                if k == index_name@ {
                    lemma_assoc_absent(orig, k);
                    assert(entry_ops(orig, k) + ops@ =~= ops@);
                }
            }
            assert forall|a: int, b: int|
                0 <= a < b < self.entries@.len() implies self.entries@[a].0@
                != self.entries@[b].0@ by {
                if b == self.entries@.len() - 1 {
                    assert(self.entries@[a].0@ != index_name@);
                } else {
                    assert(self.entries@[a] == orig[a]);
                    assert(self.entries@[b] == orig[b]);
                }
            }
        }
    }

    /// Appends one operation for the index named `index_name`.
    pub fn push_op(&mut self, index_name: &String, op: TableUpdate)
        requires
            old(self).wf(),
        ensures
            final(self).wf(),
            final(self).ops_for(index_name@) == old(self).ops_for(index_name@).push(op),
            forall|k: Seq<char>|
                k != index_name@ ==> final(self).ops_for(k) == old(self).ops_for(k),
    {
        let mut ops: Vec<TableUpdate> = Vec::new();
        ops.push(op);
        let ghost single = ops@;
        self.append_ops(index_name.clone(), ops);
        proof {
            assert(old(self).ops_for(index_name@) + single =~= old(self).ops_for(
                index_name@,
            ).push(op));
        }
    }

    /// Swaps the buffer for an empty one and returns the old contents: the
    /// commit hook's atomic hand-over.
    pub fn take(&mut self) -> (r: PendingChanges)
        ensures
            r == *old(self),
            final(self).wf(),
            final(self).entries_view() =~= Seq::<(String, Vec<TableUpdate>)>::empty(),
            forall|k: Seq<char>| final(self).ops_for(k) == Seq::<TableUpdate>::empty(),
    {
        let mut tmp = PendingChanges { entries: Vec::new() };
        core::mem::swap(self, &mut tmp);
        tmp
    }

    /// Discards every pending operation in place: the rollback hook. After
    /// this, nothing emitted by the rolled-back transaction survives.
    pub fn clear(&mut self)
        ensures
            final(self).wf(),
            final(self).entries_view() =~= Seq::<(String, Vec<TableUpdate>)>::empty(),
            forall|k: Seq<char>| final(self).ops_for(k) == Seq::<TableUpdate>::empty(),
    {
        self.entries.clear();
    }

    /// Merges another change-set into this one, index by index: the
    /// worker's coalescing step. Within each index, this buffer's
    /// operations keep their order and the other's follow them.
    #[verifier::loop_isolation(false)]
    pub fn merge_from(&mut self, other: PendingChanges)
        requires
            old(self).wf(),
            other.wf(),
        ensures
            final(self).wf(),
            forall|k: Seq<char>|
                #[trigger] final(self).ops_for(k) == old(self).ops_for(k) + other.ops_for(k),
    {
        let ghost all = other;
        let mut src = other.into_entries();
        while src.len() > 0
            invariant
                self.wf(),
                distinct_key_views(src@),
                forall|k: Seq<char>|
                    #[trigger] self.ops_for(k) + entry_ops(src@, k) == old(self).ops_for(k)
                        + all.ops_for(k),
            decreases src@.len(),
        {
            let ghost src0 = src@;
            let (name, ops) = src.remove(0);
            let ghost kn = name@;
            let ghost opsv = ops@;
            proof {
                assert(src@ =~= src0.drop_first());
                lemma_assoc_found(src0, 0, kn);
                assert(entry_ops(src0, kn) == opsv);
                assert(forall|j: int| 0 <= j < src@.len() ==> src@[j] == src0[j + 1]);
                assert forall|k: Seq<char>| true implies #[trigger] entry_ops(src@, k) == (if k
                    == kn {
                    Seq::<TableUpdate>::empty()
                } else {
                    entry_ops(src0, k)
                }) by {
                    if k == kn {
                        assert(forall|j: int| 0 <= j < src@.len() ==> src@[j].0@ != kn);
                        lemma_assoc_absent(src@, k);
                    } else {
                        lemma_assoc_drop_first(src0, k);
                    }
                }
            }
            let ghost mid = *self;
            self.append_ops(name, ops);
            proof {
                assert forall|k: Seq<char>| true implies #[trigger] self.ops_for(k) + entry_ops(
                    src@,
                    k,
                ) == old(self).ops_for(k) + all.ops_for(k) by {
                    assert(mid.ops_for(k) + entry_ops(src0, k) == old(self).ops_for(k)
                        + all.ops_for(k));
                    if k == kn {
                        assert(self.ops_for(k) == mid.ops_for(k) + opsv);
                        assert(self.ops_for(k) + entry_ops(src@, k) =~= mid.ops_for(k) + entry_ops(
                            src0,
                            k,
                        ));
                    } else {
                        assert(self.ops_for(k) == mid.ops_for(k));
                        assert(entry_ops(src@, k) == entry_ops(src0, k));
                    }
                }
            }
        }
        proof {
            assert forall|k: Seq<char>| true implies #[trigger] self.ops_for(k) == old(
                self,
            ).ops_for(k) + all.ops_for(k) by {
                assert(entry_ops(src@, k) == Seq::<TableUpdate>::empty());
                assert(self.ops_for(k) + entry_ops(src@, k) =~= self.ops_for(k));
            }
        }
    }

    /// Hands out the entries for the worker to consume, one index at a
    /// time, in the buffer's order.
    pub fn into_entries(self) -> (r: Vec<(String, Vec<TableUpdate>)>)
        ensures
            r@ == self.entries_view(),
    {
        self.entries
    }

    /// Under well-formedness, each handed-out entry holds exactly the
    /// operations pending for its index.
    pub proof fn lemma_entry_ops(self, i: int)
        requires
            self.wf(),
            0 <= i < self.entries_view().len(),
        ensures
            self.ops_for(self.entries_view()[i].0@) == self.entries_view()[i].1@,
    {
        lemma_assoc_found(self.entries@, i, self.entries@[i].0@);
    }
}

} // verus!
