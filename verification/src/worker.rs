//! The index updater's batch planning and application.
//!
//! After coalescing (`PendingChanges::merge_from`), the worker handles one
//! index at a time. Planning partitions that index's operations: deferred
//! upserts are collected with duplicates collapsed — re-querying the same
//! rowid through the same query twice cannot change the outcome — and
//! delete keys are collected in order. Application then processes all
//! upserts first and all deletes last, so a deletion observed in the
//! window wins over any earlier re-add of the same identifier. The SQL
//! re-queries themselves run in the unverified shell; their projected
//! results come back here as document batches, one per planned upsert.

use vstd::prelude::*;
use crate::index_model::{batch_doc_for, batch_ids_valid, id_in, IndexModel};
use crate::json::Document;
use crate::ops::TableUpdate;
use crate::strutil::str_eq;

verus! {

/// One index's share of a coalesced window, ready to run: the distinct
/// deferred upserts in first-appearance order, and every delete key in
/// emission order.
pub struct BatchPlan {
    pub upserts: Vec<(i64, String)>,
    pub deletes: Vec<String>,
}

/// The deferred upserts among `ops`, in order.
pub open spec fn upserts_of(ops: Seq<TableUpdate>) -> Seq<(i64, String)>
    decreases ops.len(),
{
    if ops.len() == 0 {
        Seq::empty()
    } else {
        let rest = upserts_of(ops.drop_last());
        match ops.last() {
            TableUpdate::Upsert { rowid, update_query } => rest.push((rowid, update_query)),
            TableUpdate::Delete { .. } => rest,
        }
    }
}

/// The delete keys among `ops`, in order.
pub open spec fn deletes_of(ops: Seq<TableUpdate>) -> Seq<String>
    decreases ops.len(),
{
    if ops.len() == 0 {
        Seq::empty()
    } else {
        let rest = deletes_of(ops.drop_last());
        match ops.last() {
            TableUpdate::Upsert { .. } => rest,
            TableUpdate::Delete { primary_key } => rest.push(primary_key),
        }
    }
}

/// Two planned upserts that would run the same query on the same rowid.
pub open spec fn ups_same(a: (i64, String), b: (i64, String)) -> bool {
    a.0 == b.0 && a.1@ == b.1@
}

/// Whether an equivalent upsert is already planned.
pub open spec fn ups_present(s: Seq<(i64, String)>, p: (i64, String)) -> bool {
    exists|i: int| 0 <= i < s.len() && ups_same(#[trigger] s[i], p)
}

/// The distinct upserts of `s`, keeping each first appearance.
pub open spec fn dedup_ups(s: Seq<(i64, String)>) -> Seq<(i64, String)>
    decreases s.len(),
{
    if s.len() == 0 {
        Seq::empty()
    } else {
        let d = dedup_ups(s.drop_last());
        if ups_present(d, s.last()) {
            d
        } else {
            d.push(s.last())
        }
    }
}

/// Whether an equivalent upsert is in the plan.
#[verifier::loop_isolation(false)]
fn contains_up(ups: &Vec<(i64, String)>, rowid: i64, query: &String) -> (r: bool)
    ensures
        r == ups_present(ups@, (rowid, *query)),
{
    let n = ups.len();
    let mut i: usize = 0;
    while i < n
        invariant
            i <= n,
            forall|j: int| 0 <= j < i ==> !ups_same(#[trigger] ups@[j], (rowid, *query)),
        decreases n - i,
    {
        if ups[i].0 == rowid && str_eq(ups[i].1.as_str(), query.as_str()) {
            assert(ups_same(ups@[i as int], (rowid, *query)));
            return true;
        }
        i = i + 1;
    }
    false
}

/// Plans one index's operations: partitions them into distinct deferred
/// upserts and ordered delete keys.
#[verifier::loop_isolation(false)]
pub fn plan_batch(ops: &Vec<TableUpdate>) -> (r: BatchPlan)
    ensures
        r.upserts@ == dedup_ups(upserts_of(ops@)),
        r.deletes@ == deletes_of(ops@),
{
    let mut upserts: Vec<(i64, String)> = Vec::new();
    let mut deletes: Vec<String> = Vec::new();
    let n = ops.len();
    let mut i: usize = 0;
    while i < n
        invariant
            i <= n,
            upserts@ == dedup_ups(upserts_of(ops@.take(i as int))),
            deletes@ == deletes_of(ops@.take(i as int)),
        decreases n - i,
    {
        proof {
            assert(ops@.take(i + 1).last() == ops@[i as int]);
            assert(ops@.take(i + 1).drop_last() =~= ops@.take(i as int));
        }
        match &ops[i] {
            TableUpdate::Upsert { rowid, update_query } => {
                proof {
                    let p = (*rowid, *update_query);
                    assert(upserts_of(ops@.take(i + 1)) == upserts_of(ops@.take(i as int)).push(
                        p,
                    ));
                    assert(upserts_of(ops@.take(i + 1)).drop_last() =~= upserts_of(
                        ops@.take(i as int),
                    ));
                    assert(upserts_of(ops@.take(i + 1)).last() == p);
                }
                if !contains_up(&upserts, *rowid, update_query) {
                    upserts.push((*rowid, update_query.clone()));
                }
            },
            TableUpdate::Delete { primary_key } => {
                proof {
                    assert(deletes_of(ops@.take(i + 1)) == deletes_of(ops@.take(i as int)).push(
                        *primary_key,
                    ));
                }
                deletes.push(primary_key.clone());
            },
        }
        i = i + 1;
    }
    proof {
        assert(ops@.take(n as int) =~= ops@);
    }
    BatchPlan { upserts, deletes }
}

/// No two planned upserts are equivalent, and everything once planned
/// stays represented: collapsing duplicates loses nothing but repetition.
pub proof fn lemma_dedup_ups(s: Seq<(i64, String)>)
    ensures
        forall|i: int, j: int|
            0 <= i < j < dedup_ups(s).len() ==> !ups_same(
                #[trigger] dedup_ups(s)[i],
                #[trigger] dedup_ups(s)[j],
            ),
        forall|p: (i64, String)| ups_present(s, p) <==> ups_present(dedup_ups(s), p),
    decreases s.len(),
{
    if s.len() > 0 {
        lemma_dedup_ups(s.drop_last());
        let d = dedup_ups(s.drop_last());
        let out = dedup_ups(s);
        assert forall|p: (i64, String)| ups_present(s, p) implies ups_present(out, p) by {
            let i = choose|i: int| 0 <= i < s.len() && ups_same(s[i], p);
            if i < s.len() - 1 {
                assert(s.drop_last()[i] == s[i]);
                assert(ups_present(s.drop_last(), p));
                assert(ups_present(d, p));
                if ups_present(d, s.last())  {
                } else {
                    let m = choose|m: int| 0 <= m < d.len() && ups_same(d[m], p);
                    assert(out[m] == d[m]);
                }
            } else {
                if ups_present(d, s.last()) {
                    let m = choose|m: int| 0 <= m < d.len() && ups_same(d[m], s.last());
                    assert(ups_same(d[m], p));
                } else {
                    assert(out.last() == s.last());
                    assert(ups_same(out[out.len() - 1], p));
                }
            }
        }
        assert forall|p: (i64, String)| ups_present(out, p) implies ups_present(s, p) by {
            let i = choose|i: int| 0 <= i < out.len() && ups_same(out[i], p);
            if ups_present(d, s.last()) {
                assert(ups_present(s.drop_last(), p));
                let m = choose|m: int| 0 <= m < s.drop_last().len() && ups_same(
                    s.drop_last()[m],
                    p,
                );
                assert(s[m] == s.drop_last()[m]);
            } else {
                if i < out.len() - 1 {
                    assert(out[i] == d[i]);
                    assert(ups_present(d, p));
                    assert(ups_present(s.drop_last(), p));
                    let m = choose|m: int| 0 <= m < s.drop_last().len() && ups_same(
                        s.drop_last()[m],
                        p,
                    );
                    assert(s[m] == s.drop_last()[m]);
                } else {
                    assert(ups_same(s.last(), p));
                    assert(ups_same(s[s.len() - 1], p));
                }
            }
        }
        assert forall|i: int, j: int| 0 <= i < j < out.len() implies !ups_same(
            out[i],
            out[j],
        ) by {
            if ups_present(d, s.last()) {
            } else {
                if j < out.len() - 1 {
                    assert(out[i] == d[i]);
                    assert(out[j] == d[j]);
                } else {
                    assert(out[i] == d[i]);
                    assert(out[j] == s.last());
                    if ups_same(d[i], s.last()) {
                        assert(ups_present(d, s.last()));
                    }
                }
            }
        }
    }
}

/// The document left under identifier `k` after a sequence of add batches
/// runs in order, counting only batches that the store accepts (every
/// document carries a usable identifier): the last accepted batch that
/// writes `k` decides.
pub open spec fn applied_doc_for(batches: Seq<Vec<Document>>, pk: Seq<char>, k: Seq<char>) -> Option<Document>
    decreases batches.len(),
{
    if batches.len() == 0 {
        None
    } else if batch_ids_valid(batches.last()@, pk) && batch_doc_for(batches.last()@, pk, k)
        is Some {
        batch_doc_for(batches.last()@, pk, k)
    } else {
        applied_doc_for(batches.drop_last(), pk, k)
    }
}

/// What applying one planned window does to one index: document batches
/// (one per planned upsert, in plan order) are added first, the delete
/// keys are deleted last. Deletes win over anything the window re-added;
/// otherwise the last accepted batch writing an identifier decides, and
/// identifiers the window never touched keep their old document. With no
/// primary key configured every add is rejected, so only the deletes act.
pub open spec fn plan_applied(
    m0: IndexModel,
    m1: IndexModel,
    batches: Seq<Vec<Document>>,
    dels: Seq<String>,
) -> bool {
    &&& m1.settings == m0.settings
    &&& (match m0.settings.primary_key {
        Some(p) => forall|k: Seq<char>|
            #[trigger] m1.doc_for(k) == (if id_in(dels, k) {
                None::<Document>
            } else {
                match applied_doc_for(batches, p@, k) {
                    Some(d) => Some(d),
                    None => m0.doc_for(k),
                }
            }),
        None => forall|k: Seq<char>|
            #[trigger] m1.doc_for(k) == (if id_in(dels, k) {
                None::<Document>
            } else {
                m0.doc_for(k)
            }),
    })
}

/// Applies one planned window to the model: all upsert batches first, in
/// plan order, then every delete. A batch the store rejects is skipped, as
/// the worker absorbs per-operation errors.
#[verifier::loop_isolation(false)]
pub fn apply_plan(model: &mut IndexModel, doc_batches: Vec<Vec<Document>>, delete_keys: Vec<String>)
    requires
        old(model).wf(),
    ensures
        final(model).wf(),
        plan_applied(*old(model), *final(model), doc_batches@, delete_keys@),
{
    let ghost all = doc_batches@;
    let total: usize = doc_batches.len();
    let mut rest = doc_batches;
    let mut j: usize = 0;
    while rest.len() > 0
        invariant
            model.wf(),
            model.settings == old(model).settings,
            total == all.len(),
            j + rest@.len() == all.len(),
            forall|m: int| 0 <= m < rest@.len() ==> rest@[m] == all[j + m],
            match old(model).settings.primary_key {
                Some(p) => forall|k: Seq<char>|
                    #[trigger] model.doc_for(k) == (match applied_doc_for(
                        all.take(j as int),
                        p@,
                        k,
                    ) {
                        Some(d) => Some(d),
                        None => old(model).doc_for(k),
                    }),
                None => forall|k: Seq<char>|
                    #[trigger] model.doc_for(k) == old(model).doc_for(k),
            },
        decreases rest@.len(),
    {
        let ghost mid = *model;
        let batch = rest.remove(0);
        assert(batch == all[j as int]);
        let _absorbed = model.add_documents(batch);
        proof {
            assert(all.take(j + 1).last() == all[j as int]);
            assert(all.take(j + 1).drop_last() =~= all.take(j as int));
            match old(model).settings.primary_key {
                Some(p) => {
                    assert forall|k: Seq<char>| true implies #[trigger] model.doc_for(k)
                        == (match applied_doc_for(all.take(j + 1), p@, k) {
                        Some(d) => Some(d),
                        None => old(model).doc_for(k),
                    }) by {
                        if batch_ids_valid(all[j as int]@, p@) {
                            assert(_absorbed is Ok);
                            if batch_doc_for(all[j as int]@, p@, k) is Some {
                            } else {
                                assert(model.doc_for(k) == mid.doc_for(k));
                            }
                        } else {
                            assert(_absorbed is Err);
                            assert(model.doc_for(k) == mid.doc_for(k));
                        }
                    }
                },
                None => {
                    assert(_absorbed is Err);
                },
            }
        }
        j = j + 1;
    }
    proof {
        assert(all.take(all.len() as int) =~= all);
    }
    model.delete_documents(delete_keys);
}

} // verus!
