//! Translation of raw SQL mutation events into pending operations.
//!
//! The SQL engine fires per-connection callbacks at four points. The
//! unverified shell owns the callbacks themselves (they close over engine
//! types); each callback hands the event's plain values to one function
//! here, which updates the pending-changes buffer:
//!
//! - a pre-update event for a row about to be deleted brings the primary
//!   keys that the caller-supplied extractors computed from the vanishing
//!   row, one per binding — `record_delete_event`;
//! - an update event after a successful insert or update brings the rowid —
//!   `record_update_event`, which defers the re-query to the worker;
//! - commit takes the whole buffer (`PendingChanges::take`) and sends it;
//! - rollback clears it in place (`PendingChanges::clear`).

use vstd::prelude::*;
use crate::buffer::PendingChanges;
use crate::ops::TableUpdate;
use crate::registry::TableIndexSettings;

verus! {

/// The operations that an insert-or-update event on a row emits for the
/// index named `k`: one deferred upsert per binding that feeds `k`, in
/// binding order, each carrying the event's rowid and the binding's
/// projection query.
pub open spec fn upserts_for(
    bindings: Seq<TableIndexSettings>,
    rowid: i64,
    k: Seq<char>,
) -> Seq<TableUpdate>
    decreases bindings.len(),
{
    if bindings.len() == 0 {
        Seq::empty()
    } else {
        let rest = upserts_for(bindings.drop_last(), rowid, k);
        if bindings.last().index_name@ == k {
            rest.push(
                TableUpdate::Upsert { rowid, update_query: bindings.last().update_query },
            )
        } else {
            rest
        }
    }
}

/// The operations that a pre-delete event emits for the index named `k`:
/// one delete per binding that feeds `k`, in binding order, carrying the
/// primary key extracted for that binding.
pub open spec fn deletes_for(
    bindings: Seq<TableIndexSettings>,
    keys: Seq<String>,
    k: Seq<char>,
) -> Seq<TableUpdate>
    decreases bindings.len(),
{
    if bindings.len() == 0 || keys.len() != bindings.len() {
        Seq::empty()
    } else {
        let rest = deletes_for(bindings.drop_last(), keys.drop_last(), k);
        if bindings.last().index_name@ == k {
            rest.push(TableUpdate::Delete { primary_key: keys.last() })
        } else {
            rest
        }
    }
}

/// Records an insert-or-update event: for every binding of the mutated
/// table, appends a deferred upsert to that binding's index. Re-querying
/// is deferred so the worker sees committed state.
#[verifier::loop_isolation(false)]
pub fn record_update_event(
    buf: &mut PendingChanges,
    bindings: &Vec<TableIndexSettings>,
    rowid: i64,
)
    requires
        old(buf).wf(),
    ensures
        final(buf).wf(),
        forall|k: Seq<char>|
            #[trigger] final(buf).ops_for(k) == old(buf).ops_for(k) + upserts_for(
                bindings@,
                rowid,
                k,
            ),
{
    let n = bindings.len();
    let mut i: usize = 0;
    while i < n
        invariant
            n == bindings.len(),
            i <= n,
            buf.wf(),
            forall|k: Seq<char>|
                #[trigger] buf.ops_for(k) == old(buf).ops_for(k) + upserts_for(
                    bindings@.take(i as int),
                    rowid,
                    k,
                ),
        decreases n - i,
    {
        let ghost mid = *buf;
        let op = TableUpdate::Upsert {
            rowid,
            update_query: bindings[i].update_query.clone(),
        };
        buf.push_op(&bindings[i].index_name, op);
        proof {
            let kb = bindings@[i as int].index_name@;
            assert(bindings@.take(i + 1).drop_last() =~= bindings@.take(i as int));
            assert(bindings@.take(i + 1).last() == bindings@[i as int]);
            assert forall|k: Seq<char>| true implies #[trigger] buf.ops_for(k) == old(
                buf,
            ).ops_for(k) + upserts_for(bindings@.take(i + 1), rowid, k) by {
                if k == kb {
                    assert(buf.ops_for(k) == mid.ops_for(k).push(op));
                    assert(upserts_for(bindings@.take(i + 1), rowid, k) == upserts_for(
                        bindings@.take(i as int),
                        rowid,
                        k,
                    ).push(op));
                    assert((old(buf).ops_for(k) + upserts_for(bindings@.take(i as int), rowid, k))
                        .push(op) =~= old(buf).ops_for(k) + upserts_for(
                        bindings@.take(i as int),
                        rowid,
                        k,
                    ).push(op));
                } else {
                    assert(buf.ops_for(k) == mid.ops_for(k));
                }
            }
        }
        i = i + 1;
    }
    proof {
        assert(bindings@.take(n as int) =~= bindings@);
    }
}

/// Records a pre-delete event: for every binding of the table whose row is
/// about to vanish, appends a delete carrying the primary key that the
/// binding's extractor computed. The keys must come one per binding, in
/// binding order; capture happens now because the row is gone after
/// commit.
#[verifier::loop_isolation(false)]
pub fn record_delete_event(
    buf: &mut PendingChanges,
    bindings: &Vec<TableIndexSettings>,
    keys: &Vec<String>,
)
    requires
        old(buf).wf(),
        keys@.len() == bindings@.len(),
    ensures
        final(buf).wf(),
        forall|k: Seq<char>|
            #[trigger] final(buf).ops_for(k) == old(buf).ops_for(k) + deletes_for(
                bindings@,
                keys@,
                k,
            ),
{
    let n = bindings.len();
    let mut i: usize = 0;
    while i < n
        invariant
            n == bindings.len(),
            i <= n,
            buf.wf(),
            forall|k: Seq<char>|
                #[trigger] buf.ops_for(k) == old(buf).ops_for(k) + deletes_for(
                    bindings@.take(i as int),
                    keys@.take(i as int),
                    k,
                ),
        decreases n - i,
    {
        let ghost mid = *buf;
        let op = TableUpdate::Delete { primary_key: keys[i].clone() };
        buf.push_op(&bindings[i].index_name, op);
        proof {
            let kb = bindings@[i as int].index_name@;
            assert(bindings@.take(i + 1).drop_last() =~= bindings@.take(i as int));
            assert(keys@.take(i + 1).drop_last() =~= keys@.take(i as int));
            assert(bindings@.take(i + 1).last() == bindings@[i as int]);
            assert(keys@.take(i + 1).last() == keys@[i as int]);
            assert forall|k: Seq<char>| true implies #[trigger] buf.ops_for(k) == old(
                buf,
            ).ops_for(k) + deletes_for(bindings@.take(i + 1), keys@.take(i + 1), k) by {
                if k == kb {
                    assert(buf.ops_for(k) == mid.ops_for(k).push(op));
                    assert(deletes_for(bindings@.take(i + 1), keys@.take(i + 1), k)
                        == deletes_for(
                        bindings@.take(i as int),
                        keys@.take(i as int),
                        k,
                    ).push(op));
                    assert((old(buf).ops_for(k) + deletes_for(
                        bindings@.take(i as int),
                        keys@.take(i as int),
                        k,
                    )).push(op) =~= old(buf).ops_for(k) + deletes_for(
                        bindings@.take(i as int),
                        keys@.take(i as int),
                        k,
                    ).push(op));
                } else {
                    assert(buf.ops_for(k) == mid.ops_for(k));
                }
            }
        }
        i = i + 1;
    }
    proof {
        assert(bindings@.take(n as int) =~= bindings@);
        assert(keys@.take(n as int) =~= keys@);
    }
}

} // verus!
