//! System-level laws of the pipeline.
//!
//! These theorems relate one coalesced window's application
//! (`worker::plan_applied`) to the committed SQL state it was captured
//! from. The SQL side appears abstractly: a committed state is the map
//! from external identifier to the document that the projection query
//! yields for the corresponding row. The capture conditions mirror what
//! the hooks and the worker guarantee — deletes carry the identifiers of
//! vanished rows, re-queries return current rows — plus the documented
//! side conditions: identifiers are unique per state, stay with their row,
//! and a deleted identifier is not re-created inside the same window.

use vstd::prelude::*;
use crate::index_model::{batch_doc_for, batch_ids_valid, id_in, spec_doc_id, IndexModel};
use crate::json::Document;
use crate::worker::{applied_doc_for, plan_applied};

verus! {

/// A document delivered by a re-query is current: whatever identifier it
/// carries names it in the committed state `s1`.
pub open spec fn doc_current(d: Document, pk: Seq<char>, s1: Map<Seq<char>, Document>) -> bool {
    match spec_doc_id(d@, pk) {
        Some(kk) => s1.dom().contains(kk) && d == s1[kk],
        None => true,
    }
}

/// Every document of every batch is current with respect to `s1`.
pub open spec fn batches_current(
    batches: Seq<Vec<Document>>,
    pk: Seq<char>,
    s1: Map<Seq<char>, Document>,
) -> bool {
    forall|i: int, j: int|
        0 <= i < batches.len() && 0 <= j < (#[trigger] batches[i])@.len() ==> doc_current(
            #[trigger] batches[i]@[j],
            pk,
            s1,
        )
}

/// A written batch entry comes from a member document carrying that
/// identifier.
proof fn lemma_batch_doc_member(docs: Seq<Document>, pk: Seq<char>, k: Seq<char>)
    requires
        batch_doc_for(docs, pk, k) is Some,
    ensures
        exists|j: int|
            0 <= j < docs.len() && #[trigger] docs[j] == batch_doc_for(docs, pk, k).unwrap()
                && spec_doc_id(docs[j]@, pk) == Some(k),
    decreases docs.len(),
{
    if spec_doc_id(docs.last()@, pk) == Some(k) {
        assert(docs[docs.len() - 1] == batch_doc_for(docs, pk, k).unwrap());
    } else {
        lemma_batch_doc_member(docs.drop_last(), pk, k);
        let j = choose|j: int|
            0 <= j < docs.drop_last().len() && #[trigger] docs.drop_last()[j] == batch_doc_for(
                docs.drop_last(),
                pk,
                k,
            ).unwrap() && spec_doc_id(docs.drop_last()[j]@, pk) == Some(k);
        assert(docs[j] == docs.drop_last()[j]);
    }
}

/// A written window entry comes from an accepted batch that writes that
/// identifier.
proof fn lemma_applied_doc_member(batches: Seq<Vec<Document>>, pk: Seq<char>, k: Seq<char>)
    requires
        applied_doc_for(batches, pk, k) is Some,
    ensures
        exists|i: int|
            0 <= i < batches.len() && batch_ids_valid((#[trigger] batches[i])@, pk)
                && batch_doc_for(batches[i]@, pk, k) == applied_doc_for(batches, pk, k),
    decreases batches.len(),
{
    if batch_ids_valid(batches.last()@, pk) && batch_doc_for(batches.last()@, pk, k) is Some {
        assert(batches[batches.len() - 1] == batches.last());
    } else {
        lemma_applied_doc_member(batches.drop_last(), pk, k);
        let i = choose|i: int|
            0 <= i < batches.drop_last().len() && batch_ids_valid(
                (#[trigger] batches.drop_last()[i])@,
                pk,
            ) && batch_doc_for(batches.drop_last()[i]@, pk, k) == applied_doc_for(
                batches.drop_last(),
                pk,
                k,
            );
        assert(batches[i] == batches.drop_last()[i]);
    }
}

/// The index contents equal the committed state: every identifier in the
/// state names exactly its document, and nothing else is indexed.
pub open spec fn matches_state(m: IndexModel, s: Map<Seq<char>, Document>) -> bool {
    forall|k: Seq<char>|
        #[trigger] m.doc_for(k) == (if s.dom().contains(k) {
            Some(s[k])
        } else {
            None::<Document>
        })
}

/// The capture conditions the hooks and worker establish for one window
/// over the committed states `s0` (before) and `s1` (after): batches only
/// deliver current documents; every identifier the window created or
/// changed was re-queried successfully; a deleted identifier does not
/// survive into `s1` (no re-creation of the same identifier inside the
/// window); and every identifier that vanished was captured as a delete.
pub open spec fn window_captures(
    batches: Seq<Vec<Document>>,
    dels: Seq<String>,
    pk: Seq<char>,
    s0: Map<Seq<char>, Document>,
    s1: Map<Seq<char>, Document>,
) -> bool {
    &&& batches_current(batches, pk, s1)
    &&& forall|k: Seq<char>|
        s1.dom().contains(k) && !(s0.dom().contains(k) && s0[k] == s1[k])
            ==> #[trigger] applied_doc_for(batches, pk, k) is Some
    &&& forall|k: Seq<char>| #[trigger] id_in(dels, k) ==> !s1.dom().contains(k)
    &&& forall|k: Seq<char>|
        s0.dom().contains(k) && !s1.dom().contains(k) ==> #[trigger] id_in(dels, k)
}

/// Convergence, one window: when a window's batches faithfully re-query
/// the committed state after the window and its deletes are exactly the
/// vanished identifiers, applying the window carries an index that
/// matched the state before the window to one that matches the state
/// after it.
pub proof fn lemma_convergence(
    m0: IndexModel,
    m1: IndexModel,
    batches: Seq<Vec<Document>>,
    dels: Seq<String>,
    pk: String,
    s0: Map<Seq<char>, Document>,
    s1: Map<Seq<char>, Document>,
)
    requires
        m0.settings.primary_key == Some(pk),
        plan_applied(m0, m1, batches, dels),
        matches_state(m0, s0),
        window_captures(batches, dels, pk@, s0, s1),
    ensures
        matches_state(m1, s1),
{
    assert forall|k: Seq<char>| true implies #[trigger] m1.doc_for(k) == (if s1.dom().contains(
        k,
    ) {
        Some(s1[k])
    } else {
        None::<Document>
    }) by {
        if id_in(dels, k) {
            assert(!s1.dom().contains(k));
            assert(m1.doc_for(k) is None);
        } else {
            if applied_doc_for(batches, pk@, k) is Some {
                let d = applied_doc_for(batches, pk@, k).unwrap();
                assert(m1.doc_for(k) == Some(d));
                lemma_applied_doc_member(batches, pk@, k);
                let i = choose|i: int|
                    0 <= i < batches.len() && batch_ids_valid((#[trigger] batches[i])@, pk@)
                        && batch_doc_for(batches[i]@, pk@, k) == applied_doc_for(
                        batches,
                        pk@,
                        k,
                    );
                lemma_batch_doc_member(batches[i]@, pk@, k);
                let j = choose|j: int|
                    0 <= j < batches[i]@.len() && #[trigger] batches[i]@[j] == batch_doc_for(
                        batches[i]@,
                        pk@,
                        k,
                    ).unwrap() && spec_doc_id(batches[i]@[j]@, pk@) == Some(k);
                assert(doc_current(batches[i]@[j], pk@, s1));
                assert(s1.dom().contains(k) && d == s1[k]);
            } else {
                assert(m1.doc_for(k) == m0.doc_for(k));
                if s1.dom().contains(k) {
                    assert(s0.dom().contains(k) && s0[k] == s1[k]);
                    assert(m0.doc_for(k) == Some(s0[k]));
                } else {
                    assert(!s0.dom().contains(k));
                    assert(m0.doc_for(k) is None);
                }
            }
        }
    }
}

/// Convergence, finite run: a committed state reachable by a finite
/// sequence of transactions is reached through a sequence of applied
/// windows; if the index matched the initial state and every window was
/// captured faithfully, the quiescent index matches the final state.
pub proof fn lemma_convergence_chain(
    models: Seq<IndexModel>,
    states: Seq<Map<Seq<char>, Document>>,
    batches: Seq<Seq<Vec<Document>>>,
    dels: Seq<Seq<String>>,
    pk: String,
)
    requires
        models.len() == states.len(),
        models.len() == batches.len() + 1,
        dels.len() == batches.len(),
        models[0].settings.primary_key == Some(pk),
        matches_state(models[0], states[0]),
        forall|i: int|
            0 <= i < batches.len() ==> plan_applied(
                models[i],
                models[i + 1],
                #[trigger] batches[i],
                dels[i],
            ),
        forall|i: int|
            0 <= i < batches.len() ==> window_captures(
                #[trigger] batches[i],
                dels[i],
                pk@,
                states[i],
                states[i + 1],
            ),
    ensures
        matches_state(models.last(), states.last()),
    decreases batches.len(),
{
    if batches.len() == 0 {
        assert(models.last() == models[0]);
        assert(states.last() == states[0]);
    } else {
        lemma_convergence(models[0], models[1], batches[0], dels[0], pk, states[0], states[1]);
        assert(models[1].settings == models[0].settings);
        let models2 = models.drop_first();
        let states2 = states.drop_first();
        let batches2 = batches.drop_first();
        let dels2 = dels.drop_first();
        assert(forall|i: int| 0 <= i < models2.len() ==> models2[i] == models[i + 1]);
        assert(forall|i: int| 0 <= i < states2.len() ==> states2[i] == states[i + 1]);
        assert(forall|i: int| 0 <= i < batches2.len() ==> batches2[i] == batches[i + 1]);
        assert(forall|i: int| 0 <= i < dels2.len() ==> dels2[i] == dels[i + 1]);
        assert forall|i: int| 0 <= i < batches2.len() implies plan_applied(
            models2[i],
            models2[i + 1],
            #[trigger] batches2[i],
            dels2[i],
        ) by {
            assert(plan_applied(models[i + 1], models[i + 2], batches[i + 1], dels[i + 1]));
        }
        assert forall|i: int| 0 <= i < batches2.len() implies window_captures(
            #[trigger] batches2[i],
            dels2[i],
            pk@,
            states2[i],
            states2[i + 1],
        ) by {
            assert(window_captures(batches[i + 1], dels[i + 1], pk@, states[i + 1], states[i + 2]));
        }
        lemma_convergence_chain(models2, states2, batches2, dels2, pk);
        assert(models2.last() == models.last());
        assert(states2.last() == states.last());
    }
}

/// Adding one document and asking for its identifier gives that document
/// back. (Value normalization happens in the projector, before the add:
/// what was added is what is returned.)
pub proof fn lemma_add_then_get(
    m0: IndexModel,
    m1: IndexModel,
    d: Document,
    pk: String,
    k: Seq<char>,
)
    requires
        m0.settings.primary_key == Some(pk),
        spec_doc_id(d@, pk@) == Some(k),
        forall|kk: Seq<char>|
            #[trigger] m1.doc_for(kk) == (match batch_doc_for(seq![d], pk@, kk) {
                Some(dd) => Some(dd),
                None => m0.doc_for(kk),
            }),
    ensures
        m1.doc_for(k) == Some(d),
{
    assert(seq![d].last() == d);
    assert(batch_doc_for(seq![d], pk@, k) == Some(d));
}

/// No phantom from rollback: a window carrying nothing — as after a
/// rollback cleared the buffer before commit could send it — leaves every
/// identifier exactly as it was.
pub proof fn lemma_empty_window_noop(m0: IndexModel, m1: IndexModel)
    requires
        plan_applied(m0, m1, Seq::<Vec<Document>>::empty(), Seq::<String>::empty()),
    ensures
        forall|k: Seq<char>| #[trigger] m1.doc_for(k) == m0.doc_for(k),
{
    assert forall|k: Seq<char>| true implies #[trigger] m1.doc_for(k) == m0.doc_for(k) by {
        assert(!id_in(Seq::<String>::empty(), k));
        match m0.settings.primary_key {
            Some(p) => {
                assert(applied_doc_for(Seq::<Vec<Document>>::empty(), p@, k) is None);
            },
            None => {
            },
        }
    }
}

/// Delete faithfulness: after a window applies, no identifier it deleted
/// names a document. Within one window the deletes run last, so this
/// holds whatever the window re-added.
pub proof fn lemma_delete_faithfulness(
    m0: IndexModel,
    m1: IndexModel,
    batches: Seq<Vec<Document>>,
    dels: Seq<String>,
    k: Seq<char>,
)
    requires
        plan_applied(m0, m1, batches, dels),
        id_in(dels, k),
    ensures
        m1.doc_for(k) is None,
{
}

/// Idempotent replay: applying the same window twice leaves every
/// identifier exactly as applying it once did.
pub proof fn lemma_idempotent_replay(
    m0: IndexModel,
    m1: IndexModel,
    m2: IndexModel,
    batches: Seq<Vec<Document>>,
    dels: Seq<String>,
)
    requires
        plan_applied(m0, m1, batches, dels),
        plan_applied(m1, m2, batches, dels),
    ensures
        forall|k: Seq<char>| #[trigger] m2.doc_for(k) == m1.doc_for(k),
{
    assert forall|k: Seq<char>| true implies #[trigger] m2.doc_for(k) == m1.doc_for(k) by {
        if !id_in(dels, k) {
            match m0.settings.primary_key {
                Some(p) => {
                    if applied_doc_for(batches, p@, k) is Some {
                    } else {
                        assert(m1.doc_for(k) == m0.doc_for(k));
                        assert(m2.doc_for(k) == m1.doc_for(k));
                    }
                },
                None => {
                },
            }
        }
    }
}

/// Mixed operations on one row inside a window land on the final state: a
/// deletion observed for an identifier wins; otherwise the last successful
/// re-query for it decides. (When the same identifier is both deleted and
/// re-created inside one window, the delete still wins: the window's
/// deletes run last.)
pub proof fn lemma_final_state_wins(
    m0: IndexModel,
    m1: IndexModel,
    batches: Seq<Vec<Document>>,
    dels: Seq<String>,
    k: Seq<char>,
    d: Document,
)
    requires
        plan_applied(m0, m1, batches, dels),
    ensures
        id_in(dels, k) ==> m1.doc_for(k) is None,
        (!id_in(dels, k) && m0.settings.primary_key is Some && applied_doc_for(
            batches,
            m0.settings.primary_key.unwrap()@,
            k,
        ) == Some(d)) ==> m1.doc_for(k) == Some(d),
{
}

/// A planned upsert whose re-query returned zero rows is silently a
/// no-op: appending its empty batch to a window writes and blocks
/// nothing.
pub proof fn lemma_zero_rows_noop(
    batches: Seq<Vec<Document>>,
    empty_batch: Vec<Document>,
    pk: Seq<char>,
    k: Seq<char>,
)
    requires
        empty_batch@.len() == 0,
    ensures
        applied_doc_for(batches.push(empty_batch), pk, k) == applied_doc_for(batches, pk, k),
{
    assert(batches.push(empty_batch).drop_last() =~= batches);
    assert(batches.push(empty_batch).last() == empty_batch);
    assert(batch_doc_for(empty_batch@, pk, k) is None);
}

} // verus!
