//! The documented semantics of one index's document store.
//!
//! The search engine keys documents by an external identifier: the
//! stringified value of the primary-key field. Adding documents upserts by
//! that identifier, deleting silently skips missing identifiers, and a
//! whole batch either applies or leaves the store unchanged. This model
//! carries those semantics as verified executable state: the worker's
//! batches are applied to it in proofs and tests, and the unverified shell
//! drives its engine with exactly the batches planned here.

use vstd::prelude::*;
use crate::assoc::{
    assoc_at, distinct_key_views, lemma_assoc_absent, lemma_assoc_found, lemma_assoc_push,
    lemma_assoc_remove, lemma_assoc_update,
};
use crate::json::{i64_to_string, spec_i64_digits, Document, JsonValue};
use crate::settings::{all_rules_valid, is_default_settings, IndexSettings};

verus! {

/// Why a document operation or a settings update was rejected.
#[derive(Debug, PartialEq, Eq, Structural)]
pub enum IndexError {
    /// No primary key is configured on the index.
    MissingPrimaryKey,
    /// A document lacks the primary-key field, or the field's value is
    /// neither a string nor an integer.
    InvalidDocumentId,
    /// A ranking-rule text in the settings is not acceptable.
    InvalidRankingRule,
}

/// The stringified identifier a document carries under the primary-key
/// field: the string itself for a string value, the decimal digits for an
/// integer value, nothing otherwise. When a field name repeats, the last
/// occurrence counts.
pub open spec fn spec_doc_id(doc: Seq<(String, JsonValue)>, pk: Seq<char>) -> Option<Seq<char>> {
    match assoc_at(doc, pk) {
        Some(JsonValue::Str(s)) => Some(s@),
        Some(JsonValue::Int(i)) => Some(spec_i64_digits(i as int)),
        _ => None,
    }
}

/// Every document in the batch carries a usable identifier under `pk`.
pub open spec fn batch_ids_valid(docs: Seq<Document>, pk: Seq<char>) -> bool {
    forall|i: int| 0 <= i < docs.len() ==> spec_doc_id((#[trigger] docs[i])@, pk) is Some
}

/// The document a batch leaves under identifier `k`: the last document in
/// the batch whose identifier is `k`, if any.
pub open spec fn batch_doc_for(docs: Seq<Document>, pk: Seq<char>, k: Seq<char>) -> Option<
    Document,
>
    decreases docs.len(),
{
    if docs.len() == 0 {
        None
    } else if spec_doc_id(docs.last()@, pk) == Some(k) {
        Some(docs.last())
    } else {
        batch_doc_for(docs.drop_last(), pk, k)
    }
}

/// Computes a document's external identifier under the primary-key field
/// `pk`, if it has one.
#[verifier::loop_isolation(false)]
pub fn doc_id(doc: &Document, pk: &String) -> (r: Option<String>)
    ensures
        match r {
            Some(s) => spec_doc_id(doc@, pk@) == Some(s@),
            None => spec_doc_id(doc@, pk@) is None,
        },
{
    let n = doc.len();
    let mut i: usize = n;
    proof {
        assert(doc@.take(n as int) =~= doc@);
    }
    while i > 0
        invariant
            i <= n,
            assoc_at(doc@, pk@) == assoc_at(doc@.take(i as int), pk@),
        decreases i,
    {
        proof {
            assert(doc@.take(i as int).last() == doc@[i - 1]);
            assert(doc@.take(i as int).drop_last() =~= doc@.take(i - 1));
        }
        if doc[i - 1].0 == *pk {
            match &doc[i - 1].1 {
                JsonValue::Str(s) => {
                    return Some(s.clone());
                },
                JsonValue::Int(v) => {
                    return Some(i64_to_string(*v));
                },
                _ => {
                    return None;
                },
            }
        }
        i = i - 1;
    }
    proof {
        assert(doc@.take(0) =~= Seq::<(String, JsonValue)>::empty());
    }
    None
}

/// One index's settings and document store.
pub struct IndexModel {
    pub settings: IndexSettings,
    pub docs: Vec<(String, Document)>,
}

impl IndexModel {
    /// Identifiers in the store are unique.
    pub open spec fn wf(self) -> bool {
        distinct_key_views(self.docs@)
    }

    /// The document stored under identifier `k`, if any.
    pub open spec fn doc_for(self, k: Seq<char>) -> Option<Document> {
        assoc_at(self.docs@, k)
    }

    /// A fresh, empty index with default settings.
    pub fn new() -> (r: IndexModel)
        ensures
            r.wf(),
            r.docs@ == Seq::<(String, Document)>::empty(),
            forall|k: Seq<char>| r.doc_for(k) is None,
            is_default_settings(r.settings),
    {
        IndexModel { settings: Default::default(), docs: Vec::new() }
    }

    /// The configured settings.
    pub fn get_settings(&self) -> (r: &IndexSettings)
        ensures
            *r == self.settings,
    {
        &self.settings
    }

    /// Replaces the settings. Succeeds exactly when every ranking-rule
    /// text is acceptable; on failure nothing changes. Documents survive a
    /// settings change.
    pub fn set_settings(&mut self, s: IndexSettings) -> (r: Result<(), IndexError>)
        requires
            old(self).wf(),
        ensures
            final(self).wf(),
            r is Ok <==> all_rules_valid(s.ranking_rules@),
            r is Ok ==> final(self).settings == s && final(self).docs@ == old(self).docs@,
            r is Err ==> *final(self) == *old(self) && r == Err::<(), IndexError>(
                IndexError::InvalidRankingRule,
            ),
    {
        if crate::settings::rules_valid(&s.ranking_rules) {
            self.settings = s;
            Ok(())
        } else {
            Err(IndexError::InvalidRankingRule)
        }
    }

    /// Stores `d` under identifier `id`, replacing any document that
    /// identifier already names.
    #[verifier::loop_isolation(false)]
    fn upsert_doc(&mut self, id: String, d: Document)
        requires
            old(self).wf(),
        ensures
            final(self).wf(),
            final(self).settings == old(self).settings,
            final(self).doc_for(id@) == Some(d),
            forall|k: Seq<char>| k != id@ ==> final(self).doc_for(k) == old(self).doc_for(k),
    {
        let ghost orig = self.docs@;
        let n = self.docs.len();
        let mut i: usize = 0;
        while i < n
            invariant
                n == self.docs.len(),
                i <= n,
                *self == *old(self),
                forall|j: int| 0 <= j < i ==> self.docs@[j].0@ != id@,
            decreases n - i,
        {
            if self.docs[i].0 == id {
                let (key, _old_doc) = self.docs.remove(i);
                self.docs.insert(i, (key, d));
                proof {
                    let e = self.docs@[i as int];
                    assert(self.docs@ =~= orig.update(i as int, e));
                    assert(e.0@ == orig[i as int].0@);
                    assert forall|a: int, b: int|
                        0 <= a < b < self.docs@.len() implies self.docs@[a].0@
                        != self.docs@[b].0@ by {
                        assert(self.docs@[a].0@ == orig[a].0@);
                        assert(self.docs@[b].0@ == orig[b].0@);
                    }
                    assert forall|k: Seq<char>| true implies assoc_at(self.docs@, k) == (if k
                        == id@ {
                        Some(e.1)
                    } else {
                        assoc_at(orig, k)
                    }) by {
                        lemma_assoc_update(orig, i as int, e, k);
                    }
                }
                return ;
            }
            i = i + 1;
        }
        self.docs.push((id, d));
        proof {
            let e = self.docs@.last();
            assert(self.docs@ == orig.push(e));
            assert forall|k: Seq<char>| true implies assoc_at(self.docs@, k) == (if k == e.0@ {
                Some(e.1)
            } else {
                assoc_at(orig, k)
            }) by {
                lemma_assoc_push(orig, e, k);
            }
            assert forall|a: int, b: int|
                0 <= a < b < self.docs@.len() implies self.docs@[a].0@ != self.docs@[b].0@ by {
                if b == self.docs@.len() - 1 {
                    assert(self.docs@[a].0@ != e.0@);
                } else {
                    assert(self.docs@[a] == orig[a]);
                    assert(self.docs@[b] == orig[b]);
                }
            }
        }
    }

    /// Applies a batch of already-validated documents in order.
    #[verifier::loop_isolation(false)]
    fn apply_docs(&mut self, pk: &String, docs: Vec<Document>)
        requires
            old(self).wf(),
            batch_ids_valid(docs@, pk@),
        ensures
            final(self).wf(),
            final(self).settings == old(self).settings,
            forall|k: Seq<char>|
                #[trigger] final(self).doc_for(k) == (match batch_doc_for(docs@, pk@, k) {
                    Some(d) => Some(d),
                    None => old(self).doc_for(k),
                }),
    {
        let ghost all = docs@;
        let total: usize = docs.len();
        let mut rest = docs;
        let mut j: usize = 0;
        while rest.len() > 0
            invariant
                self.wf(),
                self.settings == old(self).settings,
                total == all.len(),
                j + rest@.len() == all.len(),
                forall|m: int| 0 <= m < rest@.len() ==> rest@[m] == all[j + m],
                forall|k: Seq<char>|
                    #[trigger] self.doc_for(k) == (match batch_doc_for(
                        all.take(j as int),
                        pk@,
                        k,
                    ) {
                        Some(d) => Some(d),
                        None => old(self).doc_for(k),
                    }),
            decreases rest@.len(),
        {
            let ghost mid = *self;
            let d = rest.remove(0);
            assert(d == all[j as int]);
            let id_opt = doc_id(&d, pk);
            match id_opt {
                Some(id) => {
                    self.upsert_doc(id, d);
                },
                None => {
                    proof {
                        assert(spec_doc_id(all[j as int]@, pk@) is Some);
                    }
                },
            }
            proof {
                assert(all.take(j + 1).last() == all[j as int]);
                assert(all.take(j + 1).drop_last() =~= all.take(j as int));
            }
            j = j + 1;
        }
        proof {
            assert(all.take(all.len() as int) =~= all);
        }
    }

    /// Upserts a batch of documents by external identifier, in order; a
    /// later document with the same identifier as an earlier one wins.
    /// Succeeds exactly when a primary key is configured and every
    /// document carries a usable identifier; on failure nothing changes.
    pub fn add_documents(&mut self, documents: Vec<Document>) -> (r: Result<(), IndexError>)
        requires
            old(self).wf(),
        ensures
            final(self).wf(),
            final(self).settings == old(self).settings,
            r is Ok <==> (old(self).settings.primary_key is Some && batch_ids_valid(
                documents@,
                old(self).settings.primary_key.unwrap()@,
            )),
            r is Ok ==> forall|k: Seq<char>|
                #[trigger] final(self).doc_for(k) == (match batch_doc_for(
                    documents@,
                    old(self).settings.primary_key.unwrap()@,
                    k,
                ) {
                    Some(d) => Some(d),
                    None => old(self).doc_for(k),
                }),
            r is Err ==> *final(self) == *old(self),
            old(self).settings.primary_key is None ==> r == Err::<(), IndexError>(
                IndexError::MissingPrimaryKey,
            ),
    {
        let pk = match &self.settings.primary_key {
            Some(p) => p.clone(),
            None => {
                return Err(IndexError::MissingPrimaryKey);
            },
        };
        if !Self::batch_valid(&documents, &pk) {
            return Err(IndexError::InvalidDocumentId);
        }
        self.apply_docs(&pk, documents);
        Ok(())
    }

    /// Checks that every document in the batch carries a usable
    /// identifier.
    #[verifier::loop_isolation(false)]
    fn batch_valid(documents: &Vec<Document>, pk: &String) -> (r: bool)
        ensures
            r == batch_ids_valid(documents@, pk@),
    {
        let n = documents.len();
        let mut i: usize = 0;
        while i < n
            invariant
                i <= n,
                forall|j: int|
                    0 <= j < i ==> spec_doc_id((#[trigger] documents@[j])@, pk@) is Some,
            decreases n - i,
        {
            match doc_id(&documents[i], pk) {
                Some(_) => {
                },
                None => {
                    return false;
                },
            }
            i = i + 1;
        }
        true
    }

    /// Replaces the whole document store with the given batch inside one
    /// write: a clear and an add that either both apply or neither does.
    pub fn set_documents(&mut self, documents: Vec<Document>) -> (r: Result<(), IndexError>)
        requires
            old(self).wf(),
        ensures
            final(self).wf(),
            final(self).settings == old(self).settings,
            r is Ok <==> (old(self).settings.primary_key is Some && batch_ids_valid(
                documents@,
                old(self).settings.primary_key.unwrap()@,
            )),
            r is Ok ==> forall|k: Seq<char>|
                #[trigger] final(self).doc_for(k) == batch_doc_for(
                    documents@,
                    old(self).settings.primary_key.unwrap()@,
                    k,
                ),
            r is Err ==> *final(self) == *old(self),
            old(self).settings.primary_key is None ==> r == Err::<(), IndexError>(
                IndexError::MissingPrimaryKey,
            ),
    {
        let pk = match &self.settings.primary_key {
            Some(p) => p.clone(),
            None => {
                return Err(IndexError::MissingPrimaryKey);
            },
        };
        if !Self::batch_valid(&documents, &pk) {
            return Err(IndexError::InvalidDocumentId);
        }
        self.docs.clear();
        self.apply_docs(&pk, documents);
        Ok(())
    }

    /// Removes the document under `id`, if one exists.
    #[verifier::loop_isolation(false)]
    fn delete_one(&mut self, id: &String)
        requires
            old(self).wf(),
        ensures
            final(self).wf(),
            final(self).settings == old(self).settings,
            final(self).doc_for(id@) is None,
            forall|k: Seq<char>| k != id@ ==> final(self).doc_for(k) == old(self).doc_for(k),
    {
        let ghost orig = self.docs@;
        let n = self.docs.len();
        let mut i: usize = 0;
        while i < n
            invariant
                n == self.docs.len(),
                i <= n,
                *self == *old(self),
                forall|j: int| 0 <= j < i ==> self.docs@[j].0@ != id@,
            decreases n - i,
        {
            if self.docs[i].0 == *id {
                let _removed = self.docs.remove(i);
                proof {
                    assert forall|k: Seq<char>| true implies assoc_at(self.docs@, k) == (if k
                        == id@ {
                        None::<Document>
                    } else {
                        assoc_at(orig, k)
                    }) by {
                        lemma_assoc_remove(orig, i as int, k);
                    }
                    assert forall|a: int, b: int|
                        0 <= a < b < self.docs@.len() implies self.docs@[a].0@
                        != self.docs@[b].0@ by {
                        let s = orig.remove(i as int);
                        assert(self.docs@ == s);
                        if a < i {
                            assert(s[a] == orig[a]);
                        } else {
                            assert(s[a] == orig[a + 1]);
                        }
                        if b < i {
                            assert(s[b] == orig[b]);
                        } else {
                            assert(s[b] == orig[b + 1]);
                        }
                    }
                }
                return ;
            }
            i = i + 1;
        }
        proof {
            lemma_assoc_absent(self.docs@, id@);
        }
    }

    /// Deletes the documents named by the given identifiers, in order;
    /// identifiers that name nothing are silently skipped.
    #[verifier::loop_isolation(false)]
    pub fn delete_documents(&mut self, document_ids: Vec<String>)
        requires
            old(self).wf(),
        ensures
            final(self).wf(),
            final(self).settings == old(self).settings,
            forall|k: Seq<char>|
                #[trigger] final(self).doc_for(k) == (if id_in(document_ids@, k) {
                    None::<Document>
                } else {
                    old(self).doc_for(k)
                }),
    {
        let n = document_ids.len();
        let mut i: usize = 0;
        while i < n
            invariant
                n == document_ids.len(),
                i <= n,
                self.wf(),
                self.settings == old(self).settings,
                forall|k: Seq<char>|
                    #[trigger] self.doc_for(k) == (if id_in(document_ids@.take(i as int), k) {
                        None::<Document>
                    } else {
                        old(self).doc_for(k)
                    }),
            decreases n - i,
        {
            let ghost mid = *self;
            self.delete_one(&document_ids[i]);
            proof {
                let ids1 = document_ids@.take(i + 1);
                let ids0 = document_ids@.take(i as int);
                assert forall|k: Seq<char>| true implies (id_in(ids1, k) <==> (id_in(ids0, k)
                    || document_ids@[i as int]@ == k)) by {
                    if id_in(ids1, k) {
                        let m = choose|m: int| 0 <= m < ids1.len() && ids1[m]@ == k;
                        if m < i {
                            assert(ids0[m]@ == k);
                        }
                    }
                    if id_in(ids0, k) {
                        let m = choose|m: int| 0 <= m < ids0.len() && ids0[m]@ == k;
                        assert(ids1[m]@ == k);
                    }
                    if document_ids@[i as int]@ == k {
                        assert(ids1[i as int]@ == k);
                    }
                }
            }
            i = i + 1;
        }
        proof {
            assert(document_ids@.take(n as int) =~= document_ids@);
        }
    }

    /// Removes every document.
    pub fn delete_all_documents(&mut self)
        ensures
            final(self).wf(),
            final(self).settings == old(self).settings,
            final(self).docs@ == Seq::<(String, Document)>::empty(),
            forall|k: Seq<char>| final(self).doc_for(k) is None,
    {
        self.docs.clear();
    }

    /// The document stored under the given identifier, if any.
    #[verifier::loop_isolation(false)]
    pub fn get_document(&self, document_id: &String) -> (r: Option<&Document>)
        requires
            self.wf(),
        ensures
            match r {
                Some(d) => self.doc_for(document_id@) == Some(*d),
                None => self.doc_for(document_id@) is None,
            },
    {
        let n = self.docs.len();
        let mut i: usize = 0;
        while i < n
            invariant
                n == self.docs.len(),
                i <= n,
                forall|j: int| 0 <= j < i ==> self.docs@[j].0@ != document_id@,
            decreases n - i,
        {
            if self.docs[i].0 == *document_id {
                proof {
                    lemma_assoc_found(self.docs@, i as int, document_id@);
                }
                return Some(&self.docs[i].1);
            }
            i = i + 1;
        }
        proof {
            lemma_assoc_absent(self.docs@, document_id@);
        }
        None
    }

    /// Every stored document, paired with its identifier, in store order.
    pub fn get_all_documents(&self) -> (r: &Vec<(String, Document)>)
        ensures
            r@ == self.docs@,
    {
        &self.docs
    }

    /// How many documents the index holds.
    pub fn number_of_documents(&self) -> (r: u64)
        requires
            self.docs@.len() <= u64::MAX,
        ensures
            r == self.docs@.len(),
    {
        self.docs.len() as u64
    }
}

/// Whether `k` is among the views of the given identifiers.
pub open spec fn id_in(ids: Seq<String>, k: Seq<char>) -> bool {
    exists|i: int| 0 <= i < ids.len() && (#[trigger] ids[i])@ == k
}

} // verus!
