//! End-to-end pipeline scenarios: hook events fill the buffer, commit
//! hands a change-set over, the worker coalesces, plans and applies, and
//! the index contents converge on the committed rows.

use skald::buffer::PendingChanges;
use skald::hooks::{record_delete_event, record_update_event};
use skald::index_model::{IndexError, IndexModel};
use skald::json::{Document, JsonValue};
use skald::ops::TableUpdate;
use skald::projector::{project_rows, SqlValue};
use skald::registry::{SettingsRegistry, TableIndexSettings};
use skald::settings::IndexSettings;
use skald::worker::{apply_plan, plan_batch};

const UPDATE_QUERY: &str = "select artist_id, artist_name, extra from artist where rowid = ?";

fn artist_binding() -> TableIndexSettings {
    TableIndexSettings {
        index_name: "artists".to_string(),
        update_query: UPDATE_QUERY.to_string(),
    }
}

fn artist_registry() -> SettingsRegistry {
    SettingsRegistry::new().with_table(
        "main".to_string(),
        "artist".to_string(),
        vec![artist_binding()],
    )
}

fn artist_index() -> IndexModel {
    let mut index = IndexModel::new();
    let settings = IndexSettings {
        primary_key: Some("artist_id".to_string()),
        ..Default::default()
    };
    index.set_settings(settings).expect("valid settings");
    index
}

fn artist_row(id: i64, name: &str, extra: &str) -> Vec<(String, SqlValue)> {
    vec![
        ("artist_id".to_string(), SqlValue::Integer(id)),
        ("artist_name".to_string(), SqlValue::Text(name.to_string())),
        ("extra".to_string(), SqlValue::Text(extra.to_string())),
    ]
}

/// Plays the worker for one index: plans the operations, answers each
/// planned upsert from the simulated committed rows (keyed by rowid), and
/// applies the window to the index.
fn run_worker(index: &mut IndexModel, ops: Vec<TableUpdate>, committed: &[(i64, Vec<(String, SqlValue)>)]) -> usize {
    let plan = plan_batch(&ops);
    let planned_upserts = plan.upserts.len();
    let mut batches: Vec<Vec<Document>> = Vec::new();
    for (rowid, _query) in &plan.upserts {
        let rows: Vec<Vec<(String, SqlValue)>> = committed
            .iter()
            .filter(|(r, _)| r == rowid)
            .map(|(_, row)| clone_row(row))
            .collect();
        batches.push(project_rows(rows));
    }
    apply_plan(index, batches, plan.deletes);
    planned_upserts
}

fn clone_row(row: &[(String, SqlValue)]) -> Vec<(String, SqlValue)> {
    row.iter()
        .map(|(n, v)| {
            let v2 = match v {
                SqlValue::Null => SqlValue::Null,
                SqlValue::Integer(i) => SqlValue::Integer(*i),
                SqlValue::Real(s) => SqlValue::Real(s.clone()),
                SqlValue::Text(s) => SqlValue::Text(s.clone()),
                SqlValue::Blob(b) => SqlValue::Blob(b.clone()),
            };
            (n.clone(), v2)
        })
        .collect()
}

fn single_entry(changeset: PendingChanges) -> Vec<TableUpdate> {
    let mut entries = changeset.into_entries();
    assert_eq!(entries.len(), 1);
    let (name, ops) = entries.remove(0);
    assert_eq!(name, "artists");
    ops
}

#[test]
fn insert_with_json_extra_lands_in_index_as_object() {
    let registry = artist_registry();
    let mut buffer = PendingChanges::new();
    let db = "main".to_string();
    let table = "artist".to_string();
    let bindings = registry.lookup(&db, &table).expect("registered table");
    record_update_event(&mut buffer, bindings, 1);
    let changeset = buffer.take();

    let committed = vec![(1i64, artist_row(1, "test", "{\"yo\":[true,2]}"))];
    let mut index = artist_index();
    run_worker(&mut index, single_entry(changeset), &committed);

    assert_eq!(index.number_of_documents(), 1);
    let id = "1".to_string();
    let doc = index.get_document(&id).expect("document for artist 1");
    assert_eq!(doc[2].0, "extra");
    match &doc[2].1 {
        JsonValue::Obj(fields) => {
            assert_eq!(fields[0].0, "yo");
            assert!(matches!(fields[0].1, JsonValue::Arr(_)));
        }
        _ => panic!("extra must be a parsed JSON object, not a string"),
    }
}

#[test]
fn delete_all_rows_empties_the_index() {
    let registry = artist_registry();
    let db = "main".to_string();
    let table = "artist".to_string();
    let mut index = artist_index();

    let mut buffer = PendingChanges::new();
    let bindings = registry.lookup(&db, &table).expect("registered table");
    record_update_event(&mut buffer, bindings, 1);
    let committed = vec![(1i64, artist_row(1, "test", "{\"yo\":[true,2]}"))];
    run_worker(&mut index, single_entry(buffer.take()), &committed);
    assert_eq!(index.number_of_documents(), 1);

    let keys = vec!["1".to_string()];
    record_delete_event(&mut buffer, bindings, &keys);
    let empty: Vec<(i64, Vec<(String, SqlValue)>)> = Vec::new();
    run_worker(&mut index, single_entry(buffer.take()), &empty);
    assert_eq!(index.number_of_documents(), 0);
    assert!(index.get_document(&"1".to_string()).is_none());
}

#[test]
fn plain_text_extra_stays_a_json_string() {
    let registry = artist_registry();
    let db = "main".to_string();
    let table = "artist".to_string();
    let mut buffer = PendingChanges::new();
    let bindings = registry.lookup(&db, &table).expect("registered table");
    record_update_event(&mut buffer, bindings, 7);
    let committed = vec![(7i64, artist_row(7, "someone", "plain text"))];
    let mut index = artist_index();
    run_worker(&mut index, single_entry(buffer.take()), &committed);

    let doc = index.get_document(&"7".to_string()).expect("document for artist 7");
    assert!(matches!(&doc[2].1, JsonValue::Str(s) if s == "plain text"));
}

#[test]
fn two_connections_inserting_concurrently_both_land() {
    let registry = artist_registry();
    let db = "main".to_string();
    let table = "artist".to_string();
    let bindings = registry.lookup(&db, &table).expect("registered table");

    let mut committed: Vec<(i64, Vec<(String, SqlValue)>)> = Vec::new();
    let mut buffer_a = PendingChanges::new();
    let mut buffer_b = PendingChanges::new();
    for i in 1..=1000i64 {
        record_update_event(&mut buffer_a, bindings, i);
        committed.push((i, artist_row(i, "a", "x")));
    }
    for i in 1001..=2000i64 {
        record_update_event(&mut buffer_b, bindings, i);
        committed.push((i, artist_row(i, "b", "y")));
    }

    // The two commits reach the channel in some order; the worker merges
    // both change-sets into one window before applying.
    let mut acc = buffer_a.take();
    acc.merge_from(buffer_b.take());

    let mut index = artist_index();
    run_worker(&mut index, single_entry(acc), &committed);

    assert_eq!(index.number_of_documents(), 2000);
    for i in 1..=2000i64 {
        let key = i.to_string();
        assert!(index.get_document(&key).is_some(), "missing artist {}", i);
    }
}

#[test]
fn rollback_leaves_the_index_empty() {
    let registry = artist_registry();
    let db = "main".to_string();
    let table = "artist".to_string();
    let mut buffer = PendingChanges::new();
    let bindings = registry.lookup(&db, &table).expect("registered table");
    for i in 1..=10i64 {
        record_update_event(&mut buffer, bindings, i);
    }
    // The transaction rolls back: the rollback hook clears the buffer in
    // place, so the later commit of an unrelated empty transaction sends
    // nothing.
    buffer.clear();
    let changeset = buffer.take();
    assert_eq!(changeset.into_entries().len(), 0);

    let index = artist_index();
    assert_eq!(index.number_of_documents(), 0);
}

#[test]
fn rapid_updates_coalesce_to_one_planned_upsert() {
    let registry = artist_registry();
    let db = "main".to_string();
    let table = "artist".to_string();
    let bindings = registry.lookup(&db, &table).expect("registered table");

    // Fifty updates of the same row within one coalesce window, spread
    // over several committed transactions.
    let mut acc = PendingChanges::new();
    for _ in 0..10 {
        let mut buffer = PendingChanges::new();
        for _ in 0..5 {
            record_update_event(&mut buffer, bindings, 42);
        }
        acc.merge_from(buffer.take());
    }
    let committed = vec![(42i64, artist_row(42, "test", "x"))];
    let mut index = artist_index();
    let planned = run_worker(&mut index, single_entry(acc), &committed);
    assert_eq!(planned, 1, "the window must plan at most one upsert for the rowid");
    assert_eq!(index.number_of_documents(), 1);
}

#[test]
fn insert_update_then_delete_in_one_transaction_deletes() {
    let registry = artist_registry();
    let db = "main".to_string();
    let table = "artist".to_string();
    let bindings = registry.lookup(&db, &table).expect("registered table");

    let mut buffer = PendingChanges::new();
    record_update_event(&mut buffer, bindings, 5);
    record_update_event(&mut buffer, bindings, 5);
    let keys = vec!["5".to_string()];
    record_delete_event(&mut buffer, bindings, &keys);

    // The row is gone from committed state, so the re-query returns zero
    // rows and the delete runs last.
    let empty: Vec<(i64, Vec<(String, SqlValue)>)> = Vec::new();
    let mut index = artist_index();
    run_worker(&mut index, single_entry(buffer.take()), &empty);
    assert_eq!(index.number_of_documents(), 0);
}

#[test]
fn update_after_delete_of_another_key_keeps_the_update() {
    let registry = artist_registry();
    let db = "main".to_string();
    let table = "artist".to_string();
    let bindings = registry.lookup(&db, &table).expect("registered table");

    // One transaction deletes artist 3 and re-inserts the row under a new
    // primary key 4 (same rowid); the final committed state holds key 4.
    let mut buffer = PendingChanges::new();
    let keys = vec!["3".to_string()];
    record_delete_event(&mut buffer, bindings, &keys);
    record_update_event(&mut buffer, bindings, 9);

    let committed = vec![(9i64, artist_row(4, "renamed", "x"))];
    let mut index = artist_index();
    run_worker(&mut index, single_entry(buffer.take()), &committed);
    assert!(index.get_document(&"3".to_string()).is_none());
    assert!(index.get_document(&"4".to_string()).is_some());
}

#[test]
fn zero_row_requery_is_a_silent_noop() {
    let registry = artist_registry();
    let db = "main".to_string();
    let table = "artist".to_string();
    let bindings = registry.lookup(&db, &table).expect("registered table");

    let mut index = artist_index();
    let committed = vec![(1i64, artist_row(1, "kept", "x"))];
    let mut buffer = PendingChanges::new();
    record_update_event(&mut buffer, bindings, 1);
    run_worker(&mut index, single_entry(buffer.take()), &committed);
    assert_eq!(index.number_of_documents(), 1);

    // A later window upserts a rowid whose row has already vanished: the
    // re-query returns zero rows and nothing changes.
    record_update_event(&mut buffer, bindings, 99);
    let gone: Vec<(i64, Vec<(String, SqlValue)>)> = Vec::new();
    run_worker(&mut index, single_entry(buffer.take()), &gone);
    assert_eq!(index.number_of_documents(), 1);
    assert!(index.get_document(&"1".to_string()).is_some());
}

#[test]
fn replaying_the_same_window_twice_changes_nothing_more() {
    let mut index = artist_index();
    let rows = vec![
        vec![artist_row(1, "one", "x")],
        vec![artist_row(2, "two", "y")],
    ];
    let batches: Vec<Vec<Document>> =
        rows.iter().map(|r| project_rows(r.iter().map(|row| clone_row(row)).collect())).collect();
    let deletes = vec!["7".to_string()];
    apply_plan(&mut index, batches, deletes);
    assert_eq!(index.number_of_documents(), 2);

    let batches_again: Vec<Vec<Document>> =
        rows.iter().map(|r| project_rows(r.iter().map(|row| clone_row(row)).collect())).collect();
    apply_plan(&mut index, batches_again, vec!["7".to_string()]);
    assert_eq!(index.number_of_documents(), 2);
    assert!(index.get_document(&"1".to_string()).is_some());
    assert!(index.get_document(&"2".to_string()).is_some());
}

#[test]
fn very_large_changeset_completes() {
    let registry = artist_registry();
    let db = "main".to_string();
    let table = "artist".to_string();
    let bindings = registry.lookup(&db, &table).expect("registered table");

    // One hundred thousand operations over ten rowids in one window.
    let mut buffer = PendingChanges::new();
    for i in 0..100_000i64 {
        record_update_event(&mut buffer, bindings, i % 10);
    }
    let committed: Vec<(i64, Vec<(String, SqlValue)>)> =
        (0..10i64).map(|i| (i, artist_row(i, "bulk", "x"))).collect();
    let mut index = artist_index();
    let planned = run_worker(&mut index, single_entry(buffer.take()), &committed);
    assert_eq!(planned, 10);
    assert_eq!(index.number_of_documents(), 10);
}

#[test]
fn operations_reach_the_worker_in_emission_order() {
    let registry = artist_registry();
    let db = "main".to_string();
    let table = "artist".to_string();
    let bindings = registry.lookup(&db, &table).expect("registered table");

    let mut buffer = PendingChanges::new();
    record_update_event(&mut buffer, bindings, 10);
    let keys = vec!["a".to_string()];
    record_delete_event(&mut buffer, bindings, &keys);
    record_update_event(&mut buffer, bindings, 11);

    let ops = single_entry(buffer.take());
    assert_eq!(ops.len(), 3);
    assert!(matches!(&ops[0], TableUpdate::Upsert { rowid: 10, .. }));
    assert!(matches!(&ops[1], TableUpdate::Delete { primary_key } if primary_key == "a"));
    assert!(matches!(&ops[2], TableUpdate::Upsert { rowid: 11, .. }));
}

#[test]
fn coalescing_appends_later_changesets_after_earlier_ones() {
    let registry = artist_registry();
    let db = "main".to_string();
    let table = "artist".to_string();
    let bindings = registry.lookup(&db, &table).expect("registered table");

    let mut first = PendingChanges::new();
    record_update_event(&mut first, bindings, 1);
    let mut second = PendingChanges::new();
    let keys = vec!["1".to_string()];
    record_delete_event(&mut second, bindings, &keys);
    record_update_event(&mut second, bindings, 2);

    let mut window = PendingChanges::new();
    window.merge_from(first.take());
    window.merge_from(second.take());
    let ops = single_entry(window);
    assert_eq!(ops.len(), 3);
    assert!(matches!(&ops[0], TableUpdate::Upsert { rowid: 1, .. }));
    assert!(matches!(&ops[1], TableUpdate::Delete { primary_key } if primary_key == "1"));
    assert!(matches!(&ops[2], TableUpdate::Upsert { rowid: 2, .. }));
}

#[test]
fn unregistered_table_has_no_bindings() {
    let registry = artist_registry();
    let db = "main".to_string();
    let other = "album".to_string();
    assert!(registry.lookup(&db, &other).is_none());
}

#[test]
fn one_table_can_feed_two_indices() {
    let registry = artist_registry().with_table(
        "main".to_string(),
        "artist".to_string(),
        vec![TableIndexSettings {
            index_name: "artists_by_year".to_string(),
            update_query: "select artist_id, year from artist where rowid = ?".to_string(),
        }],
    );
    let db = "main".to_string();
    let table = "artist".to_string();
    let bindings = registry.lookup(&db, &table).expect("registered table");
    assert_eq!(bindings.len(), 2);

    let mut buffer = PendingChanges::new();
    record_update_event(&mut buffer, bindings, 1);
    let entries = buffer.take().into_entries();
    assert_eq!(entries.len(), 2);
    assert_eq!(entries[0].0, "artists");
    assert_eq!(entries[1].0, "artists_by_year");
    assert_eq!(entries[0].1.len(), 1);
    assert_eq!(entries[1].1.len(), 1);
}
