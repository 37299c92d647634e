//! The row-to-document projector: the TEXT-cell JSON policy and the
//! structural mappings of the other cell kinds.

use skald::json::JsonValue;
use skald::projector::{project_cell, project_row, project_rows, SqlValue};

#[test]
fn text_cell_with_json_object_is_parsed() {
    let j = project_cell(SqlValue::Text("{\"yo\":[true,2]}".to_string()));
    match j {
        JsonValue::Obj(fields) => {
            assert_eq!(fields.len(), 1);
            assert_eq!(fields[0].0, "yo");
            match &fields[0].1 {
                JsonValue::Arr(items) => {
                    assert_eq!(items.len(), 2);
                    assert!(matches!(items[0], JsonValue::Bool(true)));
                    assert!(matches!(items[1], JsonValue::Int(2)));
                }
                _ => panic!("expected an array under the yo field"),
            }
        }
        _ => panic!("expected a parsed JSON object, not a raw string"),
    }
}

#[test]
fn text_cell_with_json_array_is_parsed() {
    let j = project_cell(SqlValue::Text("[1,2,3]".to_string()));
    match j {
        JsonValue::Arr(items) => {
            assert_eq!(items.len(), 3);
            assert!(matches!(items[0], JsonValue::Int(1)));
            assert!(matches!(items[2], JsonValue::Int(3)));
        }
        _ => panic!("expected a parsed JSON array"),
    }
}

#[test]
fn text_cell_with_quoted_string_is_parsed() {
    let j = project_cell(SqlValue::Text("\"quoted\"".to_string()));
    match j {
        JsonValue::Str(s) => assert_eq!(s, "quoted"),
        _ => panic!("expected the inner string of the JSON literal"),
    }
}

#[test]
fn broken_json_text_cell_falls_back_to_literal_string() {
    let j = project_cell(SqlValue::Text("{\"broken".to_string()));
    match j {
        JsonValue::Str(s) => assert_eq!(s, "{\"broken"),
        _ => panic!("invalid JSON must be stored as the literal string"),
    }
}

#[test]
fn plain_text_cell_stays_a_string() {
    let j = project_cell(SqlValue::Text("plain text".to_string()));
    match j {
        JsonValue::Str(s) => assert_eq!(s, "plain text"),
        _ => panic!("free-form text must stay a string"),
    }
}

#[test]
fn numeric_looking_text_is_not_parsed_as_a_number() {
    let j = project_cell(SqlValue::Text("123".to_string()));
    match j {
        JsonValue::Str(s) => assert_eq!(s, "123"),
        _ => panic!("text that looks like a number must stay a string"),
    }
}

#[test]
fn empty_text_cell_stays_an_empty_string() {
    let j = project_cell(SqlValue::Text(String::new()));
    assert!(matches!(j, JsonValue::Str(s) if s.is_empty()));
}

#[test]
fn integer_null_real_and_blob_cells_map_structurally() {
    assert!(matches!(project_cell(SqlValue::Integer(-5)), JsonValue::Int(-5)));
    assert!(matches!(project_cell(SqlValue::Null), JsonValue::Null));
    match project_cell(SqlValue::Real("1.5".to_string())) {
        JsonValue::Num(s) => assert_eq!(s, "1.5"),
        _ => panic!("a REAL cell keeps its decimal text"),
    }
    match project_cell(SqlValue::Blob(vec![0u8, 255u8])) {
        JsonValue::Arr(items) => {
            assert_eq!(items.len(), 2);
            assert!(matches!(items[0], JsonValue::Int(0)));
            assert!(matches!(items[1], JsonValue::Int(255)));
        }
        _ => panic!("a BLOB cell becomes an array of byte values"),
    }
}

#[test]
fn row_projection_keeps_column_names_and_order() {
    let row = vec![
        ("artist_id".to_string(), SqlValue::Integer(1)),
        ("artist_name".to_string(), SqlValue::Text("test".to_string())),
        ("extra".to_string(), SqlValue::Text("{\"yo\":[true,2]}".to_string())),
    ];
    let doc = project_row(row);
    assert_eq!(doc.len(), 3);
    assert_eq!(doc[0].0, "artist_id");
    assert_eq!(doc[1].0, "artist_name");
    assert_eq!(doc[2].0, "extra");
    assert!(matches!(doc[0].1, JsonValue::Int(1)));
    assert!(matches!(&doc[1].1, JsonValue::Str(s) if s == "test"));
    assert!(matches!(doc[2].1, JsonValue::Obj(_)));
}

#[test]
fn rows_projection_keeps_row_order() {
    let rows = vec![
        vec![("id".to_string(), SqlValue::Integer(1))],
        vec![("id".to_string(), SqlValue::Integer(2))],
    ];
    let docs = project_rows(rows);
    assert_eq!(docs.len(), 2);
    assert!(matches!(docs[0][0].1, JsonValue::Int(1)));
    assert!(matches!(docs[1][0].1, JsonValue::Int(2)));
}
