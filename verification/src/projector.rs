//! The row-to-document projector.
//!
//! A SQL result row is rendered into a JSON object one column at a time.
//! TEXT cells get a special policy: if the first character is one of `"`,
//! `{`, `[`, the cell is parsed as JSON and the parsed value is stored; if
//! parsing fails, or the first character is anything else, the raw text is
//! stored as a JSON string. The leading-character check avoids mis-parsing
//! free-form strings that happen to look like numbers. Other cell types map
//! structurally: integers to JSON integers, NULL to JSON null, REAL cells
//! to JSON numbers (carried as decimal text), and BLOB cells to arrays of
//! byte values.

use vstd::prelude::*;
use vstd::string::StrSliceExecFns;
use crate::json::{json_parse, parse_json_text, Document, JsonValue};

verus! {

/// One cell of a SQL result row, as the unverified shell hands it over.
/// A REAL cell arrives as the decimal text of its value, so that no
/// floating point reaches verified code.
pub enum SqlValue {
    Null,
    Integer(i64),
    Real(String),
    Text(String),
    Blob(Vec<u8>),
}

/// Whether a TEXT cell is treated as JSON: its first character is a double
/// quote, an opening brace or an opening bracket.
pub open spec fn text_looks_like_json(s: Seq<char>) -> bool {
    s.len() > 0 && (s[0] == '"' || s[0] == '{' || s[0] == '[')
}

/// How one cell projects to a JSON value. This pins the result exactly:
/// each cell kind has one admissible outcome (the BLOB arm is stated
/// through the array's view).
pub open spec fn is_projected_cell(v: SqlValue, j: JsonValue) -> bool {
    match v {
        SqlValue::Null => j == JsonValue::Null,
        SqlValue::Integer(i) => j == JsonValue::Int(i),
        SqlValue::Real(s) => j == JsonValue::Num(s),
        SqlValue::Text(s) => if text_looks_like_json(s@) {
            match json_parse(s@) {
                Some(p) => j == p,
                None => j == JsonValue::Str(s),
            }
        } else {
            j == JsonValue::Str(s)
        },
        SqlValue::Blob(b) => j matches JsonValue::Arr(a)
            && a@ == b@.map_values(|x: u8| JsonValue::Int(x as i64)),
    }
}

/// How a whole row projects to a document: column names carry over in
/// order, and each cell projects as `is_projected_cell` says.
pub open spec fn is_projected_row(row: Seq<(String, SqlValue)>, doc: Seq<(String, JsonValue)>) -> bool {
    &&& doc.len() == row.len()
    &&& forall|i: int|
        0 <= i < row.len() ==> (#[trigger] doc[i]).0 == row[i].0 && is_projected_cell(
            row[i].1,
            doc[i].1,
        )
}

/// Projects one cell.
pub fn project_cell(v: SqlValue) -> (j: JsonValue)
    ensures
        is_projected_cell(v, j),
{
    match v {
        SqlValue::Null => JsonValue::Null,
        SqlValue::Integer(i) => JsonValue::Int(i),
        SqlValue::Real(s) => JsonValue::Num(s),
        SqlValue::Text(s) => {
            let n = s.as_str().unicode_len();
            let looks = if n == 0 {
                false
            } else {
                let c = s.as_str().get_char(0);
                c == '"' || c == '{' || c == '['
            };
            if looks {
                match parse_json_text(s.as_str()) {
                    Some(p) => p,
                    None => JsonValue::Str(s),
                }
            } else {
                JsonValue::Str(s)
            }
        },
        SqlValue::Blob(b) => {
            let mut vals: Vec<JsonValue> = Vec::new();
            let mut i: usize = 0;
            while i < b.len()
                invariant
                    i <= b.len(),
                    vals@ == b@.take(i as int).map_values(|x: u8| JsonValue::Int(x as i64)),
                decreases b.len() - i,
            {
                vals.push(JsonValue::Int(b[i] as i64));
                proof {
                    assert(b@.take(i + 1) =~= b@.take(i as int).push(b@[i as int]));
                    assert(b@.take(i + 1).map_values(|x: u8| JsonValue::Int(x as i64)) =~= b@.take(
                        i as int,
                    ).map_values(|x: u8| JsonValue::Int(x as i64)).push(
                        JsonValue::Int(b@[i as int] as i64),
                    ));
                }
                i = i + 1;
            }
            proof {
                assert(b@.take(b@.len() as int) =~= b@);
            }
            JsonValue::Arr(vals)
        },
    }
}

/// Projects a whole row into a document.
pub fn project_row(row: Vec<(String, SqlValue)>) -> (doc: Document)
    ensures
        is_projected_row(row@, doc@),
{
    let ghost orig = row@;
    let mut rest = row;
    let mut doc: Document = Vec::new();
    while rest.len() > 0
        invariant
            doc@.len() + rest@.len() == orig.len(),
            forall|i: int| 0 <= i < rest@.len() ==> rest@[i] == orig[doc@.len() + i],
            forall|i: int|
                0 <= i < doc@.len() ==> (#[trigger] doc@[i]).0 == orig[i].0 && is_projected_cell(
                    orig[i].1,
                    doc@[i].1,
                ),
        decreases rest@.len(),
    {
        let (name, val) = rest.remove(0);
        let j = project_cell(val);
        doc.push((name, j));
    }
    doc
}

/// Projects every row that one re-query returned, in order: one document
/// per row.
#[verifier::loop_isolation(false)]
pub fn project_rows(rows: Vec<Vec<(String, SqlValue)>>) -> (docs: Vec<Document>)
    ensures
        docs@.len() == rows@.len(),
        forall|i: int|
            0 <= i < rows@.len() ==> is_projected_row((#[trigger] rows@[i])@, docs@[i]@),
{
    let ghost orig = rows@;
    let total: usize = rows.len();
    let mut rest = rows;
    let mut docs: Vec<Document> = Vec::new();
    while rest.len() > 0
        invariant
            total == orig.len(),
            docs@.len() + rest@.len() == orig.len(),
            forall|i: int| 0 <= i < rest@.len() ==> rest@[i] == orig[docs@.len() + i],
            forall|i: int|
                0 <= i < docs@.len() ==> is_projected_row((#[trigger] orig[i])@, docs@[i]@),
        decreases rest@.len(),
    {
        let r = rest.remove(0);
        docs.push(project_row(r));
    }
    docs
}

} // verus!
