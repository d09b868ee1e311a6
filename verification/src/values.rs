//! Dynamic result marshaling: mapping a column's reported database type to
//! a generic tagged value and assembling rows into an ordered structure.

use vstd::prelude::*;
use crate::strings::str_eq;

verus! {

/// The closed set of type categories the marshaler dispatches on. Every
/// reported type name falls into exactly one category; anything outside the
/// integer, text and boolean families is `Other`.
#[derive(Clone, Copy, PartialEq, Eq, Structural, Debug)]
pub enum TypeCategory {
    Integer,
    Text,
    Boolean,
    Other,
}

/// The category a reported type name selects: the signed integer widths map
/// to `Integer`, the character types to `Text`, booleans to `Boolean`, and
/// everything else to `Other`.
pub open spec fn classify_spec(t: Seq<char>) -> TypeCategory {
    if t == "int2"@ || t == "int4"@ || t == "int8"@ {
        TypeCategory::Integer
    } else if t == "text"@ || t == "varchar"@ || t == "bpchar"@ {
        TypeCategory::Text
    } else if t == "bool"@ {
        TypeCategory::Boolean
    } else {
        TypeCategory::Other
    }
}

/// Classifies a reported database type name into its conversion category.
pub fn classify_type(t: &str) -> (c: TypeCategory)
    ensures
        c == classify_spec(t@),
{
    if str_eq(t, "int2") || str_eq(t, "int4") || str_eq(t, "int8") {
        TypeCategory::Integer
    } else if str_eq(t, "text") || str_eq(t, "varchar") || str_eq(t, "bpchar") {
        TypeCategory::Text
    } else if str_eq(t, "bool") {
        TypeCategory::Boolean
    } else {
        TypeCategory::Other
    }
}

/// What the database driver handed back for one cell when asked for the
/// conversion its category calls for: the converted value, or `Missing`
/// where the conversion was not representable (a NULL, or a value the
/// attempted conversion rejects).
pub enum FetchedCell {
    IntVal(i64),
    TextVal(String),
    BoolVal(bool),
    Missing,
}

/// A generic tagged cell value: integer, text, boolean, or null.
pub enum CellValue {
    IntValue(i64),
    TextValue(String),
    BoolValue(bool),
    NullValue,
}

/// The marshaling rule for one cell: a category accepts exactly its own
/// kind of fetched value; anything else — including a failed conversion —
/// becomes null rather than an error. The `Other` category keeps a text
/// rendering when one was representable, null otherwise.
pub open spec fn marshal_cell_spec(c: TypeCategory, f: FetchedCell) -> CellValue {
    match c {
        TypeCategory::Integer => match f {
            FetchedCell::IntVal(v) => CellValue::IntValue(v),
            _ => CellValue::NullValue,
        },
        TypeCategory::Text => match f {
            FetchedCell::TextVal(s) => CellValue::TextValue(s),
            _ => CellValue::NullValue,
        },
        TypeCategory::Boolean => match f {
            FetchedCell::BoolVal(b) => CellValue::BoolValue(b),
            _ => CellValue::NullValue,
        },
        TypeCategory::Other => match f {
            FetchedCell::TextVal(s) => CellValue::TextValue(s),
            _ => CellValue::NullValue,
        },
    }
}

/// Converts one fetched cell under the given category.
pub fn marshal_cell(c: TypeCategory, f: FetchedCell) -> (v: CellValue)
    ensures
        v == marshal_cell_spec(c, f),
{
    match c {
        TypeCategory::Integer => match f {
            FetchedCell::IntVal(v) => CellValue::IntValue(v),
            _ => CellValue::NullValue,
        },
        TypeCategory::Text => match f {
            FetchedCell::TextVal(s) => CellValue::TextValue(s),
            _ => CellValue::NullValue,
        },
        TypeCategory::Boolean => match f {
            FetchedCell::BoolVal(b) => CellValue::BoolValue(b),
            _ => CellValue::NullValue,
        },
        TypeCategory::Other => match f {
            FetchedCell::TextVal(s) => CellValue::TextValue(s),
            _ => CellValue::NullValue,
        },
    }
}

/// A column of a result set: its name and its reported type name, in the
/// result set's declared order.
pub struct ColumnMeta {
    pub name: String,
    pub declared_type: String,
}

/// One named cell of a marshaled row.
pub struct RowEntry {
    pub name: String,
    pub value: CellValue,
}

/// One marshaled row: an ordered mapping from column name to tagged value,
/// in the result set's declared column order.
pub struct DynamicRow {
    pub entries: Vec<RowEntry>,
}

/// The row `row` is the marshaling of `fetched` under the columns `cols`:
/// one entry per column, in declared order, each named after its column and
/// holding the converted value.
pub open spec fn row_matches(cols: Seq<ColumnMeta>, fetched: Seq<FetchedCell>, row: DynamicRow) -> bool {
    &&& row.entries@.len() == cols.len()
    &&& forall|i: int|
        0 <= i < cols.len() ==> (#[trigger] row.entries@[i]).name@ == cols[i].name@
    &&& forall|i: int|
        0 <= i < cols.len() ==> (#[trigger] row.entries@[i]).value == marshal_cell_spec(
            classify_spec(cols[i].declared_type@),
            fetched[i],
        )
}

/// Marshals one row of fetched cells against the declared columns,
/// preserving the declared column order.
pub fn marshal_row(cols: &Vec<ColumnMeta>, fetched: Vec<FetchedCell>) -> (r: DynamicRow)
    requires
        fetched@.len() == cols@.len(),
    ensures
        row_matches(cols@, fetched@, r),
{
    let ghost all = fetched@;
    let mut fetched = fetched;
    let mut entries: Vec<RowEntry> = Vec::new();
    let mut i: usize = 0;
    while i < cols.len()
        invariant
            0 <= i <= cols@.len(),
            all.len() == cols@.len(),
            fetched@ =~= all.skip(i as int),
            entries@.len() == i,
            forall|k: int| 0 <= k < i ==> (#[trigger] entries@[k]).name@ == cols@[k].name@,
            forall|k: int|
                0 <= k < i ==> (#[trigger] entries@[k]).value == marshal_cell_spec(
                    classify_spec(cols@[k].declared_type@),
                    all[k],
                ),
        decreases cols@.len() - i,
    {
        let f = fetched.remove(0);
        proof {
            assert(f == all[i as int]);
            assert(fetched@ =~= all.skip(i + 1));
        }
        let meta = &cols[i];
        let category = classify_type(meta.declared_type.as_str());
        let value = marshal_cell(category, f);
        entries.push(RowEntry { name: meta.name.clone(), value });
        i = i + 1;
    }
    DynamicRow { entries }
}

/// Marshals a whole result set: one `DynamicRow` per fetched row, in the
/// order the rows arrived, each row's cells in the declared column order.
/// A statement returning no rows yields an empty sequence, not an error.
pub fn marshal_result_set(cols: &Vec<ColumnMeta>, rows: Vec<Vec<FetchedCell>>) -> (r: Vec<
    DynamicRow,
>)
    requires
        forall|i: int| 0 <= i < rows@.len() ==> (#[trigger] rows@[i])@.len() == cols@.len(),
    ensures
        r@.len() == rows@.len(),
        forall|i: int| 0 <= i < rows@.len() ==> row_matches(cols@, rows@[i]@, #[trigger] r@[i]),
{
    let ghost all = rows@;
    let mut rows = rows;
    let mut out: Vec<DynamicRow> = Vec::new();
    while rows.len() > 0
        invariant
            0 <= out@.len() <= all.len(),
            rows@ =~= all.skip(out@.len() as int),
            forall|k: int| 0 <= k < all.len() ==> (#[trigger] all[k])@.len() == cols@.len(),
            forall|k: int| 0 <= k < out@.len() ==> row_matches(cols@, all[k]@, #[trigger] out@[k]),
        decreases all.len() - out@.len(),
    {
        let ghost i = out@.len() as int;
        let fetched_row = rows.remove(0);
        proof {
            assert(fetched_row == all[i]);
            assert(rows@ =~= all.skip(i + 1));
        }
        let row = marshal_row(cols, fetched_row);
        out.push(row);
    }
    out
}

/// A column of a category outside the integer, text and boolean families
/// never fails the call: where no text rendering was representable the cell
/// becomes null, and where one was it becomes that text.
pub proof fn lemma_exotic_type_never_fails(t: Seq<char>, f: FetchedCell)
    requires
        classify_spec(t) == TypeCategory::Other,
    ensures
        f matches FetchedCell::TextVal(s) ==> marshal_cell_spec(classify_spec(t), f)
            == CellValue::TextValue(s),
        !(f matches FetchedCell::TextVal(_)) ==> marshal_cell_spec(classify_spec(t), f)
            == CellValue::NullValue,
{
}

} // verus!
