use db_introspect::values::{
    classify_type, marshal_cell, marshal_result_set, CellValue, ColumnMeta, FetchedCell,
    TypeCategory,
};

fn meta(name: &str, declared_type: &str) -> ColumnMeta {
    ColumnMeta { name: name.to_string(), declared_type: declared_type.to_string() }
}

#[test]
fn integer_text_and_boolean_families_are_classified() {
    assert_eq!(classify_type("int2"), TypeCategory::Integer);
    assert_eq!(classify_type("int4"), TypeCategory::Integer);
    assert_eq!(classify_type("int8"), TypeCategory::Integer);
    assert_eq!(classify_type("text"), TypeCategory::Text);
    assert_eq!(classify_type("varchar"), TypeCategory::Text);
    assert_eq!(classify_type("bpchar"), TypeCategory::Text);
    assert_eq!(classify_type("bool"), TypeCategory::Boolean);
}

#[test]
fn exotic_types_fall_into_the_catch_all_category() {
    assert_eq!(classify_type("timestamp"), TypeCategory::Other);
    assert_eq!(classify_type("numeric"), TypeCategory::Other);
    assert_eq!(classify_type("uuid"), TypeCategory::Other);
    assert_eq!(classify_type(""), TypeCategory::Other);
    // Near misses must not match the known names.
    assert_eq!(classify_type("int"), TypeCategory::Other);
    assert_eq!(classify_type("int44"), TypeCategory::Other);
}

#[test]
fn select_one_row_of_three_typed_columns() {
    let cols = vec![meta("n", "int4"), meta("s", "text"), meta("b", "bool")];
    let rows = vec![vec![
        FetchedCell::IntVal(1),
        FetchedCell::TextVal("x".to_string()),
        FetchedCell::BoolVal(true),
    ]];
    let out = marshal_result_set(&cols, rows);
    assert_eq!(out.len(), 1);
    let entries = &out[0].entries;
    assert_eq!(entries.len(), 3);
    assert_eq!(entries[0].name, "n");
    assert!(matches!(entries[0].value, CellValue::IntValue(1)));
    assert_eq!(entries[1].name, "s");
    match &entries[1].value {
        CellValue::TextValue(s) => assert_eq!(s, "x"),
        _ => panic!("expected a text value"),
    }
    assert_eq!(entries[2].name, "b");
    assert!(matches!(entries[2].value, CellValue::BoolValue(true)));
}

#[test]
fn row_count_and_order_are_preserved() {
    let cols = vec![meta("n", "int8")];
    let rows = vec![
        vec![FetchedCell::IntVal(10)],
        vec![FetchedCell::IntVal(20)],
        vec![FetchedCell::IntVal(30)],
    ];
    let out = marshal_result_set(&cols, rows);
    assert_eq!(out.len(), 3);
    assert!(matches!(out[0].entries[0].value, CellValue::IntValue(10)));
    assert!(matches!(out[1].entries[0].value, CellValue::IntValue(20)));
    assert!(matches!(out[2].entries[0].value, CellValue::IntValue(30)));
}

#[test]
fn empty_result_set_yields_no_rows() {
    let cols = vec![meta("n", "int4")];
    let out = marshal_result_set(&cols, vec![]);
    assert!(out.is_empty());
}

#[test]
fn exotic_column_with_text_rendering_keeps_the_text() {
    let v = marshal_cell(
        classify_type("inet"),
        FetchedCell::TextVal("127.0.0.1".to_string()),
    );
    match v {
        CellValue::TextValue(s) => assert_eq!(s, "127.0.0.1"),
        _ => panic!("expected a text value"),
    }
}

#[test]
fn exotic_column_without_text_rendering_becomes_null() {
    let v = marshal_cell(classify_type("timestamp"), FetchedCell::Missing);
    assert!(matches!(v, CellValue::NullValue));
}

#[test]
fn null_cells_become_null_values_not_errors() {
    assert!(matches!(
        marshal_cell(TypeCategory::Integer, FetchedCell::Missing),
        CellValue::NullValue
    ));
    assert!(matches!(
        marshal_cell(TypeCategory::Text, FetchedCell::Missing),
        CellValue::NullValue
    ));
    assert!(matches!(
        marshal_cell(TypeCategory::Boolean, FetchedCell::Missing),
        CellValue::NullValue
    ));
}

#[test]
fn mismatched_conversion_becomes_null() {
    // A category only accepts its own kind of fetched value.
    assert!(matches!(
        marshal_cell(TypeCategory::Integer, FetchedCell::TextVal("7".to_string())),
        CellValue::NullValue
    ));
    assert!(matches!(
        marshal_cell(TypeCategory::Boolean, FetchedCell::IntVal(1)),
        CellValue::NullValue
    ));
}
