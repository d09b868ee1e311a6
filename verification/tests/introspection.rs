use db_introspect::schema::{
    default_is_auto, describe_columns, ColumnInfo, ForeignKeyUsage, RawColumn,
};

fn raw(
    ordinal: u32,
    name: &str,
    data_type: &str,
    nullable: &str,
    default: Option<&str>,
) -> RawColumn {
    RawColumn {
        ordinal_position: ordinal,
        name: name.to_string(),
        data_type: data_type.to_string(),
        is_nullable: nullable.to_string(),
        column_default: default.map(|s| s.to_string()),
        is_generated: "NEVER".to_string(),
        is_identity: "NO".to_string(),
    }
}

fn fk(column: &str, table: &str, referenced: &str) -> ForeignKeyUsage {
    ForeignKeyUsage {
        column: column.to_string(),
        foreign_table: table.to_string(),
        foreign_column: referenced.to_string(),
    }
}

fn orders_descriptors() -> Vec<ColumnInfo> {
    // Rows arrive out of definition order; describe_columns must sort them.
    let cols = vec![
        raw(3, "note", "text", "YES", None),
        raw(1, "id", "integer", "NO", Some("nextval('orders_id_seq'::regclass)")),
        raw(2, "customer_id", "integer", "YES", None),
    ];
    let pks = vec!["id".to_string()];
    let fks = vec![fk("customer_id", "customers", "id")];
    describe_columns(cols, &pks, &fks)
}

#[test]
fn orders_table_has_three_descriptors_in_definition_order() {
    let ds = orders_descriptors();
    assert_eq!(ds.len(), 3);
    assert_eq!(ds[0].name, "id");
    assert_eq!(ds[1].name, "customer_id");
    assert_eq!(ds[2].name, "note");
}

#[test]
fn orders_id_column_is_primary_and_auto_generated() {
    let ds = orders_descriptors();
    assert!(ds[0].is_primary_key);
    assert!(ds[0].is_auto_generated);
    assert!(!ds[0].is_foreign_key);
    assert!(ds[0].foreign_key_table.is_none());
    assert!(ds[0].foreign_key_column.is_none());
    assert!(!ds[0].is_nullable);
}

#[test]
fn orders_customer_id_column_references_customers() {
    let ds = orders_descriptors();
    assert!(ds[1].is_foreign_key);
    assert_eq!(ds[1].foreign_key_table, Some("customers".to_string()));
    assert_eq!(ds[1].foreign_key_column, Some("id".to_string()));
    assert!(!ds[1].is_primary_key);
}

#[test]
fn orders_note_column_has_no_derived_flags() {
    let ds = orders_descriptors();
    assert!(ds[2].is_nullable);
    assert!(!ds[2].is_auto_generated);
    assert!(!ds[2].is_generated);
    assert!(!ds[2].is_identity);
    assert!(!ds[2].is_primary_key);
    assert!(!ds[2].is_foreign_key);
    assert_eq!(ds[2].column_default, None);
}

#[test]
fn exactly_one_descriptor_reports_primary_key() {
    let ds = orders_descriptors();
    let n = ds.iter().filter(|d| d.is_primary_key).count();
    assert_eq!(n, 1);
}

#[test]
fn foreign_key_fields_are_present_or_absent_together() {
    let ds = orders_descriptors();
    for d in &ds {
        assert_eq!(d.is_foreign_key, d.foreign_key_table.is_some());
        assert_eq!(d.is_foreign_key, d.foreign_key_column.is_some());
    }
}

#[test]
fn generated_and_identity_markers_are_decoded() {
    let mut c = raw(1, "total", "numeric", "NO", None);
    c.is_generated = "ALWAYS".to_string();
    let mut ident = raw(2, "id", "integer", "NO", None);
    ident.is_identity = "YES".to_string();
    let ds = describe_columns(vec![c, ident], &vec![], &vec![]);
    assert!(ds[0].is_generated);
    assert!(!ds[0].is_identity);
    assert!(ds[1].is_identity);
    assert!(!ds[1].is_generated);
}

#[test]
fn empty_table_yields_no_descriptors() {
    let ds = describe_columns(vec![], &vec![], &vec![]);
    assert!(ds.is_empty());
}

#[test]
fn auto_generated_heuristic_on_defaults() {
    assert!(default_is_auto(&Some("nextval('seq'::regclass)".to_string())));
    assert!(default_is_auto(&Some("something auto_increment here".to_string())));
    assert!(!default_is_auto(&Some("42".to_string())));
    assert!(!default_is_auto(&Some("now()".to_string())));
    assert!(!default_is_auto(&None));
    // The prefix match is anchored: "nextval" later in the expression does
    // not count, but the substring idiom does anywhere.
    assert!(!default_is_auto(&Some("lower(nextval_name)".to_string())));
}

#[test]
fn nullable_marker_is_decoded() {
    let ds = describe_columns(
        vec![raw(1, "a", "text", "YES", None), raw(2, "b", "text", "NO", None)],
        &vec![],
        &vec![],
    );
    assert!(ds[0].is_nullable);
    assert!(!ds[1].is_nullable);
}

#[test]
fn first_matching_foreign_key_row_wins() {
    let cols = vec![raw(1, "customer_id", "integer", "YES", None)];
    let fks = vec![
        fk("customer_id", "customers", "id"),
        fk("customer_id", "archive_customers", "id"),
    ];
    let ds = describe_columns(cols, &vec![], &fks);
    assert_eq!(ds[0].foreign_key_table, Some("customers".to_string()));
}
